//! The node identifier codec: mesh coordinates and device port packed into
//! the linear identifier that the counter hardware addresses nodes by.
use vstd::prelude::*;
use vstd::arithmetic::power2::pow2;

verus! {

/// A mesh position as the counter hardware addresses it.
#[derive(Debug, Clone, Copy, PartialEq, Eq)]
pub struct NodeID {
    pub x: u16,
    pub y: u16,
    pub port: u16,
    pub nodeid_length: u8,
}

/// Identifier widths that the mesh addressing scheme defines.
pub open spec fn supported_width(width: u8) -> bool {
    width == 7 || width == 9 || width == 11
}

/// Bits given to each coordinate field for an identifier width; zero for a
/// width that the addressing scheme does not define.
pub open spec fn coord_bits(width: u8) -> u16 {
    if width == 7 {
        2
    } else if width == 9 {
        3
    } else if width == 11 {
        4
    } else {
        0
    }
}

/// The low `bits` bits set.
pub open spec fn low_mask(bits: u16) -> u16 {
    !(!0u16 << bits)
}

/// The identifier of a position: port at bit 2, y from bit 3, x above y.
pub open spec fn encode(x: u16, y: u16, port: u16, width: u8) -> u16 {
    (x << ((coord_bits(width) + 3) as u16)) | (y << 3u16) | (port << 2u16)
}

/// The position that an identifier names under a given width.
pub open spec fn decode(id: u16, width: u8) -> NodeID {
    let bits = coord_bits(width);
    NodeID {
        x: (id >> ((bits + 3) as u16)) & low_mask(bits),
        y: (id >> 3u16) & low_mask(bits),
        port: (id & 4u16) >> 2u16,
        nodeid_length: width,
    }
}

fn coord_bits_of(width: u8) -> (r: u16)
    ensures
        r == coord_bits(width),
{
    match width {
        7 => 2,
        9 => 3,
        11 => 4,
        _ => 0,
    }
}

/// Whether the addressing scheme defines identifiers of this width.
pub fn width_supported(width: u8) -> (r: bool)
    ensures
        r == supported_width(width),
{
    width == 7 || width == 9 || width == 11
}

impl NodeID {
    /// Packs the position into its identifier.
    pub fn to_nodeid(&self) -> (r: u16)
        requires
            supported_width(self.nodeid_length),
            (self.x as int) < pow2(self.nodeid_length as nat),
            (self.y as int) < pow2(self.nodeid_length as nat),
            self.port <= 1,
        ensures
            r == encode(self.x, self.y, self.port, self.nodeid_length),
    {
        let bits = coord_bits_of(self.nodeid_length);
        (self.x << (bits + 3)) | (self.y << 3u16) | (self.port << 2u16)
    }

    /// Reads a position back out of an identifier.
    pub fn from_nodeid(nodeid: u16, nodeid_length: u8) -> (r: NodeID)
        requires
            supported_width(nodeid_length),
        ensures
            r == decode(nodeid, nodeid_length),
    {
        let bits = coord_bits_of(nodeid_length);
        let mask: u16 = !(!0u16 << bits);
        let port = (nodeid & 4u16) >> 2u16;
        let y = (nodeid >> 3u16) & mask;
        let x = (nodeid >> (bits + 3)) & mask;
        NodeID { x, y, port, nodeid_length }
    }
}

/// A decoded position has coordinates below 16 and port 0 or 1.
pub proof fn lemma_decode_bounds(id: u16, width: u8)
    ensures
        decode(id, width).x < 16,
        decode(id, width).y < 16,
        decode(id, width).port <= 1,
        decode(id, width).nodeid_length == width,
{
    let b = coord_bits(width);
    let x = (id >> ((b + 3) as u16)) & low_mask(b);
    let y = (id >> 3u16) & low_mask(b);
    assert(forall|v: u16, k: u16| k <= 4 ==> #[trigger] (v & !(!0u16 << k)) < 16) by (bit_vector);
    assert(((id & 4u16) >> 2u16) <= 1) by (bit_vector);
}

/// Encoding a position and decoding the identifier under the same supported
/// width gives the position back, whenever both coordinates fit the width's
/// coordinate fields and the port is 0 or 1.
pub proof fn lemma_round_trip(x: u16, y: u16, port: u16, width: u8)
    requires
        supported_width(width),
        (x as int) < pow2(coord_bits(width) as nat),
        (y as int) < pow2(coord_bits(width) as nat),
        port <= 1,
    ensures
        decode(encode(x, y, port, width), width) == (NodeID { x, y, port, nodeid_length: width }),
{
    vstd::arithmetic::power2::lemma2_to64();
    if width == 7 {
        assert(x < 4 && y < 4 && port <= 1 ==> (((x << 5u16) | (y << 3u16) | (port << 2u16)) >> 5u16)
            & !(!0u16 << 2u16) == x) by (bit_vector);
        assert(x < 4 && y < 4 && port <= 1 ==> (((x << 5u16) | (y << 3u16) | (port << 2u16)) >> 3u16)
            & !(!0u16 << 2u16) == y) by (bit_vector);
        assert(x < 4 && y < 4 && port <= 1 ==> ((((x << 5u16) | (y << 3u16) | (port << 2u16)) & 4u16)
            >> 2u16) == port) by (bit_vector);
    } else if width == 9 {
        assert(x < 8 && y < 8 && port <= 1 ==> (((x << 6u16) | (y << 3u16) | (port << 2u16)) >> 6u16)
            & !(!0u16 << 3u16) == x) by (bit_vector);
        assert(x < 8 && y < 8 && port <= 1 ==> (((x << 6u16) | (y << 3u16) | (port << 2u16)) >> 3u16)
            & !(!0u16 << 3u16) == y) by (bit_vector);
        assert(x < 8 && y < 8 && port <= 1 ==> ((((x << 6u16) | (y << 3u16) | (port << 2u16)) & 4u16)
            >> 2u16) == port) by (bit_vector);
    } else {
        assert(x < 16 && y < 16 && port <= 1 ==> (((x << 7u16) | (y << 3u16) | (port << 2u16))
            >> 7u16) & !(!0u16 << 4u16) == x) by (bit_vector);
        assert(x < 16 && y < 16 && port <= 1 ==> (((x << 7u16) | (y << 3u16) | (port << 2u16))
            >> 3u16) & !(!0u16 << 4u16) == y) by (bit_vector);
        assert(x < 16 && y < 16 && port <= 1 ==> ((((x << 7u16) | (y << 3u16) | (port << 2u16))
            & 4u16) >> 2u16) == port) by (bit_vector);
    }
}

/// Why the codec refuses widths that the addressing scheme does not define:
/// under such a width every identifier would decode to the origin, so no
/// position other than the origin would survive a round trip.
pub proof fn lemma_unsupported_width(id: u16, x: u16, y: u16, port: u16, width: u8)
    requires
        !supported_width(width),
    ensures
        decode(id, width).x == 0,
        decode(id, width).y == 0,
        (x != 0 || y != 0) ==> decode(encode(x, y, port, width), width) != (NodeID {
            x,
            y,
            port,
            nodeid_length: width,
        }),
{
    assert(forall|v: u16| #![auto] v & !(!0u16 << 0u16) == 0) by (bit_vector);
}

} // verus!
