use cmn_topology::node_id::{width_supported, NodeID};

fn node(x: u16, y: u16, port: u16, nodeid_length: u8) -> NodeID {
    NodeID { x, y, port, nodeid_length }
}

#[test]
fn encode_packs_fields() {
    // port at bit 2, y from bit 3, x above the 3-bit y field
    assert_eq!(node(1, 2, 1, 9).to_nodeid(), (1 << 6) | (2 << 3) | (1 << 2));
    assert_eq!(node(1, 2, 1, 9).to_nodeid(), 0x54);
    assert_eq!(node(3, 1, 0, 7).to_nodeid(), (3 << 5) | (1 << 3));
    assert_eq!(node(15, 15, 1, 11).to_nodeid(), (15 << 7) | (15 << 3) | 4);
    assert_eq!(node(0, 0, 0, 9).to_nodeid(), 0);
}

#[test]
fn decode_reads_fields() {
    let n = NodeID::from_nodeid(0x54, 9);
    assert_eq!((n.x, n.y, n.port, n.nodeid_length), (1, 2, 1, 9));
    let n = NodeID::from_nodeid(0x68, 9);
    assert_eq!((n.x, n.y, n.port), (1, 5, 0));
}

#[test]
fn round_trip_every_supported_width() {
    for (width, bits) in [(7u8, 2u32), (9, 3), (11, 4)] {
        for x in 0..(1u16 << bits) {
            for y in 0..(1u16 << bits) {
                for port in 0..2u16 {
                    let id = node(x, y, port, width).to_nodeid();
                    let back = NodeID::from_nodeid(id, width);
                    assert_eq!(back, node(x, y, port, width));
                }
            }
        }
    }
}

#[test]
fn round_trip_fails_beyond_coordinate_field() {
    // y = 8 is below 2^9 but does not fit the 3-bit y field of width 9
    let id = node(0, 8, 0, 9).to_nodeid();
    assert_ne!(NodeID::from_nodeid(id, 9), node(0, 8, 0, 9));
}

#[test]
fn only_defined_widths_are_supported() {
    assert!(!width_supported(8));
    assert!(!width_supported(0));
    assert!(!width_supported(16));
    assert!(width_supported(7) && width_supported(9) && width_supported(11));
}
