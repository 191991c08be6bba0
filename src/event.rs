//! Counter records: one line of the counter tool's output, and the event
//! that it reports.
use vstd::prelude::*;
use crate::node_id::{NodeID, decode, supported_width};
use crate::text::{
    is_dec_digit, digit_value, number_at, lit_end, skip_hex_prefixes, read_number, after_lit,
    skip_prefixes,
};

verus! {

/// What a counter reported for a node.
#[derive(Debug, Clone, Copy, PartialEq, Eq)]
pub enum Count {
    /// The node implements the counter; this is its value. A counter that
    /// was not scheduled ("<not counted>") reads as zero.
    Counted(u64),
    /// The node does not implement the counter: no node sits there.
    Unsupported,
}

/// One counter reading of one mesh node.
#[derive(Debug, Clone, Copy, PartialEq, Eq)]
pub struct Event {
    pub cmn_idx: u8,
    pub event_type: u8,
    pub event_id: u16,
    pub node_id: NodeID,
    pub counts: Count,
}

/// The count field at the start of a line, and where it ends.
pub open spec fn count_field(s: Seq<char>) -> Option<(Count, int)> {
    match lit_end(s, 0, "<not supported>"@) {
        Some(e) => Some((Count::Unsupported, e)),
        None => match lit_end(s, 0, "<not counted>"@) {
            Some(e) => Some((Count::Counted(0), e)),
            None => match number_at(s, 0, 10, u64::MAX as nat) {
                Some((v, e)) => Some((Count::Counted(v as u64), e)),
                None => None,
            },
        },
    }
}

/// A hexadecimal field at `i` (after any `0x` prefixes) of value at most
/// `limit`, and where it ends.
pub open spec fn hex_field(s: Seq<char>, i: int, limit: nat) -> Option<(nat, int)> {
    number_at(s, skip_hex_prefixes(s, i), 16, limit)
}

/// The head of a record line, `<count>;;arm_cmn_<digit>/type=`: the count,
/// the mesh instance, and where the head ends.
pub open spec fn record_head(s: Seq<char>) -> Option<(Count, u8, int)> {
    match count_field(s) {
        None => None,
        Some((counts, a)) => match lit_end(s, a, ";;arm_cmn_"@) {
            None => None,
            Some(b) => if b < s.len() && is_dec_digit(s[b]) {
                match lit_end(s, b + 1, "/type="@) {
                    None => None,
                    Some(c) => Some((counts, digit_value(s[b]) as u8, c)),
                }
            } else {
                None
            },
        },
    }
}

/// The rest of a record line from `c`:
/// `<hex>,eventid=<hex>,bynodeid=0x1,nodeid=<hex>/` and any text after it;
/// the event type, event id and node identifier.
pub open spec fn record_ids(s: Seq<char>, c: int) -> Option<(u8, u16, u16)> {
    match hex_field(s, c, 0xff) {
        None => None,
        Some((ty, d)) => match lit_end(s, d, ",eventid="@) {
            None => None,
            Some(e) => match hex_field(s, e, 0xffff) {
                None => None,
                Some((id, f)) => match lit_end(s, f, ",bynodeid=0x1,nodeid="@) {
                    None => None,
                    Some(g) => match hex_field(s, g, 0xffff) {
                        None => None,
                        Some((node, h)) => match lit_end(s, h, "/"@) {
                            None => None,
                            Some(_) => Some((ty as u8, id as u16, node as u16)),
                        },
                    },
                },
            },
        },
    }
}

/// The event that a line of the counter tool's output reports, if the line
/// is a counter record; node identifiers are read under `width`.
pub open spec fn parse_record(s: Seq<char>, width: u8) -> Option<Event> {
    match record_head(s) {
        None => None,
        Some((counts, cmn_idx, c)) => match record_ids(s, c) {
            None => None,
            Some((event_type, event_id, node)) => Some(
                Event { cmn_idx, event_type, event_id, node_id: decode(node, width), counts },
            ),
        },
    }
}

fn read_count(line: &Vec<char>) -> (r: Option<(Count, usize)>)
    ensures
        r matches Some((c, e)) ==> count_field(line@) == Some((c, e as int)),
        r is None ==> count_field(line@) is None,
{
    if let Some(e) = after_lit(line, 0, "<not supported>") {
        return Some((Count::Unsupported, e));
    }
    if let Some(e) = after_lit(line, 0, "<not counted>") {
        return Some((Count::Counted(0), e));
    }
    match read_number(line, 0, 10, u64::MAX) {
        Some((v, e)) => Some((Count::Counted(v), e)),
        None => None,
    }
}

fn read_hex(line: &Vec<char>, i: usize, limit: u64) -> (r: Option<(u64, usize)>)
    requires
        i <= line@.len(),
    ensures
        r matches Some((v, e)) ==> hex_field(line@, i as int, limit as nat) == Some(
            (v as nat, e as int),
        ) && e <= line@.len() && v <= limit,
        r is None ==> hex_field(line@, i as int, limit as nat) is None,
{
    let j = skip_prefixes(line, i);
    let r = read_number(line, j, 16, limit);
    proof {
        if r is Some {
            crate::text::lemma_number_bounds(line@, j as int, 16, limit as nat);
        }
    }
    r
}

impl Event {
    /// Reads the event that a line of the counter tool's output reports:
    /// `None` when the line is not a counter record (a banner, a summary,
    /// or a field out of range).
    pub fn from_line(line: &Vec<char>, nodeid_length: u8) -> (r: Option<Event>)
        requires
            supported_width(nodeid_length),
        ensures
            r == parse_record(line@, nodeid_length),
    {
        let (counts, a) = match read_count(line) {
            Some(p) => p,
            None => return None,
        };
        let b = match after_lit(line, a, ";;arm_cmn_") {
            Some(b) => b,
            None => return None,
        };
        if b >= line.len() || !('0' <= line[b] && line[b] <= '9') {
            return None;
        }
        let cmn_idx = (line[b] as u32 - '0' as u32) as u8;
        let c = match after_lit(line, b + 1, "/type=") {
            Some(c) => c,
            None => return None,
        };
        assert(record_head(line@) == Some((counts, cmn_idx, c as int)));
        let (ty, d) = match read_hex(line, c, 0xff) {
            Some(p) => p,
            None => return None,
        };
        let e = match after_lit(line, d, ",eventid=") {
            Some(e) => e,
            None => return None,
        };
        let (id, f) = match read_hex(line, e, 0xffff) {
            Some(p) => p,
            None => return None,
        };
        let g = match after_lit(line, f, ",bynodeid=0x1,nodeid=") {
            Some(g) => g,
            None => return None,
        };
        let (node, h) = match read_hex(line, g, 0xffff) {
            Some(p) => p,
            None => return None,
        };
        match after_lit(line, h, "/") {
            Some(_) => {},
            None => return None,
        }
        Some(
            Event {
                cmn_idx,
                event_type: ty as u8,
                event_id: id as u16,
                node_id: NodeID::from_nodeid(node as u16, nodeid_length),
                counts,
            },
        )
    }
}

} // verus!
