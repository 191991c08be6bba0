//! Decoding the counter tool's textual output into events.
use vstd::prelude::*;
use crate::event::{Count, Event, parse_record};
use crate::text::chars_of;
use crate::node_id::supported_width;

verus! {

/// The lines of a text, split at each `'\n'`; an empty text is one empty line.
pub open spec fn split_lines(s: Seq<char>) -> Seq<Seq<char>>
    decreases s.len(),
{
    if s.len() == 0 {
        seq![Seq::empty()]
    } else {
        let r = split_lines(s.drop_last());
        if s.last() == '\n' {
            r.push(Seq::empty())
        } else {
            r.update(r.len() - 1, r.last().push(s.last()))
        }
    }
}

/// The event that a line contributes: a counter record whose node
/// implements the counter.
pub open spec fn line_event(line: Seq<char>, width: u8) -> Option<Event> {
    match parse_record(line, width) {
        Some(e) => if e.counts is Counted {
            Some(e)
        } else {
            None
        },
        None => None,
    }
}

/// The events of a sequence of lines, in line order.
pub open spec fn decode_lines(lines: Seq<Seq<char>>, width: u8) -> Seq<Event>
    decreases lines.len(),
{
    if lines.len() == 0 {
        Seq::empty()
    } else {
        let prev = decode_lines(lines.drop_last(), width);
        match line_event(lines.last(), width) {
            Some(e) => prev.push(e),
            None => prev,
        }
    }
}

/// The events that a text of counter output reports.
pub open spec fn decode_text(s: Seq<char>, width: u8) -> Seq<Event> {
    decode_lines(split_lines(s), width)
}

pub(crate) proof fn lemma_split_nonempty(s: Seq<char>)
    ensures
        split_lines(s).len() >= 1,
    decreases s.len(),
{
    if s.len() > 0 {
        lemma_split_nonempty(s.drop_last());
    }
}

proof fn lemma_split_concat(x: Seq<char>, y: Seq<char>)
    ensures
        split_lines(x + seq!['\n'] + y) == split_lines(x) + split_lines(y),
    decreases y.len(),
{
    let z = x + seq!['\n'] + y;
    if y.len() == 0 {
        assert(z.drop_last() =~= x);
        assert(split_lines(y) =~= seq![Seq::<char>::empty()]);
        assert(split_lines(z) =~= split_lines(x) + split_lines(y));
    } else {
        assert(z.drop_last() =~= x + seq!['\n'] + y.drop_last());
        lemma_split_concat(x, y.drop_last());
        lemma_split_nonempty(y.drop_last());
        assert(split_lines(z) =~= split_lines(x) + split_lines(y));
    }
}

proof fn lemma_split_one_line(l: Seq<char>)
    requires
        forall|i: int| 0 <= i < l.len() ==> l[i] != '\n',
    ensures
        split_lines(l) == seq![l],
    decreases l.len(),
{
    if l.len() == 0 {
        assert(l =~= Seq::<char>::empty());
    } else {
        lemma_split_one_line(l.drop_last());
        assert(l.drop_last().push(l.last()) =~= l);
        assert(seq![l.drop_last()].update(0, l.drop_last().push(l.last())) =~= seq![l]);
    }
}

proof fn lemma_decode_concat(a: Seq<Seq<char>>, b: Seq<Seq<char>>, width: u8)
    ensures
        decode_lines(a + b, width) == decode_lines(a, width) + decode_lines(b, width),
    decreases b.len(),
{
    if b.len() == 0 {
        assert(a + b =~= a);
        assert(decode_lines(a, width) + decode_lines(b, width) =~= decode_lines(a, width));
    } else {
        assert((a + b).drop_last() =~= a + b.drop_last());
        lemma_decode_concat(a, b.drop_last(), width);
        assert(decode_lines(a + b, width) =~= decode_lines(a, width) + decode_lines(b, width));
    }
}

/// A line that is not a counter record contributes no event and leaves the
/// decoding of the lines around it as it would be without it.
pub proof fn lemma_noise_line_skipped(before: Seq<char>, noise: Seq<char>, after: Seq<char>, width: u8)
    requires
        forall|i: int| 0 <= i < noise.len() ==> noise[i] != '\n',
        parse_record(noise, width) is None,
    ensures
        decode_text(before + seq!['\n'] + noise + seq!['\n'] + after, width) == decode_text(before, width)
            + decode_text(after, width),
{
    let rest = noise + seq!['\n'] + after;
    assert(before + seq!['\n'] + noise + seq!['\n'] + after =~= before + seq!['\n'] + rest);
    lemma_split_concat(before, rest);
    lemma_split_concat(noise, after);
    lemma_split_one_line(noise);
    lemma_decode_concat(split_lines(before), seq![noise] + split_lines(after), width);
    lemma_decode_concat(seq![noise], split_lines(after), width);
    assert(seq![noise].drop_last() =~= Seq::<Seq<char>>::empty());
    assert(seq![noise].last() == noise);
    assert(line_event(noise, width) is None);
    assert(decode_lines(Seq::<Seq<char>>::empty(), width) =~= Seq::<Event>::empty());
    assert(decode_lines(seq![noise], width) =~= Seq::<Event>::empty());
    assert(decode_lines(seq![noise] + split_lines(after), width) =~= decode_lines(split_lines(after), width));
}

/// Whether an event is one that decoding gives under `width`: a counted
/// value at a position with coordinates below 16 and port 0 or 1.
pub open spec fn decoded_event(e: Event, width: u8) -> bool {
    &&& e.counts is Counted
    &&& e.node_id.x < 16
    &&& e.node_id.y < 16
    &&& e.node_id.port <= 1
    &&& e.node_id.nodeid_length == width
}

/// Every event of decoded lines reports a counted value at a position with
/// coordinates below 16.
pub proof fn lemma_decoded_counted(lines: Seq<Seq<char>>, width: u8)
    ensures
        forall|i: int|
            0 <= i < decode_lines(lines, width).len() ==> decoded_event(
                #[trigger] decode_lines(lines, width)[i],
                width,
            ),
    decreases lines.len(),
{
    if lines.len() > 0 {
        let prev = decode_lines(lines.drop_last(), width);
        lemma_decoded_counted(lines.drop_last(), width);
        match line_event(lines.last(), width) {
            Some(e) => {
                match crate::event::record_head(lines.last()) {
                    Some((_, _, c)) => {
                        match crate::event::record_ids(lines.last(), c) {
                            Some((_, _, node)) => crate::node_id::lemma_decode_bounds(node, width),
                            None => {},
                        }
                    },
                    None => {},
                }
                assert(decoded_event(e, width));
                assert(decode_lines(lines, width) == prev.push(e));
                assert forall|i: int| 0 <= i < decode_lines(lines, width).len() implies decoded_event(
                    #[trigger] decode_lines(lines, width)[i],
                    width,
                ) by {
                    if i < prev.len() {
                        assert(decode_lines(lines, width)[i] == prev[i]);
                    }
                }
            },
            None => {
                assert(decode_lines(lines, width) == prev);
            },
        }
    }
}

/// Decodes the counter tool's output. Each line that is a counter record
/// gives one event, in line order; a record whose node does not implement
/// the counter gives none, and every other line is skipped.
pub fn perf_to_event_vec(s: &str, nodeid_length: u8) -> (r: Vec<Event>)
    requires
        supported_width(nodeid_length),
    ensures
        r@ == decode_text(s@, nodeid_length),
        forall|i: int| 0 <= i < r@.len() ==> decoded_event(#[trigger] r@[i], nodeid_length),
{
    let text = chars_of(s);
    let mut out: Vec<Event> = Vec::new();
    let mut line: Vec<char> = Vec::new();
    let mut i: usize = 0;
    proof {
        assert(text@.take(0) =~= Seq::<char>::empty());
    }
    while i < text.len()
        invariant
            supported_width(nodeid_length),
            i <= text@.len(),
            text@ == s@,
            split_lines(text@.take(i as int)).len() >= 1,
            out@ == decode_lines(split_lines(text@.take(i as int)).drop_last(), nodeid_length),
            line@ == split_lines(text@.take(i as int)).last(),
        decreases text@.len() - i,
    {
        let ghost prev = text@.take(i as int);
        let ghost next = text@.take(i + 1);
        assert(next.drop_last() =~= prev);
        let c = text[i];
        if c == '\n' {
            assert(split_lines(next).drop_last() =~= split_lines(prev));
            let found = Event::from_line(&line, nodeid_length);
            match found {
                Some(e) => {
                    match e.counts {
                        Count::Counted(_) => {
                            out.push(e);
                        },
                        Count::Unsupported => {},
                    }
                },
                None => {},
            }
            line = Vec::new();
            proof {
                lemma_split_nonempty(prev);
            }
            assert(line@ =~= split_lines(next).last());
        } else {
            line.push(c);
            assert(split_lines(next).drop_last() =~= split_lines(prev).drop_last());
        }
        i = i + 1;
    }
    assert(text@.take(i as int) =~= text@);
    let found = Event::from_line(&line, nodeid_length);
    match found {
        Some(e) => {
            match e.counts {
                Count::Counted(_) => {
                    out.push(e);
                },
                Count::Unsupported => {},
            }
        },
        None => {},
    }
    proof {
        let ls = split_lines(text@);
        assert(ls =~= ls.drop_last().push(ls.last()));
        lemma_decoded_counted(ls, nodeid_length);
    }
    out
}

} // verus!
