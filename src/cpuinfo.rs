//! The processor listing: how many logical cores the host has.
use vstd::prelude::*;
use crate::decode::split_lines;
use crate::probe::{colon_from, find_colon};
use crate::text::{chars_of, lit_end, run_end, value_of, after_lit, scan_run, read_number};

verus! {

/// ASCII white space.
pub open spec fn is_space(c: char) -> bool {
    c == ' ' || c == '\t' || c == '\n' || c == '\r' || c == '\x0b' || c == '\x0c'
}

/// The first position in `s[i..j]` that is not white space, or `j`.
pub open spec fn skip_space(s: Seq<char>, i: int, j: int) -> int
    decreases j - i,
{
    if i < j && is_space(s[i]) {
        skip_space(s, i + 1, j)
    } else {
        i
    }
}

/// The end of `s[i..j]` without its trailing white space.
pub open spec fn trim_end(s: Seq<char>, i: int, j: int) -> int
    decreases j - i,
{
    if i < j && is_space(s[j - 1]) {
        trim_end(s, i, j - 1)
    } else {
        j
    }
}

/// The index that a line of the listing gives: a line that starts with
/// `processor` and whose field after the first `':'` (up to any next `':'`),
/// trimmed of white space, is a decimal number below `u32::MAX`.
pub open spec fn processor_index(line: Seq<char>) -> Option<nat> {
    let a = colon_from(line, 0);
    let b = colon_from(line, a + 1);
    let p = skip_space(line, a + 1, b);
    let q = trim_end(line, p, b);
    if lit_end(line, 0, "processor"@) is Some && a < line.len() && p < q && run_end(line, p, 10)
        == q && value_of(line, p, q, 10) < u32::MAX {
        Some(value_of(line, p, q, 10))
    } else {
        None
    }
}

/// The highest index that the lines give, if any gives one.
pub open spec fn max_processor(lines: Seq<Seq<char>>) -> Option<nat>
    decreases lines.len(),
{
    if lines.len() == 0 {
        None
    } else {
        let prev = max_processor(lines.drop_last());
        match processor_index(lines.last()) {
            None => prev,
            Some(v) => match prev {
                Some(m) => Some(
                    if v > m {
                        v
                    } else {
                        m
                    },
                ),
                None => Some(v),
            },
        }
    }
}

fn space(c: char) -> (r: bool)
    ensures
        r == is_space(c),
{
    c == ' ' || c == '\t' || c == '\n' || c == '\r' || c == '\x0b' || c == '\x0c'
}

fn line_index(line: &Vec<char>) -> (r: Option<u32>)
    ensures
        r matches Some(v) ==> processor_index(line@) == Some(v as nat),
        r is None ==> processor_index(line@) is None,
{
    let a = find_colon(line, 0);
    if after_lit(line, 0, "processor").is_none() || a >= line.len() {
        return None;
    }
    let b = find_colon(line, a + 1);
    let mut p = a + 1;
    while p < b && space(line[p])
        invariant
            a + 1 <= p <= b <= line@.len(),
            skip_space(line@, a + 1, b as int) == skip_space(line@, p as int, b as int),
        decreases b - p,
    {
        p = p + 1;
    }
    let mut q = b;
    while q > p && space(line[q - 1])
        invariant
            p <= q <= b <= line@.len(),
            trim_end(line@, p as int, b as int) == trim_end(line@, p as int, q as int),
        decreases q - p,
    {
        q = q - 1;
    }
    if p >= q || scan_run(line, p, 10) != q {
        return None;
    }
    match read_number(line, p, 10, (u32::MAX - 1) as u64) {
        Some((v, _)) => Some(v as u32),
        None => None,
    }
}

/// The number of logical cores that a processor listing shows: one more than
/// the highest index of its `processor : <index>` lines. Lines that give no
/// index are passed over; `None` when no line gives one.
pub fn processor_count(cpuinfo: &str) -> (r: Option<u32>)
    ensures
        r == match max_processor(split_lines(cpuinfo@)) {
            Some(m) => Some((m + 1) as u32),
            None => None::<u32>,
        },
{
    let text = chars_of(cpuinfo);
    let mut best: Option<u32> = None;
    let mut line: Vec<char> = Vec::new();
    let mut i: usize = 0;
    proof {
        assert(text@.take(0) =~= Seq::<char>::empty());
    }
    while i < text.len()
        invariant
            i <= text@.len(),
            text@ == cpuinfo@,
            split_lines(text@.take(i as int)).len() >= 1,
            best == match max_processor(split_lines(text@.take(i as int)).drop_last()) {
                Some(m) => Some(m as u32),
                None => None::<u32>,
            },
            max_processor(split_lines(text@.take(i as int)).drop_last()) matches Some(m) ==> m
                < u32::MAX,
            line@ == split_lines(text@.take(i as int)).last(),
        decreases text@.len() - i,
    {
        let ghost prev = text@.take(i as int);
        let ghost next = text@.take(i + 1);
        assert(next.drop_last() =~= prev);
        let c = text[i];
        if c == '\n' {
            assert(split_lines(next).drop_last() =~= split_lines(prev));
            let ghost done = split_lines(prev).drop_last();
            assert(split_lines(prev) =~= done.push(split_lines(prev).last()));
            best = combine(best, line_index(&line));
            line = Vec::new();
            proof {
                crate::decode::lemma_split_nonempty(prev);
            }
            assert(line@ =~= split_lines(next).last());
        } else {
            line.push(c);
            assert(split_lines(next).drop_last() =~= split_lines(prev).drop_last());
        }
        i = i + 1;
    }
    assert(text@.take(i as int) =~= text@);
    let ghost ls = split_lines(text@);
    assert(ls =~= ls.drop_last().push(ls.last()));
    best = combine(best, line_index(&line));
    match best {
        Some(m) => Some(m + 1),
        None => None,
    }
}

fn combine(best: Option<u32>, found: Option<u32>) -> (r: Option<u32>)
    ensures
        r == match found {
            None => best,
            Some(v) => match best {
                Some(m) => Some(
                    if v > m {
                        v
                    } else {
                        m
                    },
                ),
                None => Some(v),
            },
        },
{
    match found {
        None => best,
        Some(v) => match best {
            Some(m) => Some(
                if v > m {
                    v
                } else {
                    m
                },
            ),
            None => Some(v),
        },
    }
}

} // verus!
