//! Scanning text held as a sequence of characters: literals, runs of
//! digits and the numbers that they spell.
use vstd::prelude::*;

verus! {

broadcast use vstd::string::group_string_axioms;

pub open spec fn is_dec_digit(c: char) -> bool {
    '0' <= c <= '9'
}

pub open spec fn is_hex_digit(c: char) -> bool {
    is_dec_digit(c) || ('a' <= c <= 'f') || ('A' <= c <= 'F')
}

/// Whether `c` is a digit in `base` (10 or 16).
pub open spec fn is_digit_in(c: char, base: nat) -> bool {
    if base == 16 {
        is_hex_digit(c)
    } else {
        is_dec_digit(c)
    }
}

/// The value of a decimal or hexadecimal digit.
pub open spec fn digit_value(c: char) -> nat {
    if is_dec_digit(c) {
        (c as u32 - '0' as u32) as nat
    } else if 'a' <= c <= 'f' {
        (c as u32 - 'a' as u32 + 10) as nat
    } else {
        (c as u32 - 'A' as u32 + 10) as nat
    }
}

/// Where the run of `base` digits that starts at `i` ends.
pub open spec fn run_end(s: Seq<char>, i: int, base: nat) -> int
    decreases s.len() - i,
{
    if 0 <= i < s.len() && is_digit_in(s[i], base) {
        run_end(s, i + 1, base)
    } else {
        i
    }
}

/// The number that the digits in `s[i..j]` spell in `base`.
pub open spec fn value_of(s: Seq<char>, i: int, j: int, base: nat) -> nat
    decreases j - i,
{
    if j <= i {
        0
    } else {
        value_of(s, i, j - 1, base) * base + digit_value(s[j - 1])
    }
}

/// The non-empty run of `base` digits at `i`, when its value is at most
/// `limit`: that value, and where the run ends.
pub open spec fn number_at(s: Seq<char>, i: int, base: nat, limit: nat) -> Option<(nat, int)> {
    let e = run_end(s, i, base);
    if i < e && value_of(s, i, e, base) <= limit {
        Some((value_of(s, i, e, base), e))
    } else {
        None
    }
}

/// Where `lit` ends, when `s` holds it at `i`.
pub open spec fn lit_end(s: Seq<char>, i: int, lit: Seq<char>) -> Option<int> {
    if 0 <= i && i + lit.len() <= s.len() && s.subrange(i, i + lit.len()) == lit {
        Some(i + lit.len())
    } else {
        None
    }
}

/// Where the `0x` prefixes at `i`, if any, end.
pub open spec fn skip_hex_prefixes(s: Seq<char>, i: int) -> int
    decreases s.len() - i,
{
    if 0 <= i && i + 2 <= s.len() && s[i] == '0' && s[i + 1] == 'x' {
        skip_hex_prefixes(s, i + 2)
    } else {
        i
    }
}

/// The characters of a string.
pub fn chars_of(s: &str) -> (r: Vec<char>)
    ensures
        r@ == s@,
{
    let mut v: Vec<char> = Vec::new();
    for c in it: s.chars()
        invariant
            it.seq() == s@,
            v@ == s@.take(it.index() as int),
    {
        v.push(c);
        assert(v@ =~= s@.take(it.index() as int + 1));
    }
    assert(v@ =~= s@);
    v
}

fn digit_in(c: char, base: u64) -> (r: bool)
    ensures
        r == is_digit_in(c, base as nat),
{
    if base == 16 {
        ('0' <= c && c <= '9') || ('a' <= c && c <= 'f') || ('A' <= c && c <= 'F')
    } else {
        '0' <= c && c <= '9'
    }
}

fn digit_val(c: char) -> (r: u64)
    requires
        is_hex_digit(c),
    ensures
        r == digit_value(c),
        r < 16,
{
    if '0' <= c && c <= '9' {
        (c as u32 - '0' as u32) as u64
    } else if 'a' <= c && c <= 'f' {
        (c as u32 - 'a' as u32 + 10) as u64
    } else {
        (c as u32 - 'A' as u32 + 10) as u64
    }
}

/// Where the run of `base` digits that starts at `i` ends.
pub fn scan_run(s: &Vec<char>, i: usize, base: u64) -> (e: usize)
    requires
        i <= s@.len(),
    ensures
        e == run_end(s@, i as int, base as nat),
        i <= e <= s@.len(),
{
    let mut e = i;
    while e < s.len() && digit_in(s[e], base)
        invariant
            i <= e <= s@.len(),
            run_end(s@, i as int, base as nat) == run_end(s@, e as int, base as nat),
        decreases s@.len() - e,
    {
        e = e + 1;
    }
    e
}

proof fn lemma_value_grows(s: Seq<char>, i: int, j: int, k: int, base: nat)
    requires
        i <= j <= k,
        base >= 1,
    ensures
        value_of(s, i, j, base) <= value_of(s, i, k, base),
    decreases k - j,
{
    if j < k {
        lemma_value_grows(s, i, j, k - 1, base);
        assert(value_of(s, i, k - 1, base) <= value_of(s, i, k - 1, base) * base) by (nonlinear_arith)
            requires
                base >= 1,
        ;
    }
}

proof fn lemma_run_digits(s: Seq<char>, i: int, k: int, base: nat)
    requires
        0 <= i <= k < run_end(s, i, base),
    ensures
        is_digit_in(s[k], base),
        run_end(s, i, base) <= s.len(),
    decreases k - i,
{
    if i < k {
        lemma_run_digits(s, i + 1, k, base);
    } else {
        lemma_run_end_bounded(s, i, base);
    }
}

proof fn lemma_run_end_bounded(s: Seq<char>, i: int, base: nat)
    requires
        0 <= i,
    ensures
        i <= run_end(s, i, base),
        i <= s.len() ==> run_end(s, i, base) <= s.len(),
    decreases s.len() - i,
{
    if 0 <= i < s.len() && is_digit_in(s[i], base) {
        lemma_run_end_bounded(s, i + 1, base);
    }
}

/// A number that `number_at` finds is at most its limit and ends within the text.
pub proof fn lemma_number_bounds(s: Seq<char>, i: int, base: nat, limit: nat)
    requires
        0 <= i <= s.len(),
        number_at(s, i, base, limit) is Some,
    ensures
        number_at(s, i, base, limit) matches Some((v, e)) && v <= limit && e <= s.len(),
{
    lemma_run_end_bounded(s, i, base);
}

/// The number at `i` in `base` (10 or 16), when it is at most `limit`, and
/// where its digits end.
pub fn read_number(s: &Vec<char>, i: usize, base: u64, limit: u64) -> (r: Option<(u64, usize)>)
    requires
        i <= s@.len(),
        base == 10 || base == 16,
    ensures
        r matches Some((v, e)) ==> number_at(s@, i as int, base as nat, limit as nat) == Some(
            (v as nat, e as int),
        ),
        r is None ==> number_at(s@, i as int, base as nat, limit as nat) is None,
{
    let e = scan_run(s, i, base);
    if e == i {
        return None;
    }
    let mut v: u64 = 0;
    let mut k = i;
    while k < e
        invariant
            i <= k <= e,
            e == run_end(s@, i as int, base as nat),
            e <= s@.len(),
            base == 10 || base == 16,
            v == value_of(s@, i as int, k as int, base as nat),
            v <= limit,
        decreases e - k,
    {
        proof {
            lemma_run_digits(s@, i as int, k as int, base as nat);
        }
        let d = digit_val(s[k]);
        if d > limit {
            proof {
                lemma_value_grows(s@, i as int, k + 1, e as int, base as nat);
            }
            return None;
        }
        let q = (limit - d) / base;
        if v > q {
            proof {
                assert(v * base + d > limit) by (nonlinear_arith)
                    requires
                        v > q,
                        q == (limit - d) / (base as int),
                        base > 0,
                        d <= limit,
                ;
                lemma_value_grows(s@, i as int, k + 1, e as int, base as nat);
            }
            return None;
        }
        proof {
            assert(v * base + d <= limit) by (nonlinear_arith)
                requires
                    v <= q,
                    q == (limit - d) / (base as int),
                    base > 0,
                    d <= limit,
            ;
        }
        v = v * base + d;
        k = k + 1;
    }
    Some((v, e))
}

/// Where `lit` ends, when `s` holds it at `i`.
pub fn after_lit(s: &Vec<char>, i: usize, lit: &str) -> (r: Option<usize>)
    ensures
        r matches Some(e) ==> lit_end(s@, i as int, lit@) == Some(e as int),
        r is None ==> lit_end(s@, i as int, lit@) is None,
{
    let n = lit.unicode_len();
    if i > s.len() || n > s.len() - i {
        return None;
    }
    let mut k: usize = 0;
    while k < n
        invariant
            k <= n,
            n == lit@.len(),
            i + n <= s.len(),
            forall|j: int| 0 <= j < k ==> s@[i + j] == lit@[j],
        decreases n - k,
    {
        if s[i + k] != lit.get_char(k) {
            assert(s@.subrange(i as int, i + n)[k as int] != lit@[k as int]);
            return None;
        }
        k = k + 1;
    }
    assert(s@.subrange(i as int, i + n) =~= lit@);
    Some(i + n)
}

/// Where the `0x` prefixes at `i`, if any, end.
pub fn skip_prefixes(s: &Vec<char>, i: usize) -> (e: usize)
    requires
        i <= s@.len(),
    ensures
        e == skip_hex_prefixes(s@, i as int),
        e <= s@.len(),
    decreases s@.len() - i,
{
    if s.len() - i >= 2 && s[i] == '0' && s[i + 1] == 'x' {
        skip_prefixes(s, i + 2)
    } else {
        i
    }
}

} // verus!
