//! Scanning primitives for the line-oriented report formats: whitespace runs,
//! digit runs, word runs, literals and bounded decimal numbers.

use vstd::prelude::*;
use crate::text::{is_digit, is_space, is_word};

verus! {

broadcast use vstd::string::group_string_axioms;

/// The first position at or after `i` that does not hold whitespace.
pub open spec fn skip_spaces(s: Seq<char>, i: int) -> int
    decreases s.len() - i,
{
    if 0 <= i < s.len() && is_space(s[i]) {
        skip_spaces(s, i + 1)
    } else {
        i
    }
}

/// The end of the run of digits that starts at `i`.
pub open spec fn digits_end(s: Seq<char>, i: int) -> int
    decreases s.len() - i,
{
    if 0 <= i < s.len() && is_digit(s[i]) {
        digits_end(s, i + 1)
    } else {
        i
    }
}

/// The end of the run of word characters that starts at `i`.
pub open spec fn word_end(s: Seq<char>, i: int) -> int
    decreases s.len() - i,
{
    if 0 <= i < s.len() && is_word(s[i]) {
        word_end(s, i + 1)
    } else {
        i
    }
}

/// The value of one decimal digit.
pub open spec fn digit_value(c: char) -> nat {
    ((c as u32) - ('0' as u32)) as nat
}

/// The value of a run of decimal digits, most significant first.
pub open spec fn digits_value(d: Seq<char>) -> nat
    decreases d.len(),
{
    if d.len() == 0 {
        0
    } else {
        digits_value(d.drop_last()) * 10 + digit_value(d.last())
    }
}

/// The number written at `i`, with the position after it: a non-empty run of
/// digits whose value is at most `max`.
pub open spec fn number_at(s: Seq<char>, i: int, max: nat) -> Option<(nat, int)> {
    let e = digits_end(s, i);
    if e == i || digits_value(s.subrange(i, e)) > max {
        None
    } else {
        Some((digits_value(s.subrange(i, e)), e))
    }
}

/// Whether `lit` is written at `i`.
pub open spec fn literal_at(s: Seq<char>, i: int, lit: Seq<char>) -> bool {
    0 <= i && i + lit.len() <= s.len() && s.subrange(i, i + lit.len()) == lit
}

/// Whether a token spanning `[start, end)` is non-empty and ends at
/// whitespace or at the end of the line.
pub open spec fn token_ends(s: Seq<char>, start: int, end: int) -> bool {
    start < end && (end == s.len() || (end < s.len() && is_space(s[end])))
}

/// The first position at or after `i` that does not hold whitespace.
pub fn scan_spaces(s: &Vec<char>, i: usize) -> (r: usize)
    requires
        i <= s.len(),
    ensures
        r as int == skip_spaces(s@, i as int),
        i <= r <= s.len(),
{
    let mut j = i;
    while j < s.len() && (s[j] == ' ' || s[j] == '\t' || s[j] == '\n' || s[j] == '\r' || s[j]
        == '\x0B' || s[j] == '\x0C')
        invariant
            i <= j <= s.len(),
            skip_spaces(s@, j as int) == skip_spaces(s@, i as int),
        decreases s.len() - j,
    {
        j = j + 1;
    }
    j
}

/// The end of the run of digits that starts at `i`.
pub fn scan_digits(s: &Vec<char>, i: usize) -> (r: usize)
    requires
        i <= s.len(),
    ensures
        r as int == digits_end(s@, i as int),
        i <= r <= s.len(),
        forall|k: int| i <= k < r ==> is_digit(#[trigger] s@[k]),
{
    let mut j = i;
    while j < s.len() && '0' <= s[j] && s[j] <= '9'
        invariant
            i <= j <= s.len(),
            digits_end(s@, j as int) == digits_end(s@, i as int),
            forall|k: int| i <= k < j ==> is_digit(#[trigger] s@[k]),
        decreases s.len() - j,
    {
        j = j + 1;
    }
    j
}

/// The end of the run of word characters that starts at `i`.
pub fn scan_word(s: &Vec<char>, i: usize) -> (r: usize)
    requires
        i <= s.len(),
    ensures
        r as int == word_end(s@, i as int),
        i <= r <= s.len(),
{
    let mut j = i;
    while j < s.len() && (('a' <= s[j] && s[j] <= 'z') || ('A' <= s[j] && s[j] <= 'Z') || ('0'
        <= s[j] && s[j] <= '9') || s[j] == '_')
        invariant
            i <= j <= s.len(),
            word_end(s@, j as int) == word_end(s@, i as int),
        decreases s.len() - j,
    {
        j = j + 1;
    }
    j
}

/// Whether a token ends at `i`: at whitespace or at the end of the line.
pub fn ends_at(s: &Vec<char>, i: usize) -> (r: bool)
    ensures
        r == (i == s.len() || (i < s.len() && is_space(s@[i as int]))),
{
    i == s.len() || i < s.len() && (s[i] == ' ' || s[i] == '\t' || s[i] == '\n' || s[i] == '\r' || s[i] == '\x0B'
        || s[i] == '\x0C')
}

/// Whether `lit` is written at `i`.
pub fn scan_literal(s: &Vec<char>, i: usize, lit: &str) -> (r: bool)
    requires
        i <= s.len(),
    ensures
        r == literal_at(s@, i as int, lit@),
{
    let l = crate::text::chars_of(lit);
    if l.len() > s.len() - i {
        return false;
    }
    let mut k: usize = 0;
    while k < l.len()
        invariant
            l@ == lit@,
            i + l.len() <= s.len(),
            k <= l.len(),
            forall|m: int| 0 <= m < k ==> s@[i + m] == l@[m],
        decreases l.len() - k,
    {
        if s[i + k] != l[k] {
            assert(s@.subrange(i as int, i + lit@.len())[k as int] != lit@[k as int]);
            return false;
        }
        k = k + 1;
    }
    assert(s@.subrange(i as int, i + lit@.len()) =~= lit@);
    true
}

/// Reads the number written at `i`, if it is a non-empty run of digits whose
/// value is at most `max`; returns it with the position after it.
pub fn scan_number(s: &Vec<char>, i: usize, max: u64) -> (r: Option<(u64, usize)>)
    requires
        i <= s.len(),
    ensures
        match number_at(s@, i as int, max as nat) {
            None => r is None,
            Some((v, e)) => r matches Some((rv, re)) && rv as nat == v && re as int == e,
        },
        r matches Some((v, e)) ==> i < e <= s.len(),
{
    let e = scan_digits(s, i);
    if e == i {
        return None;
    }
    let mut acc: u64 = 0;
    let mut over = false;
    let mut k = i;
    while k < e
        invariant
            i <= k <= e <= s.len(),
            forall|m: int| i <= m < e ==> is_digit(#[trigger] s@[m]),
            !over ==> acc == digits_value(s@.subrange(i as int, k as int)) && acc <= max,
            over ==> digits_value(s@.subrange(i as int, k as int)) > max,
        decreases e - k,
    {
        let c = s[k];
        assert(is_digit(s@[k as int]));
        let d: u64 = ((c as u32) - ('0' as u32)) as u64;
        assert(s@.subrange(i as int, k + 1).drop_last() =~= s@.subrange(i as int, k as int));
        let ghost prev = digits_value(s@.subrange(i as int, k as int));
        assert(digits_value(s@.subrange(i as int, k + 1)) == prev * 10 + d);
        if !over {
            if d > max || acc > (max - d) / 10 {
                assert(acc * 10 + d > max) by (nonlinear_arith)
                    requires
                        d > max || acc > (max - d) / 10,
                        d <= 9,
                ;
                over = true;
            } else {
                assert(acc * 10 + d <= max) by (nonlinear_arith)
                    requires
                        acc <= (max - d) / 10,
                        d <= max,
                ;
                acc = acc * 10 + d;
            }
        } else {
            assert(prev * 10 + d >= prev) by (nonlinear_arith);
        }
        k = k + 1;
    }
    if over {
        None
    } else {
        Some((acc, e))
    }
}

} // verus!
