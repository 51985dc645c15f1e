//! Byte-level scanning primitives shared by the duration and rule parsers:
//! digit and blank runs, decimal values, and case-insensitive tags.

use vstd::prelude::*;

verus! {

/// A decimal digit byte, `0` through `9`.
pub open spec fn is_digit_byte(b: u8) -> bool {
    48 <= b && b <= 57
}

/// A blank byte: space or horizontal tab, the separators of the grammar.
pub open spec fn is_blank_byte(b: u8) -> bool {
    b == 32 || b == 9
}

/// ASCII lower-casing of one byte; other bytes are left alone.
pub open spec fn lower_byte(b: u8) -> u8 {
    if 65 <= b && b <= 90 {
        (b + 32) as u8
    } else {
        b
    }
}

/// The end of the digit run that starts at `pos`.
pub open spec fn digit_run_end(s: Seq<u8>, pos: int) -> int
    decreases s.len() - pos,
{
    if pos < 0 || pos >= s.len() || !is_digit_byte(s[pos]) {
        pos
    } else {
        digit_run_end(s, pos + 1)
    }
}

/// The end of the blank run that starts at `pos`.
pub open spec fn blank_run_end(s: Seq<u8>, pos: int) -> int
    decreases s.len() - pos,
{
    if pos < 0 || pos >= s.len() || !is_blank_byte(s[pos]) {
        pos
    } else {
        blank_run_end(s, pos + 1)
    }
}

/// The decimal value of the digits `s[from .. to)`.
pub open spec fn digits_value(s: Seq<u8>, from: int, to: int) -> int
    decreases to - from,
{
    if from >= to {
        0
    } else {
        digits_value(s, from, to - 1) * 10 + (s[to - 1] as int - 48)
    }
}

/// The tag `tag` stands at `pos` in `s`, compared byte for byte after ASCII
/// lower-casing.
pub open spec fn tag_at(s: Seq<u8>, pos: int, tag: Seq<u8>) -> bool {
    &&& 0 <= pos
    &&& pos + tag.len() <= s.len()
    &&& forall|i: int| 0 <= i < tag.len() ==> lower_byte(s[pos + i]) == lower_byte(tag[i])
}

pub proof fn lemma_digit_run_end_bounds(s: Seq<u8>, pos: int)
    requires
        0 <= pos <= s.len(),
    ensures
        pos <= digit_run_end(s, pos) <= s.len(),
        forall|k: int| pos <= k < digit_run_end(s, pos) ==> is_digit_byte(s[k]),
        digit_run_end(s, pos) < s.len() ==> !is_digit_byte(s[digit_run_end(s, pos)]),
    decreases s.len() - pos,
{
    if pos < s.len() && is_digit_byte(s[pos]) {
        lemma_digit_run_end_bounds(s, pos + 1);
    }
}

pub proof fn lemma_blank_run_end_bounds(s: Seq<u8>, pos: int)
    requires
        0 <= pos <= s.len(),
    ensures
        pos <= blank_run_end(s, pos) <= s.len(),
        forall|k: int| pos <= k < blank_run_end(s, pos) ==> is_blank_byte(s[k]),
        blank_run_end(s, pos) < s.len() ==> !is_blank_byte(s[blank_run_end(s, pos)]),
    decreases s.len() - pos,
{
    if pos < s.len() && is_blank_byte(s[pos]) {
        lemma_blank_run_end_bounds(s, pos + 1);
    }
}

/// A run of digits with a non-digit (or the end) after it pins
/// `digit_run_end` down.
pub proof fn lemma_digit_run_end_at(s: Seq<u8>, pos: int, e: int)
    requires
        0 <= pos <= e <= s.len(),
        forall|k: int| pos <= k < e ==> is_digit_byte(s[k]),
        e < s.len() ==> !is_digit_byte(s[e]),
    ensures
        digit_run_end(s, pos) == e,
    decreases e - pos,
{
    if pos < e {
        lemma_digit_run_end_at(s, pos + 1, e);
    }
}

pub proof fn lemma_digits_value_nonneg(s: Seq<u8>, from: int, to: int)
    requires
        forall|k: int| from <= k < to ==> is_digit_byte(s[k]),
    ensures
        digits_value(s, from, to) >= 0,
    decreases to - from,
{
    if from < to {
        lemma_digits_value_nonneg(s, from, to - 1);
    }
}

/// A digit run's value never shrinks as the run grows to the right.
pub proof fn lemma_digits_value_mono(s: Seq<u8>, from: int, i: int, to: int)
    requires
        from <= i <= to,
        forall|k: int| from <= k < to ==> is_digit_byte(s[k]),
    ensures
        digits_value(s, from, i) <= digits_value(s, from, to),
    decreases to - i,
{
    if i < to {
        lemma_digits_value_mono(s, from, i, to - 1);
        lemma_digits_value_nonneg(s, from, to - 1);
    }
}

/// ASCII lower-casing of one byte.
pub(crate) fn lower(b: u8) -> (r: u8)
    ensures
        r == lower_byte(b),
{
    if 65 <= b && b <= 90 {
        b + 32
    } else {
        b
    }
}

/// Whether `tag` stands at `pos` in `s`, compared case-insensitively.
pub(crate) fn tag_nocase_at(s: &[u8], pos: usize, tag: &[u8]) -> (r: bool)
    requires
        pos <= s@.len(),
    ensures
        r == tag_at(s@, pos as int, tag@),
{
    if s.len() - pos < tag.len() {
        return false;
    }
    let mut i: usize = 0;
    while i < tag.len()
        invariant
            0 <= i <= tag@.len(),
            pos + tag@.len() <= s@.len(),
            s@.len() <= usize::MAX,
            forall|k: int| 0 <= k < i ==> lower_byte(s@[pos + k]) == lower_byte(tag@[k]),
        decreases tag@.len() - i,
    {
        if lower(s[pos + i]) != lower(tag[i]) {
            proof {
                assert(lower_byte(s@[pos + i]) != lower_byte(tag@[i as int]));
            }
            return false;
        }
        i = i + 1;
    }
    true
}

/// The first position at or after `pos` that holds no blank.
pub(crate) fn skip_blanks(s: &[u8], pos: usize) -> (r: usize)
    requires
        pos <= s@.len(),
    ensures
        r == blank_run_end(s@, pos as int),
        pos <= r <= s@.len(),
{
    let mut i: usize = pos;
    while i < s.len() && (s[i] == 32 || s[i] == 9)
        invariant
            pos <= i <= s@.len(),
            blank_run_end(s@, i as int) == blank_run_end(s@, pos as int),
        decreases s@.len() - i,
    {
        i = i + 1;
    }
    i
}

} // verus!
