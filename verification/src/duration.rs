//! Duration literals.
//!
//! A duration literal is a run of decimal digits, optional blanks, and a unit
//! token (`s`, `second`, `seconds`, `ms`, `millisecond`, `milliseconds`,
//! `μs`, `microsecond`, `microseconds`, `m`, `minute`, `minutes`), matched
//! case-insensitively and longest alternative first, so that `seconds` is
//! never cut short by `s`.  The digit run must be non-empty and its value
//! must fit in 32 bits; the resulting magnitude is the digit value times the
//! unit's base.

use vstd::prelude::*;

use crate::text::{
    blank_run_end, digit_run_end, digits_value, is_blank_byte, is_digit_byte, lower_byte,
    skip_blanks, tag_at, tag_nocase_at,
};
use crate::ParseError;

verus! {

/// Microseconds in one second: the base of `s`, `second`, `seconds`.
pub const MICROS_PER_SECOND: u64 = 1_000_000;

/// Microseconds in one millisecond: the base of `ms` and its long forms.
pub const MICROS_PER_MILLI: u64 = 1_000;

/// Microseconds in one microsecond: the base of `μs` and its long forms.
pub const MICROS_PER_MICRO: u64 = 1;

/// Microseconds in one minute: the base of `m`, `minute`, `minutes`.
pub const MICROS_PER_MINUTE: u64 = 60_000_000;

/// A non-negative time magnitude, counted in whole microseconds.
#[derive(Debug, Clone, Copy, PartialEq, Eq, Structural)]
pub struct Duration {
    micros: u64,
}

impl Duration {
    /// The magnitude in microseconds, as the contracts speak of it.
    pub closed spec fn spec_micros(&self) -> u64 {
        self.micros
    }

    /// The magnitude in microseconds.
    pub fn get(&self) -> (r: u64)
        ensures
            r == self.spec_micros(),
    {
        self.micros
    }

    /// Builds the duration that holds exactly `micros` microseconds.
    pub fn from_micros(micros: u64) -> (r: Duration)
        ensures
            r.spec_micros() == micros,
    {
        Duration { micros }
    }

    /// Parses a whole input as a duration literal: the literal must reach the
    /// end of the input, with nothing after the unit token.
    pub fn from_literal(input: &[u8]) -> (r: Result<Duration, ParseError>)
        ensures
            match spec_parse_duration(input@, 0) {
                Some(p) => {
                    &&& p.1 == input@.len() ==> (r matches Ok(d) && d.spec_micros() == p.0)
                    &&& p.1 != input@.len() ==> r is Err
                },
                None => r is Err,
            },
            r matches Err(e) ==> e.pos <= input@.len(),
    {
        match parse_duration(input, 0) {
            Some((d, end)) => {
                if end == input.len() {
                    Ok(d)
                } else {
                    Err(ParseError { pos: end })
                }
            },
            None => Err(ParseError { pos: 0 }),
        }
    }
}

// ---------------------------------------------------------------------------
// The unit tokens, as byte sequences.

pub open spec fn tag_s() -> Seq<u8> {
    seq![115u8]
}

pub open spec fn tag_second() -> Seq<u8> {
    seq![115u8, 101, 99, 111, 110, 100]
}

pub open spec fn tag_seconds() -> Seq<u8> {
    seq![115u8, 101, 99, 111, 110, 100, 115]
}

pub open spec fn tag_ms() -> Seq<u8> {
    seq![109u8, 115]
}

pub open spec fn tag_millisecond() -> Seq<u8> {
    seq![109u8, 105, 108, 108, 105, 115, 101, 99, 111, 110, 100]
}

pub open spec fn tag_milliseconds() -> Seq<u8> {
    seq![109u8, 105, 108, 108, 105, 115, 101, 99, 111, 110, 100, 115]
}

/// `μs`: the two bytes of the UTF-8 encoding of `μ`, then `s`.
pub open spec fn tag_us() -> Seq<u8> {
    seq![206u8, 188, 115]
}

pub open spec fn tag_microsecond() -> Seq<u8> {
    seq![109u8, 105, 99, 114, 111, 115, 101, 99, 111, 110, 100]
}

pub open spec fn tag_microseconds() -> Seq<u8> {
    seq![109u8, 105, 99, 114, 111, 115, 101, 99, 111, 110, 100, 115]
}

pub open spec fn tag_m() -> Seq<u8> {
    seq![109u8]
}

pub open spec fn tag_minute() -> Seq<u8> {
    seq![109u8, 105, 110, 117, 116, 101]
}

pub open spec fn tag_minutes() -> Seq<u8> {
    seq![109u8, 105, 110, 117, 116, 101, 115]
}

// ---------------------------------------------------------------------------
// The grammar, as a specification.

/// The unit token expected at `pos`, tried in the same order as the parser:
/// seconds first, then milliseconds, microseconds and minutes, and inside
/// each unit the plural form first, then the singular, then the short one.
pub open spec fn spec_parse_suffix(s: Seq<u8>, pos: int) -> Option<(u64, int)> {
    if tag_at(s, pos, tag_seconds()) {
        Some((MICROS_PER_SECOND, pos + 7))
    } else if tag_at(s, pos, tag_second()) {
        Some((MICROS_PER_SECOND, pos + 6))
    } else if tag_at(s, pos, tag_s()) {
        Some((MICROS_PER_SECOND, pos + 1))
    } else if tag_at(s, pos, tag_milliseconds()) {
        Some((MICROS_PER_MILLI, pos + 12))
    } else if tag_at(s, pos, tag_millisecond()) {
        Some((MICROS_PER_MILLI, pos + 11))
    } else if tag_at(s, pos, tag_ms()) {
        Some((MICROS_PER_MILLI, pos + 2))
    } else if tag_at(s, pos, tag_microseconds()) {
        Some((MICROS_PER_MICRO, pos + 12))
    } else if tag_at(s, pos, tag_microsecond()) {
        Some((MICROS_PER_MICRO, pos + 11))
    } else if tag_at(s, pos, tag_us()) {
        Some((MICROS_PER_MICRO, pos + 3))
    } else if tag_at(s, pos, tag_minutes()) {
        Some((MICROS_PER_MINUTE, pos + 7))
    } else if tag_at(s, pos, tag_minute()) {
        Some((MICROS_PER_MINUTE, pos + 6))
    } else if tag_at(s, pos, tag_m()) {
        Some((MICROS_PER_MINUTE, pos + 1))
    } else {
        None
    }
}

/// A duration literal at `pos`: a non-empty digit run whose value fits in 32
/// bits, blanks, and a unit token.  The value is the digit value times the
/// unit's base; the returned position is the end of the unit token.
pub open spec fn spec_parse_duration(s: Seq<u8>, pos: int) -> Option<(u64, int)> {
    let dend = digit_run_end(s, pos);
    if dend == pos || digits_value(s, pos, dend) > u32::MAX {
        None
    } else {
        let bend = blank_run_end(s, dend);
        match spec_parse_suffix(s, bend) {
            Some((base, end)) => Some(((digits_value(s, pos, dend) * base) as u64, end)),
            None => None,
        }
    }
}

/// Two byte sequences equal after ASCII lower-casing.
pub open spec fn nocase_eq(a: Seq<u8>, b: Seq<u8>) -> bool {
    a.len() == b.len() && forall|i: int| 0 <= i < a.len() ==> lower_byte(a[i]) == lower_byte(b[i])
}

/// The twelve unit tokens, in the order the parser tries them.
pub open spec fn unit_tags() -> Seq<Seq<u8>> {
    seq![
        tag_seconds(),
        tag_second(),
        tag_s(),
        tag_milliseconds(),
        tag_millisecond(),
        tag_ms(),
        tag_microseconds(),
        tag_microsecond(),
        tag_us(),
        tag_minutes(),
        tag_minute(),
        tag_m(),
    ]
}

/// The base of a whole unit token, in any casing, or nothing for an
/// unknown token.
pub open spec fn unit_token_base(u: Seq<u8>) -> Option<u64> {
    if nocase_eq(u, tag_seconds()) || nocase_eq(u, tag_second()) || nocase_eq(u, tag_s()) {
        Some(MICROS_PER_SECOND)
    } else if nocase_eq(u, tag_milliseconds()) || nocase_eq(u, tag_millisecond()) || nocase_eq(
        u,
        tag_ms(),
    ) {
        Some(MICROS_PER_MILLI)
    } else if nocase_eq(u, tag_microseconds()) || nocase_eq(u, tag_microsecond()) || nocase_eq(
        u,
        tag_us(),
    ) {
        Some(MICROS_PER_MICRO)
    } else if nocase_eq(u, tag_minutes()) || nocase_eq(u, tag_minute()) || nocase_eq(u, tag_m()) {
        Some(MICROS_PER_MINUTE)
    } else {
        None
    }
}

/// A byte mismatch anywhere refutes a tag.
proof fn lemma_not_tag_at(s: Seq<u8>, pos: int, t: Seq<u8>, bad: int)
    requires
        0 <= bad < t.len(),
        pos + t.len() <= s.len() ==> lower_byte(s[pos + bad]) != lower_byte(t[bad]),
    ensures
        !tag_at(s, pos, t),
{
    if tag_at(s, pos, t) {
        assert(lower_byte(s[pos + bad]) == lower_byte(t[bad]));
    }
}

/// A whole unit token, standing at `pos` and reaching the end of the
/// input, is read by the suffix parser as its base.
proof fn lemma_suffix_of_unit_token(s: Seq<u8>, pos: int, base: u64)
    requires
        0 <= pos <= s.len(),
        unit_token_base(s.subrange(pos, s.len() as int)) == Some(base),
    ensures
        spec_parse_suffix(s, pos) == Some((base, s.len() as int)),
{
    let u = s.subrange(pos, s.len() as int);
    let n = u.len();
    assert forall|t: Seq<u8>| nocase_eq(u, t) implies (tag_at(s, pos, t) && pos + t.len()
        == s.len()) by {
        assert forall|i: int| 0 <= i < t.len() implies lower_byte(s[pos + i]) == lower_byte(
            t[i],
        ) by {
            assert(u[i] == s[pos + i]);
        }
    }
    if nocase_eq(u, tag_seconds()) {
    } else if nocase_eq(u, tag_second()) {
    } else if nocase_eq(u, tag_s()) {
    } else if nocase_eq(u, tag_milliseconds()) {
        lemma_not_tag_at(s, pos, tag_seconds(), 0);
        lemma_not_tag_at(s, pos, tag_second(), 0);
        lemma_not_tag_at(s, pos, tag_s(), 0);
    } else if nocase_eq(u, tag_millisecond()) {
        lemma_not_tag_at(s, pos, tag_seconds(), 0);
        lemma_not_tag_at(s, pos, tag_second(), 0);
        lemma_not_tag_at(s, pos, tag_s(), 0);
    } else if nocase_eq(u, tag_ms()) {
        lemma_not_tag_at(s, pos, tag_s(), 0);
    } else if nocase_eq(u, tag_microseconds()) {
        lemma_not_tag_at(s, pos, tag_seconds(), 0);
        lemma_not_tag_at(s, pos, tag_second(), 0);
        lemma_not_tag_at(s, pos, tag_s(), 0);
        lemma_not_tag_at(s, pos, tag_milliseconds(), 2);
        lemma_not_tag_at(s, pos, tag_millisecond(), 2);
        lemma_not_tag_at(s, pos, tag_ms(), 1);
    } else if nocase_eq(u, tag_microsecond()) {
        lemma_not_tag_at(s, pos, tag_seconds(), 0);
        lemma_not_tag_at(s, pos, tag_second(), 0);
        lemma_not_tag_at(s, pos, tag_s(), 0);
        lemma_not_tag_at(s, pos, tag_millisecond(), 2);
        lemma_not_tag_at(s, pos, tag_ms(), 1);
    } else if nocase_eq(u, tag_us()) {
        lemma_not_tag_at(s, pos, tag_s(), 0);
        lemma_not_tag_at(s, pos, tag_ms(), 0);
    } else if nocase_eq(u, tag_minutes()) {
        lemma_not_tag_at(s, pos, tag_seconds(), 0);
        lemma_not_tag_at(s, pos, tag_second(), 0);
        lemma_not_tag_at(s, pos, tag_s(), 0);
        lemma_not_tag_at(s, pos, tag_ms(), 1);
        lemma_not_tag_at(s, pos, tag_us(), 0);
    } else if nocase_eq(u, tag_minute()) {
        lemma_not_tag_at(s, pos, tag_seconds(), 0);
        lemma_not_tag_at(s, pos, tag_second(), 0);
        lemma_not_tag_at(s, pos, tag_s(), 0);
        lemma_not_tag_at(s, pos, tag_ms(), 1);
        lemma_not_tag_at(s, pos, tag_us(), 0);
    } else if nocase_eq(u, tag_m()) {
        lemma_not_tag_at(s, pos, tag_s(), 0);
    }
}

/// For every valid duration literal — a non-empty digit run whose value
/// fits 32 bits, followed by one of the twelve unit tokens in any casing —
/// the parse consumes the whole input and yields the digit value times the
/// unit's base.
pub proof fn lemma_duration_literal(s: Seq<u8>, dlen: int)
    requires
        0 < dlen < s.len(),
        forall|i: int| 0 <= i < dlen ==> is_digit_byte(s[i]),
        digits_value(s, 0, dlen) <= u32::MAX,
        unit_token_base(s.subrange(dlen, s.len() as int)) is Some,
    ensures
        spec_parse_duration(s, 0) matches Some(p) && p.1 == s.len() && p.0 == digits_value(
            s,
            0,
            dlen,
        ) * unit_token_base(s.subrange(dlen, s.len() as int))->Some_0,
{
    let u = s.subrange(dlen, s.len() as int);
    let base = unit_token_base(u)->Some_0;
    // The unit's first byte is an `s`, an `m`, or the head of `μ`: no digit.
    assert(u[0] == s[dlen]);
    assert(!is_digit_byte(s[dlen]));
    crate::text::lemma_digit_run_end_at(s, 0, dlen);
    assert(!is_blank_byte(s[dlen]));
    assert(blank_run_end(s, dlen) == dlen);
    lemma_suffix_of_unit_token(s, dlen, base);
    let v = digits_value(s, 0, dlen);
    crate::text::lemma_digits_value_nonneg(s, 0, dlen);
    assert(v * base <= 4294967295 * 60_000_000) by (nonlinear_arith)
        requires
            0 <= v <= 4294967295,
            0 <= base <= 60_000_000,
    ;
    assert(v * base >= 0) by (nonlinear_arith)
        requires
            0 <= v,
            0 <= base,
    ;
}

/// An input that does not begin with a digit never parses as a duration:
/// an empty digit run is a failure, not a zero.
pub proof fn lemma_duration_rejects_nondigit(s: Seq<u8>)
    requires
        s.len() == 0 || !is_digit_byte(s[0]),
    ensures
        spec_parse_duration(s, 0) is None,
{
}

/// Digits followed — after optional blanks — by anything that no unit
/// token heads never parse: the suffix fails.
pub proof fn lemma_duration_rejects_unknown_unit(s: Seq<u8>)
    requires
        forall|k: int| 0 <= k < 12 ==> !tag_at(
            s,
            blank_run_end(s, digit_run_end(s, 0)),
            #[trigger] unit_tags()[k],
        ),
    ensures
        spec_parse_duration(s, 0) is None,
{
    let bend = blank_run_end(s, digit_run_end(s, 0));
    assert(unit_tags()[0] == tag_seconds());
    assert(unit_tags()[1] == tag_second());
    assert(unit_tags()[2] == tag_s());
    assert(unit_tags()[3] == tag_milliseconds());
    assert(unit_tags()[4] == tag_millisecond());
    assert(unit_tags()[5] == tag_ms());
    assert(unit_tags()[6] == tag_microseconds());
    assert(unit_tags()[7] == tag_microsecond());
    assert(unit_tags()[8] == tag_us());
    assert(unit_tags()[9] == tag_minutes());
    assert(unit_tags()[10] == tag_minute());
    assert(unit_tags()[11] == tag_m());
    assert(spec_parse_suffix(s, bend) is None);
}

/// A parsed duration literal always consumes at least one byte and never
/// runs past the input.
pub proof fn lemma_spec_parse_duration_advances(s: Seq<u8>, pos: int)
    requires
        0 <= pos <= s.len(),
    ensures
        spec_parse_duration(s, pos) matches Some(p) ==> pos < p.1 <= s.len(),
{
    crate::text::lemma_digit_run_end_bounds(s, pos);
    let dend = digit_run_end(s, pos);
    if dend != pos && digits_value(s, pos, dend) <= u32::MAX {
        crate::text::lemma_blank_run_end_bounds(s, dend);
    }
}

// ---------------------------------------------------------------------------
// The executable parser.

fn tag_bytes_s() -> (r: Vec<u8>)
    ensures
        r@ == tag_s(),
{
    vec![115u8]
}

fn tag_bytes_second() -> (r: Vec<u8>)
    ensures
        r@ == tag_second(),
{
    vec![115u8, 101, 99, 111, 110, 100]
}

fn tag_bytes_seconds() -> (r: Vec<u8>)
    ensures
        r@ == tag_seconds(),
{
    vec![115u8, 101, 99, 111, 110, 100, 115]
}

fn tag_bytes_ms() -> (r: Vec<u8>)
    ensures
        r@ == tag_ms(),
{
    vec![109u8, 115]
}

fn tag_bytes_millisecond() -> (r: Vec<u8>)
    ensures
        r@ == tag_millisecond(),
{
    vec![109u8, 105, 108, 108, 105, 115, 101, 99, 111, 110, 100]
}

fn tag_bytes_milliseconds() -> (r: Vec<u8>)
    ensures
        r@ == tag_milliseconds(),
{
    vec![109u8, 105, 108, 108, 105, 115, 101, 99, 111, 110, 100, 115]
}

fn tag_bytes_us() -> (r: Vec<u8>)
    ensures
        r@ == tag_us(),
{
    vec![206u8, 188, 115]
}

fn tag_bytes_microsecond() -> (r: Vec<u8>)
    ensures
        r@ == tag_microsecond(),
{
    vec![109u8, 105, 99, 114, 111, 115, 101, 99, 111, 110, 100]
}

fn tag_bytes_microseconds() -> (r: Vec<u8>)
    ensures
        r@ == tag_microseconds(),
{
    vec![109u8, 105, 99, 114, 111, 115, 101, 99, 111, 110, 100, 115]
}

fn tag_bytes_m() -> (r: Vec<u8>)
    ensures
        r@ == tag_m(),
{
    vec![109u8]
}

fn tag_bytes_minute() -> (r: Vec<u8>)
    ensures
        r@ == tag_minute(),
{
    vec![109u8, 105, 110, 117, 116, 101]
}

fn tag_bytes_minutes() -> (r: Vec<u8>)
    ensures
        r@ == tag_minutes(),
{
    vec![109u8, 105, 110, 117, 116, 101, 115]
}

/// Recognises the unit token at `pos`, in the alternative order of
/// `spec_parse_suffix`, and hands back its base and its end.
fn parse_suffix(s: &[u8], pos: usize) -> (r: Option<(u64, usize)>)
    requires
        pos <= s@.len(),
    ensures
        match spec_parse_suffix(s@, pos as int) {
            Some((base, end)) => r matches Some(p) && p.0 == base && p.1 == end,
            None => r is None,
        },
{
    let n = s.len();
    let t = tag_bytes_seconds();
    if tag_nocase_at(s, pos, t.as_slice()) {
        return Some((MICROS_PER_SECOND, pos + 7));
    }
    let t = tag_bytes_second();
    if tag_nocase_at(s, pos, t.as_slice()) {
        return Some((MICROS_PER_SECOND, pos + 6));
    }
    let t = tag_bytes_s();
    if tag_nocase_at(s, pos, t.as_slice()) {
        return Some((MICROS_PER_SECOND, pos + 1));
    }
    let t = tag_bytes_milliseconds();
    if tag_nocase_at(s, pos, t.as_slice()) {
        return Some((MICROS_PER_MILLI, pos + 12));
    }
    let t = tag_bytes_millisecond();
    if tag_nocase_at(s, pos, t.as_slice()) {
        return Some((MICROS_PER_MILLI, pos + 11));
    }
    let t = tag_bytes_ms();
    if tag_nocase_at(s, pos, t.as_slice()) {
        return Some((MICROS_PER_MILLI, pos + 2));
    }
    let t = tag_bytes_microseconds();
    if tag_nocase_at(s, pos, t.as_slice()) {
        return Some((MICROS_PER_MICRO, pos + 12));
    }
    let t = tag_bytes_microsecond();
    if tag_nocase_at(s, pos, t.as_slice()) {
        return Some((MICROS_PER_MICRO, pos + 11));
    }
    let t = tag_bytes_us();
    if tag_nocase_at(s, pos, t.as_slice()) {
        return Some((MICROS_PER_MICRO, pos + 3));
    }
    let t = tag_bytes_minutes();
    if tag_nocase_at(s, pos, t.as_slice()) {
        return Some((MICROS_PER_MINUTE, pos + 7));
    }
    let t = tag_bytes_minute();
    if tag_nocase_at(s, pos, t.as_slice()) {
        return Some((MICROS_PER_MINUTE, pos + 6));
    }
    let t = tag_bytes_m();
    if tag_nocase_at(s, pos, t.as_slice()) {
        return Some((MICROS_PER_MINUTE, pos + 1));
    }
    None
}

/// Reads the digit run at `pos` as a 32-bit value; fails on an empty run and
/// on a run whose value does not fit.
pub(crate) fn parse_u32_digits(s: &[u8], pos: usize) -> (r: Option<(u32, usize)>)
    requires
        pos <= s@.len(),
    ensures
        ({
            let dend = digit_run_end(s@, pos as int);
            if dend == pos || digits_value(s@, pos as int, dend) > u32::MAX {
                r is None
            } else {
                r matches Some(p) && p.0 == digits_value(s@, pos as int, dend) && p.1 == dend
            }
        }),
{
    let ghost dend = digit_run_end(s@, pos as int);
    proof {
        crate::text::lemma_digit_run_end_bounds(s@, pos as int);
    }
    let n = s.len();
    let mut i: usize = pos;
    let mut acc: u64 = 0;
    loop
        invariant
            pos <= i <= dend <= s@.len(),
            s@.len() <= usize::MAX,
            dend == digit_run_end(s@, pos as int),
            forall|k: int| pos <= k < dend ==> is_digit_byte(s@[k]),
            dend < s@.len() ==> !is_digit_byte(s@[dend]),
            acc == digits_value(s@, pos as int, i as int),
            acc <= u32::MAX,
        decreases dend - i,
    {
        if i == s.len() || !(48 <= s[i] && s[i] <= 57) {
            proof {
                assert(dend == i);
            }
            if i == pos {
                return None;
            }
            return Some((acc as u32, i));
        }
        let d: u64 = (s[i] - 48) as u64;
        acc = acc * 10 + d;
        i = i + 1;
        proof {
            assert(i <= dend);
            assert(acc == digits_value(s@, pos as int, i as int));
        }
        if acc > u32::MAX as u64 {
            proof {
                crate::text::lemma_digits_value_mono(s@, pos as int, i as int, dend);
            }
            return None;
        }
    }
}

/// Parses a duration literal at `pos`: digits, blanks, unit token.  Returns
/// the duration and the position just after the unit token; fails exactly
/// where the grammar of `spec_parse_duration` does.
pub fn parse_duration(s: &[u8], pos: usize) -> (r: Option<(Duration, usize)>)
    requires
        pos <= s@.len(),
    ensures
        match spec_parse_duration(s@, pos as int) {
            Some((v, end)) => r matches Some(p) && p.0.spec_micros() == v && p.1 == end,
            None => r is None,
        },
{
    proof {
        crate::text::lemma_digit_run_end_bounds(s@, pos as int);
    }
    let (count, dend) = match parse_u32_digits(s, pos) {
        Some(p) => p,
        None => {
            return None;
        },
    };
    let bend = skip_blanks(s, dend);
    let (base, end) = match parse_suffix(s, bend) {
        Some(p) => p,
        None => {
            return None;
        },
    };
    proof {
        assert(base <= MICROS_PER_MINUTE);
        assert((count as u64) * base <= 4294967295u64 * 60_000_000) by (nonlinear_arith)
            requires
                count <= 4294967295u64,
                base <= 60_000_000u64,
        ;
    }
    Some((Duration { micros: (count as u64) * base }, end))
}

} // verus!
