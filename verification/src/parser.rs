//! The readiness-expression grammar.
//!
//! An expression is a list of AND-groups separated by `or`; an AND-group is
//! a list of rules separated by `and`; a rule is one of
//!
//! ```text
//! after <duration>
//! tcp port <digits> ready
//! http [port <digits>] ready
//! https [port <digits>] ready
//! matches <pattern>
//! ```
//!
//! Keywords are matched case-insensitively and separated by blanks.  A
//! pattern is either quoted — with backslash-escaped quotes un-escaped — or
//! a bare token running to the next whitespace; either way it must compile
//! as a regular expression.  A quoted pattern that fails — an unfinished
//! escape, a missing closing quote, a pattern that does not compile — falls
//! back to the bare-token reading, quote and all, exactly as the
//! alternative order of the grammar dictates.
//!
//! The specification functions below define the grammar; each parsing
//! function returns exactly what they say, and an error wherever they fail.

use vstd::prelude::*;

use crate::duration::{lemma_spec_parse_duration_advances, parse_duration, spec_parse_duration};
use crate::pattern::{pattern_compiles, regex_ok};
use crate::rules::{AndRules, Http, Https, Matches, OrRules, Rule, RuleModel, Tcp};
use crate::text::{
    blank_run_end, digit_run_end, digits_value, lemma_blank_run_end_bounds,
    lemma_digit_run_end_bounds, skip_blanks, tag_at, tag_nocase_at,
};
use crate::ParseError;

verus! {

/// The double quote that delimits a quoted pattern.
pub const QUOTE: u8 = 34;

/// The backslash that escapes a quote inside a quoted pattern.
pub const BACKSLASH: u8 = 92;

/// A whitespace byte: what ends a bare pattern token.
pub open spec fn is_ws_byte(b: u8) -> bool {
    b == 32 || (9 <= b && b <= 13)
}

/// The end of the non-whitespace token that starts at `pos`.
pub open spec fn token_end(s: Seq<u8>, pos: int) -> int
    decreases s.len() - pos,
{
    if pos < 0 || pos >= s.len() || is_ws_byte(s[pos]) {
        pos
    } else {
        token_end(s, pos + 1)
    }
}

pub proof fn lemma_token_end_bounds(s: Seq<u8>, pos: int)
    requires
        0 <= pos <= s.len(),
    ensures
        pos <= token_end(s, pos) <= s.len(),
        forall|k: int| pos <= k < token_end(s, pos) ==> !is_ws_byte(s[k]),
        token_end(s, pos) < s.len() ==> is_ws_byte(s[token_end(s, pos)]),
    decreases s.len() - pos,
{
    if pos < s.len() && !is_ws_byte(s[pos]) {
        lemma_token_end_bounds(s, pos + 1);
    }
}

// ---------------------------------------------------------------------------
// Keyword tags.

pub open spec fn tag_after() -> Seq<u8> {
    seq![97u8, 102, 116, 101, 114]
}

pub open spec fn tag_tcp() -> Seq<u8> {
    seq![116u8, 99, 112]
}

pub open spec fn tag_http() -> Seq<u8> {
    seq![104u8, 116, 116, 112]
}

pub open spec fn tag_https() -> Seq<u8> {
    seq![104u8, 116, 116, 112, 115]
}

pub open spec fn tag_matches() -> Seq<u8> {
    seq![109u8, 97, 116, 99, 104, 101, 115]
}

pub open spec fn tag_port() -> Seq<u8> {
    seq![112u8, 111, 114, 116]
}

pub open spec fn tag_ready() -> Seq<u8> {
    seq![114u8, 101, 97, 100, 121]
}

pub open spec fn tag_and() -> Seq<u8> {
    seq![97u8, 110, 100]
}

pub open spec fn tag_or() -> Seq<u8> {
    seq![111u8, 114]
}

// ---------------------------------------------------------------------------
// The grammar, as a specification.

/// `port <digits>` at `pos`: the digits must name a port in 1 to 65535.
pub open spec fn spec_parse_port(s: Seq<u8>, pos: int) -> Option<(u16, int)> {
    if !tag_at(s, pos, tag_port()) {
        None
    } else {
        let b = blank_run_end(s, pos + 4);
        if b == pos + 4 {
            None
        } else {
            let dend = digit_run_end(s, b);
            if dend == b {
                None
            } else {
                let v = digits_value(s, b, dend);
                if 1 <= v <= 65535 {
                    Some((v as u16, dend))
                } else {
                    None
                }
            }
        }
    }
}

/// What follows `http`/`https` and its blank: either `port <digits> ready`
/// or a bare `ready`, which leaves the port to the scheme's default.
pub open spec fn spec_parse_http_body(s: Seq<u8>, pos: int) -> Option<(Option<u16>, int)> {
    let with_port = {
        match spec_parse_port(s, pos) {
            Some((p, e)) => {
                let b = blank_run_end(s, e);
                if b != e && tag_at(s, b, tag_ready()) {
                    Some((Some(p), b + 5))
                } else {
                    None
                }
            },
            None => None,
        }
    };
    match with_port {
        Some(r) => Some(r),
        None => {
            if tag_at(s, pos, tag_ready()) {
                Some((None, pos + 5))
            } else {
                None
            }
        },
    }
}

/// The text of a quoted pattern, scanned from just after the opening quote:
/// plain bytes, with `\"` un-escaped to `"`, up to the closing quote or the
/// end of the input.  A backslash before anything but a quote fails.
pub open spec fn spec_quoted_content(s: Seq<u8>, pos: int) -> Option<(Seq<u8>, int)>
    decreases s.len() - pos,
{
    if pos < 0 || pos >= s.len() || s[pos] == QUOTE {
        Some((Seq::empty(), pos))
    } else if s[pos] == BACKSLASH {
        if pos + 1 < s.len() && s[pos + 1] == QUOTE {
            match spec_quoted_content(s, pos + 2) {
                Some((rest, e)) => Some((seq![QUOTE] + rest, e)),
                None => None,
            }
        } else {
            None
        }
    } else {
        match spec_quoted_content(s, pos + 1) {
            Some((rest, e)) => Some((seq![s[pos]] + rest, e)),
            None => None,
        }
    }
}

pub proof fn lemma_quoted_content_bounds(s: Seq<u8>, pos: int)
    requires
        0 <= pos <= s.len(),
    ensures
        spec_quoted_content(s, pos) matches Some(p) ==> pos <= p.1 <= s.len(),
    decreases s.len() - pos,
{
    if pos < s.len() && s[pos] != QUOTE {
        if s[pos] == BACKSLASH {
            if pos + 1 < s.len() && s[pos + 1] == QUOTE {
                lemma_quoted_content_bounds(s, pos + 2);
            }
        } else {
            lemma_quoted_content_bounds(s, pos + 1);
        }
    }
}

/// A quoted pattern at `pos`: quote, content, quote — and the un-escaped
/// content must compile as a regular expression.
pub open spec fn spec_parse_quoted(s: Seq<u8>, pos: int) -> Option<(Seq<u8>, int)> {
    if !(0 <= pos < s.len() && s[pos] == QUOTE) {
        None
    } else {
        match spec_quoted_content(s, pos + 1) {
            Some((content, e)) => {
                if e < s.len() && s[e] == QUOTE && regex_ok(content) {
                    Some((content, e + 1))
                } else {
                    None
                }
            },
            None => None,
        }
    }
}

/// A bare pattern at `pos`: the non-empty token up to the next whitespace,
/// which must compile as a regular expression.
pub open spec fn spec_parse_raw(s: Seq<u8>, pos: int) -> Option<(Seq<u8>, int)> {
    let e = token_end(s, pos);
    if e == pos {
        None
    } else {
        let pat = s.subrange(pos, e);
        if regex_ok(pat) {
            Some((pat, e))
        } else {
            None
        }
    }
}

/// A pattern: the quoted form, and where that fails — however it fails —
/// the bare token, quote included.
pub open spec fn spec_parse_pattern(s: Seq<u8>, pos: int) -> Option<(Seq<u8>, int)> {
    match spec_parse_quoted(s, pos) {
        Some(r) => Some(r),
        None => spec_parse_raw(s, pos),
    }
}

/// One rule at `pos`.  The first keyword that stands there decides the
/// kind; after `after`, `tcp` and `matches` the rest of the rule is owed,
/// while a `http`/`https` keyword without a following blank falls through
/// to the later alternatives.
pub open spec fn spec_parse_rule(s: Seq<u8>, pos: int) -> Option<(RuleModel, int)> {
    if tag_at(s, pos, tag_after()) {
        let b = blank_run_end(s, pos + 5);
        if b == pos + 5 {
            None
        } else {
            match spec_parse_duration(s, b) {
                Some((v, e)) => Some((RuleModel::After { micros: v }, e)),
                None => None,
            }
        }
    } else if tag_at(s, pos, tag_tcp()) {
        let b = blank_run_end(s, pos + 3);
        if b == pos + 3 {
            None
        } else {
            match spec_parse_port(s, b) {
                Some((p, e)) => {
                    let b2 = blank_run_end(s, e);
                    if b2 != e && tag_at(s, b2, tag_ready()) {
                        Some((RuleModel::Tcp { port: p }, b2 + 5))
                    } else {
                        None
                    }
                },
                None => None,
            }
        }
    } else if tag_at(s, pos, tag_http()) && blank_run_end(s, pos + 4) != pos + 4 {
        match spec_parse_http_body(s, blank_run_end(s, pos + 4)) {
            Some((p, e)) => Some((RuleModel::Http { port: p }, e)),
            None => None,
        }
    } else if tag_at(s, pos, tag_https()) && blank_run_end(s, pos + 5) != pos + 5 {
        match spec_parse_http_body(s, blank_run_end(s, pos + 5)) {
            Some((p, e)) => Some((RuleModel::Https { port: p }, e)),
            None => None,
        }
    } else if tag_at(s, pos, tag_matches()) {
        let b = blank_run_end(s, pos + 7);
        if b == pos + 7 {
            None
        } else {
            match spec_parse_pattern(s, b) {
                Some((pat, e)) => Some((RuleModel::Matches { pattern: pat }, e)),
                None => None,
            }
        }
    } else {
        None
    }
}

pub proof fn lemma_parse_port_advances(s: Seq<u8>, pos: int)
    requires
        0 <= pos <= s.len(),
    ensures
        spec_parse_port(s, pos) matches Some(p) ==> pos < p.1 <= s.len(),
{
    if tag_at(s, pos, tag_port()) {
        lemma_blank_run_end_bounds(s, pos + 4);
        lemma_digit_run_end_bounds(s, blank_run_end(s, pos + 4));
    }
}

pub proof fn lemma_parse_rule_advances(s: Seq<u8>, pos: int)
    requires
        0 <= pos <= s.len(),
    ensures
        spec_parse_rule(s, pos) matches Some(p) ==> pos < p.1 <= s.len(),
{
    if tag_at(s, pos, tag_after()) {
        lemma_blank_run_end_bounds(s, pos + 5);
        lemma_spec_parse_duration_advances(s, blank_run_end(s, pos + 5));
    } else if tag_at(s, pos, tag_tcp()) {
        lemma_blank_run_end_bounds(s, pos + 3);
        let b = blank_run_end(s, pos + 3);
        lemma_parse_port_advances(s, b);
        if b != pos + 3 && spec_parse_port(s, b) is Some {
            let e = spec_parse_port(s, b)->Some_0.1;
            lemma_blank_run_end_bounds(s, e);
        }
    } else if tag_at(s, pos, tag_http()) && blank_run_end(s, pos + 4) != pos + 4 {
        lemma_blank_run_end_bounds(s, pos + 4);
        lemma_parse_http_body_advances(s, blank_run_end(s, pos + 4));
    } else if tag_at(s, pos, tag_https()) && blank_run_end(s, pos + 5) != pos + 5 {
        lemma_blank_run_end_bounds(s, pos + 5);
        lemma_parse_http_body_advances(s, blank_run_end(s, pos + 5));
    } else if tag_at(s, pos, tag_matches()) {
        lemma_blank_run_end_bounds(s, pos + 7);
        let b = blank_run_end(s, pos + 7);
        if b < s.len() {
            lemma_quoted_content_bounds(s, b + 1);
        }
        lemma_token_end_bounds(s, b);
    }
}

pub proof fn lemma_parse_http_body_advances(s: Seq<u8>, pos: int)
    requires
        0 <= pos <= s.len(),
    ensures
        spec_parse_http_body(s, pos) matches Some(p) ==> pos < p.1 <= s.len(),
{
    lemma_parse_port_advances(s, pos);
    if spec_parse_port(s, pos) is Some {
        let e = spec_parse_port(s, pos)->Some_0.1;
        lemma_blank_run_end_bounds(s, e);
    }
}

/// An AND-group at `pos`: rules separated by blank-delimited `and`, ended
/// by the end of the input (trailing blanks allowed) or, without consuming
/// it, by a blank run and `or`.
pub open spec fn spec_parse_and_list(s: Seq<u8>, pos: int) -> Option<(Seq<RuleModel>, int)>
    decreases s.len() - pos,
{
    match spec_parse_rule(s, pos) {
        None => None,
        Some((r, e)) => {
            proof {
                if 0 <= pos <= s.len() {
                    lemma_parse_rule_advances(s, pos);
                    lemma_blank_run_end_bounds(s, e);
                }
            }
            let b = blank_run_end(s, e);
            if b >= s.len() {
                Some((seq![r], s.len() as int))
            } else if b > e && tag_at(s, b, tag_or()) {
                Some((seq![r], e))
            } else if b > e && tag_at(s, b, tag_and()) {
                let b2 = blank_run_end(s, b + 3);
                proof {
                    if 0 <= pos <= s.len() {
                        lemma_blank_run_end_bounds(s, b + 3);
                    }
                }
                if b2 == b + 3 {
                    None
                } else {
                    match spec_parse_and_list(s, b2) {
                        Some((rest, e2)) => Some((seq![r] + rest, e2)),
                        None => None,
                    }
                }
            } else {
                None
            }
        },
    }
}

pub proof fn lemma_parse_and_list_advances(s: Seq<u8>, pos: int)
    requires
        0 <= pos <= s.len(),
    ensures
        spec_parse_and_list(s, pos) matches Some(p) ==> pos < p.1 <= s.len(),
    decreases s.len() - pos,
{
    lemma_parse_rule_advances(s, pos);
    if spec_parse_rule(s, pos) is Some {
        let e = spec_parse_rule(s, pos)->Some_0.1;
        lemma_blank_run_end_bounds(s, e);
        let b = blank_run_end(s, e);
        if b < s.len() && b > e && !tag_at(s, b, tag_or()) && tag_at(s, b, tag_and()) {
            lemma_blank_run_end_bounds(s, b + 3);
            let b2 = blank_run_end(s, b + 3);
            if b2 != b + 3 {
                lemma_parse_and_list_advances(s, b2);
            }
        }
    }
}

/// A whole expression at `pos`: AND-groups separated by blank-delimited
/// `or`, running to the end of the input.
pub open spec fn spec_parse_or_list(s: Seq<u8>, pos: int) -> Option<(Seq<Seq<RuleModel>>, int)>
    decreases s.len() - pos,
{
    match spec_parse_and_list(s, pos) {
        None => None,
        Some((g, e)) => {
            proof {
                if 0 <= pos <= s.len() {
                    lemma_parse_and_list_advances(s, pos);
                    lemma_blank_run_end_bounds(s, e);
                }
            }
            let b = blank_run_end(s, e);
            if b >= s.len() {
                Some((seq![g], s.len() as int))
            } else if b > e && tag_at(s, b, tag_or()) {
                let b2 = blank_run_end(s, b + 2);
                proof {
                    if 0 <= pos <= s.len() {
                        lemma_blank_run_end_bounds(s, b + 2);
                    }
                }
                if b2 == b + 2 {
                    None
                } else {
                    match spec_parse_or_list(s, b2) {
                        Some((rest, e2)) => Some((seq![g] + rest, e2)),
                        None => None,
                    }
                }
            } else {
                None
            }
        },
    }
}

// ---------------------------------------------------------------------------
// The executable parser.

fn kw_after() -> (r: Vec<u8>)
    ensures
        r@ == tag_after(),
{
    vec![97u8, 102, 116, 101, 114]
}

fn kw_tcp() -> (r: Vec<u8>)
    ensures
        r@ == tag_tcp(),
{
    vec![116u8, 99, 112]
}

fn kw_http() -> (r: Vec<u8>)
    ensures
        r@ == tag_http(),
{
    vec![104u8, 116, 116, 112]
}

fn kw_https() -> (r: Vec<u8>)
    ensures
        r@ == tag_https(),
{
    vec![104u8, 116, 116, 112, 115]
}

fn kw_matches() -> (r: Vec<u8>)
    ensures
        r@ == tag_matches(),
{
    vec![109u8, 97, 116, 99, 104, 101, 115]
}

fn kw_port() -> (r: Vec<u8>)
    ensures
        r@ == tag_port(),
{
    vec![112u8, 111, 114, 116]
}

fn kw_ready() -> (r: Vec<u8>)
    ensures
        r@ == tag_ready(),
{
    vec![114u8, 101, 97, 100, 121]
}

fn kw_and() -> (r: Vec<u8>)
    ensures
        r@ == tag_and(),
{
    vec![97u8, 110, 100]
}

fn kw_or() -> (r: Vec<u8>)
    ensures
        r@ == tag_or(),
{
    vec![111u8, 114]
}

/// Recognises `port <digits>` and the port value it names.
fn parse_port_at(s: &[u8], pos: usize) -> (r: Option<(u16, usize)>)
    requires
        pos <= s@.len(),
    ensures
        match spec_parse_port(s@, pos as int) {
            Some(p) => r matches Some(q) && q.0 == p.0 && q.1 == p.1,
            None => r is None,
        },
{
    let n = s.len();
    let kw = kw_port();
    if !tag_nocase_at(s, pos, kw.as_slice()) {
        return None;
    }
    let b = skip_blanks(s, pos + 4);
    if b == pos + 4 {
        return None;
    }
    match crate::duration::parse_u32_digits(s, b) {
        Some((v, dend)) => {
            if 1 <= v && v <= 65535 {
                Some((v as u16, dend))
            } else {
                None
            }
        },
        None => {
            proof {
                lemma_digit_run_end_bounds(s@, b as int);
                if digit_run_end(s@, b as int) != b {
                    crate::text::lemma_digits_value_nonneg(
                        s@,
                        b as int,
                        digit_run_end(s@, b as int),
                    );
                }
            }
            None
        },
    }
}

/// Reads the text of a quoted pattern, just after the opening quote.
fn parse_quoted_content(s: &[u8], pos: usize) -> (r: Option<(Vec<u8>, usize)>)
    requires
        pos <= s@.len(),
    ensures
        match spec_quoted_content(s@, pos as int) {
            Some(p) => r matches Some(q) && q.0@ == p.0 && q.1 == p.1,
            None => r is None,
        },
{
    let n = s.len();
    let mut content: Vec<u8> = Vec::new();
    let mut i: usize = pos;
    loop
        invariant
            pos <= i <= s@.len(),
            n == s@.len(),
            spec_quoted_content(s@, pos as int) is Some <==> spec_quoted_content(
                s@,
                i as int,
            ) is Some,
            spec_quoted_content(s@, i as int) matches Some(p) ==> (spec_quoted_content(
                s@,
                pos as int,
            ) matches Some(q) && q.0 == content@ + p.0 && q.1 == p.1),
        decreases s@.len() - i,
    {
        if i == n || s[i] == QUOTE {
            proof {
                assert(spec_quoted_content(s@, i as int) matches Some(p) && p.0
                    == Seq::<u8>::empty() && p.1 == i);
                assert(content@ + Seq::<u8>::empty() =~= content@);
            }
            return Some((content, i));
        }
        if s[i] == BACKSLASH {
            if i + 1 < n && s[i + 1] == QUOTE {
                let ghost c0 = content@;
                let ghost i0 = i as int;
                content.push(QUOTE);
                i = i + 2;
                proof {
                    let sp = spec_quoted_content(s@, i as int);
                    if sp is Some {
                        let p = sp->Some_0;
                        assert(spec_quoted_content(s@, i0) matches Some(pp) && pp.0 == seq![QUOTE]
                            + p.0 && pp.1 == p.1);
                        assert((c0 + seq![QUOTE]) + p.0 =~= c0 + (seq![QUOTE] + p.0));
                    }
                }
            } else {
                proof {
                    assert(spec_quoted_content(s@, i as int) is None);
                }
                return None;
            }
        } else {
            let c = s[i];
            let ghost c0 = content@;
            let ghost i0 = i as int;
            content.push(c);
            i = i + 1;
            proof {
                let sp = spec_quoted_content(s@, i as int);
                if sp is Some {
                    let p = sp->Some_0;
                    assert(spec_quoted_content(s@, i0) matches Some(pp) && pp.0 == seq![c] + p.0
                        && pp.1 == p.1);
                    assert((c0 + seq![c]) + p.0 =~= c0 + (seq![c] + p.0));
                }
            }
        }
    }
}

/// Reads a pattern: the quoted form first, the bare token as fallback.
fn parse_pattern_at(s: &[u8], pos: usize) -> (r: Option<(Vec<u8>, usize)>)
    requires
        pos <= s@.len(),
    ensures
        match spec_parse_pattern(s@, pos as int) {
            Some(p) => r matches Some(q) && q.0@ == p.0 && q.1 == p.1,
            None => r is None,
        },
{
    let n = s.len();
    if pos < n && s[pos] == QUOTE {
        match parse_quoted_content(s, pos + 1) {
            Some((content, e)) => {
                proof {
                    lemma_quoted_content_bounds(s@, pos + 1);
                }
                if e < n && s[e] == QUOTE && pattern_compiles(content.as_slice()) {
                    return Some((content, e + 1));
                }
            },
            None => {},
        }
    }
    // The bare-token reading.
    let mut e: usize = pos;
    while e < n && !(s[e] == 32 || (9 <= s[e] && s[e] <= 13))
        invariant
            pos <= e <= s@.len(),
            n == s@.len(),
            token_end(s@, e as int) == token_end(s@, pos as int),
        decreases s@.len() - e,
    {
        e = e + 1;
    }
    if e == pos {
        return None;
    }
    let pat = vstd::slice::slice_to_vec(vstd::slice::slice_subrange(s, pos, e));
    if pattern_compiles(pat.as_slice()) {
        Some((pat, e))
    } else {
        None
    }
}

/// Reads one rule; the error names the position where the rule broke off.
fn parse_rule_at(s: &[u8], pos: usize) -> (r: Result<(Rule, usize), ParseError>)
    requires
        pos <= s@.len(),
    ensures
        match spec_parse_rule(s@, pos as int) {
            Some(p) => r matches Ok(q) && q.0@ == p.0 && q.0.wf() && q.1 == p.1,
            None => r matches Err(e) && e.pos <= s@.len(),
        },
{
    let n = s.len();
    let kw = kw_after();
    if tag_nocase_at(s, pos, kw.as_slice()) {
        let b = skip_blanks(s, pos + 5);
        if b == pos + 5 {
            return Err(ParseError { pos: b });
        }
        return match parse_duration(s, b) {
            Some((d, e)) => Ok((Rule::After(crate::rules::After::new(d)), e)),
            None => Err(ParseError { pos: b }),
        };
    }
    let kw = kw_tcp();
    if tag_nocase_at(s, pos, kw.as_slice()) {
        let b = skip_blanks(s, pos + 3);
        if b == pos + 3 {
            return Err(ParseError { pos: b });
        }
        return match parse_port_at(s, b) {
            Some((p, e)) => {
                proof {
                    lemma_parse_port_advances(s@, b as int);
                }
                let b2 = skip_blanks(s, e);
                let kw = kw_ready();
                if b2 != e && tag_nocase_at(s, b2, kw.as_slice()) {
                    Ok((Rule::Tcp(Tcp::new(p)), b2 + 5))
                } else {
                    Err(ParseError { pos: b2 })
                }
            },
            None => Err(ParseError { pos: b }),
        };
    }
    let kw = kw_http();
    if tag_nocase_at(s, pos, kw.as_slice()) {
        let b = skip_blanks(s, pos + 4);
        if b != pos + 4 {
            return match parse_http_body(s, b) {
                Ok((p, e)) => Ok((Rule::Http(Http::new(p)), e)),
                Err(e) => Err(e),
            };
        }
    }
    let kw = kw_https();
    if tag_nocase_at(s, pos, kw.as_slice()) {
        let b = skip_blanks(s, pos + 5);
        if b != pos + 5 {
            return match parse_http_body(s, b) {
                Ok((p, e)) => Ok((Rule::Https(Https::new(p)), e)),
                Err(e) => Err(e),
            };
        }
    }
    let kw = kw_matches();
    if tag_nocase_at(s, pos, kw.as_slice()) {
        let b = skip_blanks(s, pos + 7);
        if b == pos + 7 {
            return Err(ParseError { pos: b });
        }
        return match parse_pattern_at(s, b) {
            Some((pat, e)) => {
                match Matches::new(pat) {
                    Some(m) => Ok((Rule::Matches(m), e)),
                    None => Err(ParseError { pos: b }),
                }
            },
            None => Err(ParseError { pos: b }),
        };
    }
    Err(ParseError { pos })
}

/// Reads what follows `http`/`https` and its blank.
fn parse_http_body(s: &[u8], pos: usize) -> (r: Result<(Option<u16>, usize), ParseError>)
    requires
        pos <= s@.len(),
    ensures
        match spec_parse_http_body(s@, pos as int) {
            Some(p) => r matches Ok(q) && q.0 == p.0 && q.0 != Some(0u16) && q.1 == p.1,
            None => r matches Err(e) && e.pos <= s@.len(),
        },
{
    let n = s.len();
    match parse_port_at(s, pos) {
        Some((p, e)) => {
            proof {
                lemma_parse_port_advances(s@, pos as int);
            }
            let b = skip_blanks(s, e);
            if b != e {
                let kw = kw_ready();
                if tag_nocase_at(s, b, kw.as_slice()) {
                    return Ok((Some(p), b + 5));
                }
            }
        },
        None => {},
    }
    let kw = kw_ready();
    if tag_nocase_at(s, pos, kw.as_slice()) {
        Ok((None, pos + 5))
    } else {
        Err(ParseError { pos })
    }
}

/// Reads one AND-group as its list of rules.
#[verifier::rlimit(40)]
fn parse_rule_list(s: &[u8], pos: usize) -> (r: Result<(Vec<Rule>, usize), ParseError>)
    requires
        pos <= s@.len(),
    ensures
        match spec_parse_and_list(s@, pos as int) {
            Some(p) => r matches Ok(q) && q.0@.map_values(|x: Rule| x@) == p.0 && q.1 == p.1
                && q.0@.len() >= 1 && (forall|i: int|
                0 <= i < q.0@.len() ==> (#[trigger] q.0@[i]).wf()),
            None => r matches Err(e) && e.pos <= s@.len(),
        },
    decreases s@.len() - pos,
{
    let n = s.len();
    let (rule, e) = match parse_rule_at(s, pos) {
        Ok(p) => p,
        Err(err) => {
            return Err(err);
        },
    };
    proof {
        lemma_parse_rule_advances(s@, pos as int);
    }
    let b = skip_blanks(s, e);
    if b == n {
        let mut v: Vec<Rule> = Vec::new();
        v.push(rule);
        proof {
            assert(v@.map_values(|x: Rule| x@) =~= seq![spec_parse_rule(s@, pos as int)->Some_0.0]);
        }
        return Ok((v, b));
    }
    let kw = kw_or();
    if b > e && tag_nocase_at(s, b, kw.as_slice()) {
        let mut v: Vec<Rule> = Vec::new();
        v.push(rule);
        proof {
            assert(v@.map_values(|x: Rule| x@) =~= seq![spec_parse_rule(s@, pos as int)->Some_0.0]);
        }
        return Ok((v, e));
    }
    let kw = kw_and();
    if b > e && tag_nocase_at(s, b, kw.as_slice()) {
        let b2 = skip_blanks(s, b + 3);
        if b2 == b + 3 {
            return Err(ParseError { pos: b2 });
        }
        match parse_rule_list(s, b2) {
            Ok((mut rest, e2)) => {
                let ghost tail = rest@;
                rest.insert(0, rule);
                proof {
                    assert(rest@ == tail.insert(0, rule));
                    assert(rest@.map_values(|x: Rule| x@) =~= seq![rule@] + tail.map_values(
                        |x: Rule| x@,
                    ));
                }
                Ok((rest, e2))
            },
            Err(err) => Err(err),
        }
    } else {
        Err(ParseError { pos: b })
    }
}

/// Reads the whole expression as its list of AND-groups.
fn parse_group_list(s: &[u8], pos: usize) -> (r: Result<(Vec<AndRules>, usize), ParseError>)
    requires
        pos <= s@.len(),
    ensures
        match spec_parse_or_list(s@, pos as int) {
            Some(p) => r matches Ok(q) && q.0@.map_values(|g: AndRules| g@) == p.0 && q.1 == p.1
                && q.0@.len() >= 1 && (forall|i: int|
                0 <= i < q.0@.len() ==> (#[trigger] q.0@[i]).wf()),
            None => r matches Err(e) && e.pos <= s@.len(),
        },
    decreases s@.len() - pos,
{
    let n = s.len();
    let (rules, e) = match parse_rule_list(s, pos) {
        Ok(p) => p,
        Err(err) => {
            return Err(err);
        },
    };
    proof {
        lemma_parse_and_list_advances(s@, pos as int);
    }
    let group = AndRules::new(rules);
    let b = skip_blanks(s, e);
    if b == n {
        let mut v: Vec<AndRules> = Vec::new();
        v.push(group);
        proof {
            assert(v@.map_values(|g: AndRules| g@) =~= seq![
                spec_parse_and_list(s@, pos as int)->Some_0.0,
            ]);
        }
        return Ok((v, b));
    }
    let kw = kw_or();
    if b > e && tag_nocase_at(s, b, kw.as_slice()) {
        let b2 = skip_blanks(s, b + 2);
        if b2 == b + 2 {
            return Err(ParseError { pos: b2 });
        }
        match parse_group_list(s, b2) {
            Ok((mut rest, e2)) => {
                let ghost tail = rest@;
                rest.insert(0, group);
                proof {
                    assert(rest@ == tail.insert(0, group));
                    assert(rest@.map_values(|g: AndRules| g@) =~= seq![group@] + tail.map_values(
                        |g: AndRules| g@,
                    ));
                }
                Ok((rest, e2))
            },
            Err(err) => Err(err),
        }
    } else {
        Err(ParseError { pos: b })
    }
}

/// Parses a whole readiness expression.  Succeeds with the OR-group of the
/// grammar exactly when `spec_parse_or_list` accepts the whole input, and
/// reports the position where parsing broke off otherwise.
pub fn parse_or_rules(s: &[u8]) -> (r: Result<OrRules, ParseError>)
    ensures
        match spec_parse_or_list(s@, 0) {
            Some(p) => r matches Ok(or) && or@ == p.0 && or.wf(),
            None => r matches Err(e) && e.pos <= s@.len(),
        },
{
    match parse_group_list(s, 0) {
        Ok((groups, _end)) => Ok(OrRules::new(groups)),
        Err(err) => Err(err),
    }
}

} // verus!
