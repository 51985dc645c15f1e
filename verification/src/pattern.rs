//! Byte-oriented regular-expression patterns.
//!
//! A pattern is kept as the bytes of its source text.  Compiling and
//! matching are done by the regex engine; the library only names their
//! results: `regex_ok` says whether the pattern text compiles, and
//! `regex_match` whether the compiled pattern matches somewhere in a line.
//! Both depend on the given bytes alone.

use vstd::prelude::*;

verus! {

/// Whether `pattern` is valid UTF-8 and compiles as a byte-oriented regular
/// expression.  A function of the pattern bytes alone.
pub uninterp spec fn regex_ok(pattern: Seq<u8>) -> bool;

/// Whether the regular expression `pattern` matches anywhere in `line`.
/// Meaningful when `regex_ok(pattern)` holds; a function of the pattern and
/// line bytes alone.
pub uninterp spec fn regex_match(pattern: Seq<u8>, line: Seq<u8>) -> bool;

/// Relies on `str::from_utf8` and `regex::bytes::Regex::new`: whether the
/// pattern text is UTF-8 and compiles as a regular expression.  Both are
/// deterministic in the pattern bytes.
#[verifier::external_body]
pub(crate) fn pattern_compiles(pattern: &[u8]) -> (r: bool)
    ensures
        r == regex_ok(pattern@),
{
    match core::str::from_utf8(pattern) {
        Ok(text) => regex::bytes::Regex::new(text).is_ok(),
        Err(_) => false,
    }
}

/// Relies on `str::from_utf8`, `regex::bytes::Regex::new` and
/// `Regex::is_match`: compiles the pattern and tests it against one line.
/// `None` exactly when the pattern does not compile; all three calls are
/// deterministic in the pattern and line bytes.
#[verifier::external_body]
pub(crate) fn pattern_matches(pattern: &[u8], line: &[u8]) -> (r: Option<bool>)
    ensures
        r is Some <==> regex_ok(pattern@),
        r matches Some(b) ==> b == regex_match(pattern@, line@),
{
    let re = match core::str::from_utf8(pattern) {
        Ok(text) => regex::bytes::Regex::new(text).ok(),
        Err(_) => None,
    };
    re.map(|re| re.is_match(line))
}

} // verus!
