//! Searching a text for the matches of a pattern. The search itself is the
//! `regex` crate's; what it finds is handed on as byte offsets.
use vstd::prelude::*;
use vstd::string::*;
use regex::Regex;
use crate::text::{slice, sliceable};

verus! {

/// The error with which `regex` refuses a pattern.
#[verifier::external_type_specification]
#[verifier::external_body]
pub struct ExPatternError(regex::Error);

/// A range of byte offsets in the text that was searched.
#[derive(Debug, PartialEq, Eq, Clone, Copy, Structural)]
pub struct Span {
    pub start: usize,
    pub end: usize,
}

/// One match of a pattern: where the whole match lies and where its first
/// capture group lies, each `None` where the search reports none.
#[derive(Debug, PartialEq, Eq, Clone, Copy, Structural)]
pub struct Capture {
    pub whole: Option<Span>,
    pub first: Option<Span>,
}

/// What a search of `haystack` for `pattern` finds: the successive matches,
/// from left to right, or `None` where `regex` refuses the pattern.
pub uninterp spec fn pattern_captures(pattern: Seq<u8>, haystack: Seq<u8>) -> Option<Seq<Capture>>;

/// Compiles `pattern` with `regex::Regex::new` and walks
/// `Regex::captures_iter` over `haystack`, noting for each match the offsets
/// that `Captures::get` reports for group 0 and group 1. The contract only
/// names the result: the matches where the pattern compiles, and the error
/// where it does not. A compiled pattern and a haystack decide the matches,
/// and nothing else does.
#[verifier::external_body]
pub(crate) fn search(pattern: &str, haystack: &str) -> (r: Result<Vec<Capture>, regex::Error>)
    ensures
        match r {
            Ok(found) => pattern_captures(pattern.spec_bytes(), haystack.spec_bytes()) == Some(
                found@,
            ),
            Err(_) => pattern_captures(pattern.spec_bytes(), haystack.spec_bytes()) is None,
        },
{
    let regex = Regex::new(pattern)?;
    let mut found = Vec::new();
    for captures in regex.captures_iter(haystack) {
        let whole = captures.get(0).map(|m| Span { start: m.start(), end: m.end() });
        let first = captures.get(1).map(|m| Span { start: m.start(), end: m.end() });
        found.push(Capture { whole, first });
    }
    Ok(found)
}

/// Whether a span can be cut out of a text.
pub open spec fn span_fits(bytes: Seq<u8>, span: Span) -> bool {
    sliceable(bytes, span.start as int, span.end as int)
}

/// The bytes that a span covers.
pub open spec fn span_bytes(bytes: Seq<u8>, span: Span) -> Seq<u8> {
    bytes.subrange(span.start as int, span.end as int)
}

/// The text that a span covers, or `None` where the span does not fit the
/// text.
pub fn span_text<'a>(text: &'a str, span: Span) -> (r: Option<&'a str>)
    ensures
        r is Some <==> span_fits(text.spec_bytes(), span),
        r matches Some(t) ==> t.spec_bytes() == span_bytes(text.spec_bytes(), span),
{
    slice(text, span.start, span.end)
}

} // verus!
