//! Line filtering with a pattern compiled once per processing session.
//!
//! Matching is delegated to the `regex` crate; the library reasons about it
//! through two named results: validity of a pattern and whether a pattern
//! matches a line.  Both depend on the pattern text (and the line) alone.

use vstd::prelude::*;

verus! {

#[verifier::external_type_specification]
#[verifier::external_body]
pub struct ExRegex(regex::bytes::Regex);

/// Whether `regex::bytes::Regex::new` accepts the pattern.
pub uninterp spec fn pattern_valid(pattern: Seq<char>) -> bool;

/// Whether the pattern matches anywhere in the line.  The result of
/// `regex::bytes::Regex::is_match` is a function of the pattern the regex
/// was compiled from and of the haystack alone.
pub uninterp spec fn regex_match(pattern: Seq<char>, line: Seq<u8>) -> bool;

/// The lines of `lines` on which the pattern matches, in encounter order.
pub open spec fn matching_lines(lines: Seq<Seq<u8>>, pattern: Seq<char>) -> Seq<Seq<u8>>
    decreases lines.len(),
{
    if lines.len() == 0 {
        Seq::empty()
    } else {
        let front = matching_lines(lines.drop_last(), pattern);
        if regex_match(pattern, lines.last()) {
            front.push(lines.last())
        } else {
            front
        }
    }
}

/// A pattern compiled once, evaluated per line with no state kept between
/// lines.  The compiled regex and the pattern it was built from travel
/// together, so `is_match` can be described by the pattern text.
pub struct LineFilter {
    re: regex::bytes::Regex,
    pattern: String,
}

impl LineFilter {
    /// The text the filter was compiled from.
    pub closed spec fn pattern(self) -> Seq<char> {
        self.pattern@
    }

    /// Relies on `regex::bytes::Regex::new`: compilation succeeds exactly on
    /// valid patterns, and the result matches as the pattern text dictates.
    /// On failure the error carries the compiler's own message.
    #[verifier::external_body]
    pub fn new(pattern: &str) -> (r: Result<LineFilter, String>)
        ensures
            r is Ok <==> pattern_valid(pattern@),
            (r matches Ok(f) ==> f.pattern() == pattern@),
    {
        match regex::bytes::Regex::new(pattern) {
            Ok(re) => Ok(LineFilter { re, pattern: pattern.to_string() }),
            Err(e) => Err(e.to_string()),
        }
    }

    /// Relies on `regex::bytes::Regex::is_match`: true exactly when the
    /// pattern matches somewhere in the line; no state is retained.
    #[verifier::external_body]
    pub fn is_match(&self, line: &Vec<u8>) -> (r: bool)
        ensures
            r == regex_match(self.pattern(), line@),
    {
        self.re.is_match(line)
    }
}

} // verus!
