//! The candidate model: one directory entry as the resolver sees it.
//!
//! A candidate carries plain values only: the file name used for display, the
//! stem used for matching, and the extension used for the markup rules. A stem
//! or extension that could not be decoded as text is `None`; such a candidate
//! never matches, and an undecoded extension fails the markup rule.

use vstd::prelude::*;

use crate::text::is_substring_of;
use crate::text::lower_of;
use crate::text::lowercase;
use crate::text::str_eq;

verus! {

/// One regular file of the search root.
pub struct CandidateFile {
    /// The full file name, extension included, shown to the user.
    pub name: String,
    /// The file name without its extension; `None` when it cannot be decoded.
    pub stem: Option<String>,
    /// The extension, without the dot, folded to lowercase by the scanner
    /// that built the listing; `None` when absent or undecodable.
    pub ext: Option<String>,
}

/// The mathematical image of a `CandidateFile`.
pub struct CandidateView {
    pub name: Seq<char>,
    pub stem: Option<Seq<char>>,
    pub ext: Option<Seq<char>>,
}

impl View for CandidateFile {
    type V = CandidateView;

    open spec fn view(&self) -> CandidateView {
        CandidateView {
            name: self.name@,
            stem: match self.stem {
                Some(s) => Some(s@),
                None => None,
            },
            ext: match self.ext {
                Some(e) => Some(e@),
                None => None,
            },
        }
    }
}

/// The markup-source extension: such a file is rendered before it is opened.
pub open spec fn markup_ext() -> Seq<char> {
    "md"@
}

/// The render-format extension: the directly viewable sibling of a markup file.
pub open spec fn render_ext() -> Seq<char> {
    "html"@
}

/// The candidate is a markup source.
pub open spec fn is_markup(c: CandidateView) -> bool {
    c.ext == Some(markup_ext())
}

/// The candidate is a rendered file.
pub open spec fn is_render(c: CandidateView) -> bool {
    c.ext == Some(render_ext())
}

/// The candidate's stem contains the pattern, both folded to lowercase.
/// A candidate without a decodable stem never matches.
pub open spec fn candidate_matches(c: CandidateView, pattern: Seq<char>) -> bool {
    match c.stem {
        Some(s) => is_substring_of(lower_of(pattern), lower_of(s)),
        None => false,
    }
}

/// The candidate's stem equals the pattern, case-sensitively.
pub open spec fn stem_is_exactly(c: CandidateView, pattern: Seq<char>) -> bool {
    c.stem == Some(pattern)
}

/// Case-insensitive fuzzy match: does the candidate's stem contain the
/// pattern as a substring, ignoring case?
pub fn contains_pattern_ignore_case(c: &CandidateFile, pattern: &str) -> (r: bool)
    ensures
        r == candidate_matches(c@, pattern@),
{
    let lowered = lowercase(pattern);
    matches_lowered(c, lowered.as_str(), Ghost(pattern@))
}

/// Fuzzy match against a pattern that has already been folded to lowercase.
pub(crate) fn matches_lowered(c: &CandidateFile, lowered: &str, pattern: Ghost<Seq<char>>) -> (r:
    bool)
    requires
        lowered@ == lower_of(pattern@),
    ensures
        r == candidate_matches(c@, pattern@),
{
    match &c.stem {
        Some(s) => {
            let stem_lower = lowercase(s.as_str());
            crate::text::contains_substring(stem_lower.as_str(), lowered)
        },
        None => false,
    }
}

/// Must this candidate be rendered before it is opened? True exactly of
/// markup-source files.
pub fn needs_render(c: &CandidateFile) -> (r: bool)
    ensures
        r == is_markup(c@),
{
    match &c.ext {
        Some(e) => str_eq(e.as_str(), "md"),
        None => false,
    }
}

} // verus!
