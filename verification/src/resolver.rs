//! The resolver: decide which file of a directory listing the user meant.
//!
//! A candidate matches when its stem contains the pattern, case-insensitively.
//! With no match the outcome is `Empty`; with one match that candidate is
//! chosen. With several matches two tie-break rules run in order: the markup
//! rule (every match is a markup source or a rendered file, and exactly one is
//! a markup source: that one is chosen, to be regenerated from source), then
//! the exact-name rule (exactly one match's stem equals the pattern,
//! case-sensitively: that one is chosen). A tie that neither rule breaks is
//! ambiguous, and the outcome carries every matching file name for display.

use vstd::prelude::*;

use crate::candidate::CandidateFile;
use crate::candidate::CandidateView;
use crate::candidate::candidate_matches;
use crate::candidate::is_markup;
use crate::candidate::is_render;
use crate::candidate::matches_lowered;
use crate::candidate::stem_is_exactly;
use crate::text::lower_of;
use crate::text::lowercase;
use crate::text::str_eq;

verus! {

/// The outcome of resolution, as handed to the caller. A chosen file is given
/// by its index into the listing that was searched.
pub enum Resolution {
    /// No candidate matched the pattern: a normal outcome, not an error.
    Empty,
    /// Exactly one candidate survived: the file at this index of the listing.
    Target(usize),
    /// Several candidates survived every tie-break: their file names, in
    /// listing order, for the user to refine the search.
    Ambiguous(Vec<String>),
}

/// The outcome of resolution, at the specification level.
pub enum SpecOutcome {
    Empty,
    Chosen(int),
    Ambiguous,
}

/// The views of a listing of candidates.
pub open spec fn views_of(files: Seq<CandidateFile>) -> Seq<CandidateView> {
    files.map_values(|c: CandidateFile| c@)
}

/// A sequence of exec indices, as mathematical integers.
pub open spec fn ints_of(s: Seq<usize>) -> Seq<int> {
    s.map_values(|u: usize| u as int)
}

/// The views of a sequence of strings.
pub open spec fn strs_of(s: Seq<String>) -> Seq<Seq<char>> {
    s.map_values(|x: String| x@)
}

/// The indices below `n` whose candidate matches the pattern, in listing
/// order.
pub open spec fn match_indices_upto(
    files: Seq<CandidateView>,
    pattern: Seq<char>,
    n: int,
) -> Seq<int>
    decreases n,
{
    if n <= 0 {
        Seq::empty()
    } else if candidate_matches(files[n - 1], pattern) {
        match_indices_upto(files, pattern, n - 1).push(n - 1)
    } else {
        match_indices_upto(files, pattern, n - 1)
    }
}

/// The match set: the indices of every matching candidate, in listing order.
pub open spec fn match_indices(files: Seq<CandidateView>, pattern: Seq<char>) -> Seq<int> {
    match_indices_upto(files, pattern, files.len() as int)
}

/// Every index listed below position `n` of the match set points at a markup
/// or a rendered file.
pub open spec fn exts_ok_upto(files: Seq<CandidateView>, ms: Seq<int>, n: int) -> bool {
    forall|k: int|
        0 <= k < n ==> is_markup(#[trigger] files[ms[k]]) || is_render(files[ms[k]])
}

/// Of the first `n` entries of the match set, the indices that point at a
/// markup source, in order.
pub open spec fn markup_positions_upto(files: Seq<CandidateView>, ms: Seq<int>, n: int) -> Seq<
    int,
>
    decreases n,
{
    if n <= 0 {
        Seq::empty()
    } else if is_markup(files[ms[n - 1]]) {
        markup_positions_upto(files, ms, n - 1).push(ms[n - 1])
    } else {
        markup_positions_upto(files, ms, n - 1)
    }
}

/// The markup tie-break rule: when every matching candidate is a markup
/// source or a rendered file and exactly one is a markup source, that one is
/// chosen. Otherwise the rule does not apply.
pub open spec fn markup_choice(files: Seq<CandidateView>, ms: Seq<int>) -> Option<int> {
    let mp = markup_positions_upto(files, ms, ms.len() as int);
    if exts_ok_upto(files, ms, ms.len() as int) && mp.len() == 1 {
        Some(mp[0])
    } else {
        None
    }
}

/// Of the first `n` entries of the match set, the indices whose candidate's
/// stem equals the pattern exactly, in order.
pub open spec fn exact_positions_upto(
    files: Seq<CandidateView>,
    ms: Seq<int>,
    pattern: Seq<char>,
    n: int,
) -> Seq<int>
    decreases n,
{
    if n <= 0 {
        Seq::empty()
    } else if stem_is_exactly(files[ms[n - 1]], pattern) {
        exact_positions_upto(files, ms, pattern, n - 1).push(ms[n - 1])
    } else {
        exact_positions_upto(files, ms, pattern, n - 1)
    }
}

/// The exact-name tie-break rule: when exactly one matching candidate's stem
/// equals the pattern, case-sensitively, that one is chosen. A tie between
/// several exact stems is not broken by this rule.
pub open spec fn exact_choice(
    files: Seq<CandidateView>,
    ms: Seq<int>,
    pattern: Seq<char>,
) -> Option<int> {
    let ep = exact_positions_upto(files, ms, pattern, ms.len() as int);
    if ep.len() == 1 {
        Some(ep[0])
    } else {
        None
    }
}

/// The file names of the matched candidates, in listing order.
pub open spec fn names_of(files: Seq<CandidateView>, ms: Seq<int>) -> Seq<Seq<char>> {
    ms.map_values(|i: int| files[i].name)
}

/// The whole resolution algorithm, as a function of the listing and the
/// pattern.
pub open spec fn resolve_spec(files: Seq<CandidateView>, pattern: Seq<char>) -> SpecOutcome {
    let ms = match_indices(files, pattern);
    if ms.len() == 0 {
        SpecOutcome::Empty
    } else if ms.len() == 1 {
        SpecOutcome::Chosen(ms[0])
    } else {
        match markup_choice(files, ms) {
            Some(i) => SpecOutcome::Chosen(i),
            None => match exact_choice(files, ms, pattern) {
                Some(i) => SpecOutcome::Chosen(i),
                None => SpecOutcome::Ambiguous,
            },
        }
    }
}

/// Every entry of the match set is a valid index of a matching candidate, and
/// entries are strictly increasing.
pub proof fn lemma_match_indices_upto_props(files: Seq<CandidateView>, pattern: Seq<char>, n: int)
    requires
        n <= files.len(),
    ensures
        forall|k: int|
            0 <= k < match_indices_upto(files, pattern, n).len() ==> {
                let i = #[trigger] match_indices_upto(files, pattern, n)[k];
                &&& 0 <= i < n
                &&& candidate_matches(files[i], pattern)
            },
    decreases n,
{
    if n > 0 {
        lemma_match_indices_upto_props(files, pattern, n - 1);
        let ms = match_indices_upto(files, pattern, n);
        let prev = match_indices_upto(files, pattern, n - 1);
        assert forall|k: int| 0 <= k < ms.len() implies {
            let i = #[trigger] ms[k];
            &&& 0 <= i < n
            &&& candidate_matches(files[i], pattern)
        } by {
            if k < prev.len() {
                assert(ms[k] == prev[k]);
            }
        }
    }
}

/// The count of markup positions never shrinks as more of the match set is
/// examined.
proof fn lemma_markup_positions_len_monotonic(
    files: Seq<CandidateView>,
    ms: Seq<int>,
    a: int,
    b: int,
)
    requires
        a <= b,
    ensures
        markup_positions_upto(files, ms, a).len() <= markup_positions_upto(files, ms, b).len(),
    decreases b - a,
{
    if a < b {
        lemma_markup_positions_len_monotonic(files, ms, a, b - 1);
    }
}

/// The count of exact-stem positions never shrinks as more of the match set
/// is examined.
proof fn lemma_exact_positions_len_monotonic(
    files: Seq<CandidateView>,
    ms: Seq<int>,
    pattern: Seq<char>,
    a: int,
    b: int,
)
    requires
        a <= b,
    ensures
        exact_positions_upto(files, ms, pattern, a).len() <= exact_positions_upto(
            files,
            ms,
            pattern,
            b,
        ).len(),
    decreases b - a,
{
    if a < b {
        lemma_exact_positions_len_monotonic(files, ms, pattern, a, b - 1);
    }
}

/// The markup tie-break rule, executed over the match set `ms` of indices
/// into `files`: `Some` exactly when every matched candidate is a markup
/// source or a rendered file and exactly one is a markup source.
pub fn check_markup_condition(files: &Vec<CandidateFile>, ms: &Vec<usize>) -> (r: Option<usize>)
    requires
        forall|k: int| 0 <= k < ms@.len() ==> (#[trigger] ms@[k]) < files@.len(),
    ensures
        ({
            let fs = views_of(files@);
            let msi = ints_of(ms@);
            match r {
                Some(i) => i < files@.len() && markup_choice(fs, msi) == Some(i as int),
                None => markup_choice(fs, msi) is None,
            }
        }),
{
    let ghost fs = views_of(files@);
    let ghost msi = ints_of(ms@);
    let mut found: Option<usize> = None;
    for k in 0..ms.len()
        invariant
            fs == views_of(files@),
            msi == ints_of(ms@),
            forall|t: int| 0 <= t < ms@.len() ==> (#[trigger] ms@[t]) < files@.len(),
            exts_ok_upto(fs, msi, k as int),
            match found {
                None => markup_positions_upto(fs, msi, k as int) == Seq::<int>::empty(),
                Some(u) => u < files@.len() && markup_positions_upto(fs, msi, k as int) == seq![
                    u as int,
                ],
            },
    {
        let idx = ms[k];
        let markup_here = crate::candidate::needs_render(&files[idx]);
        let render_here = match &files[idx].ext {
            Some(e) => str_eq(e.as_str(), "html"),
            None => false,
        };
        proof {
            assert(fs[msi[k as int]] == files@[ms@[k as int] as int]@);
        }
        if markup_here {
            if found.is_some() {
                proof {
                    assert(markup_positions_upto(fs, msi, k + 1).len() == 2);
                    lemma_markup_positions_len_monotonic(fs, msi, k + 1, msi.len() as int);
                }
                return None;
            }
            found = Some(idx);
            proof {
                assert(markup_positions_upto(fs, msi, k + 1) =~= seq![idx as int]);
            }
        } else if render_here {
            proof {
                assert(markup_positions_upto(fs, msi, k + 1) == markup_positions_upto(
                    fs,
                    msi,
                    k as int,
                ));
            }
        } else {
            proof {
                assert(!exts_ok_upto(fs, msi, msi.len() as int));
            }
            return None;
        }
    }
    found
}

/// The exact-name tie-break rule, executed over the match set `ms`: `Some`
/// exactly when exactly one matched candidate's stem equals the pattern,
/// case-sensitively.
pub fn contains_exact_string(files: &Vec<CandidateFile>, ms: &Vec<usize>, pattern: &str) -> (r:
    Option<usize>)
    requires
        forall|k: int| 0 <= k < ms@.len() ==> (#[trigger] ms@[k]) < files@.len(),
    ensures
        ({
            let fs = views_of(files@);
            let msi = ints_of(ms@);
            match r {
                Some(i) => i < files@.len() && exact_choice(fs, msi, pattern@) == Some(i as int),
                None => exact_choice(fs, msi, pattern@) is None,
            }
        }),
{
    let ghost fs = views_of(files@);
    let ghost msi = ints_of(ms@);
    let mut found: Option<usize> = None;
    for k in 0..ms.len()
        invariant
            fs == views_of(files@),
            msi == ints_of(ms@),
            forall|t: int| 0 <= t < ms@.len() ==> (#[trigger] ms@[t]) < files@.len(),
            match found {
                None => exact_positions_upto(fs, msi, pattern@, k as int) == Seq::<int>::empty(),
                Some(u) => u < files@.len() && exact_positions_upto(fs, msi, pattern@, k as int)
                    == seq![u as int],
            },
    {
        let idx = ms[k];
        let exact_here = match &files[idx].stem {
            Some(s) => str_eq(s.as_str(), pattern),
            None => false,
        };
        proof {
            assert(fs[msi[k as int]] == files@[ms@[k as int] as int]@);
        }
        if exact_here {
            if found.is_some() {
                proof {
                    assert(exact_positions_upto(fs, msi, pattern@, k + 1).len() == 2);
                    lemma_exact_positions_len_monotonic(fs, msi, pattern@, k + 1, msi.len() as int);
                }
                return None;
            }
            found = Some(idx);
            proof {
                assert(exact_positions_upto(fs, msi, pattern@, k + 1) =~= seq![idx as int]);
            }
        } else {
            proof {
                assert(exact_positions_upto(fs, msi, pattern@, k + 1) == exact_positions_upto(
                    fs,
                    msi,
                    pattern@,
                    k as int,
                ));
            }
        }
    }
    found
}

/// Every index of a matching candidate below `n` stands in the match set.
pub proof fn lemma_match_indices_upto_complete(
    files: Seq<CandidateView>,
    pattern: Seq<char>,
    n: int,
    i: int,
)
    requires
        0 <= i < n <= files.len(),
        candidate_matches(files[i], pattern),
    ensures
        match_indices_upto(files, pattern, n).contains(i),
    decreases n,
{
    if i == n - 1 {
        assert(match_indices_upto(files, pattern, n)[match_indices_upto(
            files,
            pattern,
            n,
        ).len() - 1] == i);
    } else {
        lemma_match_indices_upto_complete(files, pattern, n - 1, i);
        let ms = match_indices_upto(files, pattern, n - 1);
        let k = choose|k: int| 0 <= k < ms.len() && ms[k] == i;
        assert(match_indices_upto(files, pattern, n)[k] == i);
    }
}

/// The file names of the matched candidates, cloned for display.
fn collect_names(files: &Vec<CandidateFile>, ms: &Vec<usize>) -> (r: Vec<String>)
    requires
        forall|k: int| 0 <= k < ms@.len() ==> (#[trigger] ms@[k]) < files@.len(),
    ensures
        strs_of(r@) == names_of(views_of(files@), ints_of(ms@)),
{
    let ghost fs = views_of(files@);
    let ghost msi = ints_of(ms@);
    let mut names: Vec<String> = Vec::new();
    for k in 0..ms.len()
        invariant
            fs == views_of(files@),
            msi == ints_of(ms@),
            forall|t: int| 0 <= t < ms@.len() ==> (#[trigger] ms@[t]) < files@.len(),
            names@.len() == k,
            forall|t: int| 0 <= t < k ==> (#[trigger] names@[t])@ == fs[msi[t]].name,
    {
        let idx = ms[k];
        names.push(files[idx].name.clone());
        proof {
            assert(fs[msi[k as int]] == files@[ms@[k as int] as int]@);
            assert(names@[k as int]@ == fs[msi[k as int]].name);
        }
    }
    proof {
        assert forall|t: int| 0 <= t < msi.len() implies #[trigger] strs_of(names@)[t] == names_of(
            fs,
            msi,
        )[t] by {
            assert(strs_of(names@)[t] == names@[t]@);
        }
        assert(strs_of(names@) =~= names_of(fs, msi));
    }
    names
}

/// Decide which file of the listing the user meant by `pattern`.
///
/// The result either names no file (`Empty`), exactly one file by its index
/// into `files` (`Target`), or reports an unbroken tie together with the
/// matched file names in listing order (`Ambiguous`). The outcome is exactly
/// `resolve_spec` on the listing's view, so resolution is a function of the
/// listing and the pattern alone.
pub fn resolve(files: &Vec<CandidateFile>, pattern: &str) -> (r: Resolution)
    ensures
        ({
            let fs = views_of(files@);
            match r {
                Resolution::Empty => resolve_spec(fs, pattern@) == SpecOutcome::Empty,
                Resolution::Target(i) => i < files@.len() && resolve_spec(fs, pattern@)
                    == SpecOutcome::Chosen(i as int),
                Resolution::Ambiguous(names) => resolve_spec(fs, pattern@)
                    == SpecOutcome::Ambiguous && strs_of(names@) == names_of(
                    fs,
                    match_indices(fs, pattern@),
                ),
            }
        }),
{
    let ghost fs = views_of(files@);
    let lowered = lowercase(pattern);
    let mut matched: Vec<usize> = Vec::new();
    for k in 0..files.len()
        invariant
            fs == views_of(files@),
            lowered@ == lower_of(pattern@),
            ints_of(matched@) == match_indices_upto(fs, pattern@, k as int),
            forall|t: int| 0 <= t < matched@.len() ==> (#[trigger] matched@[t]) < files@.len(),
    {
        proof {
            assert(fs[k as int] == files@[k as int]@);
        }
        if matches_lowered(&files[k], lowered.as_str(), Ghost(pattern@)) {
            matched.push(k);
            proof {
                assert(ints_of(matched@) =~= match_indices_upto(fs, pattern@, k + 1));
            }
        } else {
            proof {
                assert(ints_of(matched@) =~= match_indices_upto(fs, pattern@, k + 1));
            }
        }
    }
    let ghost msi = match_indices(fs, pattern@);
    if matched.len() == 0 {
        return Resolution::Empty;
    }
    if matched.len() == 1 {
        let i = matched[0];
        proof {
            assert(msi[0] == i as int);
        }
        return Resolution::Target(i);
    }
    match check_markup_condition(files, &matched) {
        Some(i) => Resolution::Target(i),
        None => match contains_exact_string(files, &matched, pattern) {
            Some(i) => Resolution::Target(i),
            None => Resolution::Ambiguous(collect_names(files, &matched)),
        },
    }
}

/// Resolution is deterministic: the outcome is a function of the directory
/// listing, in its given order, and of the pattern alone. Equal inputs give
/// equal outcomes.
pub proof fn lemma_resolve_deterministic(
    files1: Seq<CandidateView>,
    files2: Seq<CandidateView>,
    pattern1: Seq<char>,
    pattern2: Seq<char>,
)
    requires
        files1 == files2,
        pattern1 == pattern2,
    ensures
        resolve_spec(files1, pattern1) == resolve_spec(files2, pattern2),
{
}

/// When exactly one candidate's stem contains the pattern case-insensitively,
/// that candidate is chosen, whatever its extension.
pub proof fn lemma_unique_match_is_chosen(files: Seq<CandidateView>, pattern: Seq<char>, i: int)
    requires
        0 <= i < files.len(),
        candidate_matches(files[i], pattern),
        forall|j: int|
            0 <= j < files.len() && j != i ==> !candidate_matches(#[trigger] files[j], pattern),
    ensures
        resolve_spec(files, pattern) == SpecOutcome::Chosen(i),
{
    let ms = match_indices(files, pattern);
    lemma_match_indices_upto_props(files, pattern, files.len() as int);
    lemma_match_indices_upto_complete(files, pattern, files.len() as int, i);
    assert forall|k: int| 0 <= k < ms.len() implies #[trigger] ms[k] == i by {}
    if ms.len() >= 2 {
        assert(ms[0] == i && ms[1] == i);
        lemma_match_indices_upto_no_dup(files, pattern, files.len() as int);
    }
    assert(ms =~= seq![i]);
}

/// The match set never lists the same index twice: entries are strictly
/// increasing in listing order.
pub proof fn lemma_match_indices_upto_no_dup(files: Seq<CandidateView>, pattern: Seq<char>, n: int)
    requires
        n <= files.len(),
    ensures
        forall|a: int, b: int|
            0 <= a < b < match_indices_upto(files, pattern, n).len() ==> #[trigger] match_indices_upto(
                files,
                pattern,
                n,
            )[a] < #[trigger] match_indices_upto(files, pattern, n)[b],
    decreases n,
{
    if n > 0 {
        lemma_match_indices_upto_no_dup(files, pattern, n - 1);
        lemma_match_indices_upto_props(files, pattern, n - 1);
        let ms = match_indices_upto(files, pattern, n);
        let prev = match_indices_upto(files, pattern, n - 1);
        assert forall|a: int, b: int| 0 <= a < b < ms.len() implies #[trigger] ms[a]
            < #[trigger] ms[b] by {
            if b < prev.len() {
                assert(ms[a] == prev[a] && ms[b] == prev[b]);
            } else {
                assert(ms[a] == prev[a]);
            }
        }
    }
}

/// A listing in which no candidate matches the pattern resolves to `Empty` —
/// a normal outcome, never an error.
pub proof fn lemma_no_match_is_empty(files: Seq<CandidateView>, pattern: Seq<char>)
    requires
        forall|j: int| 0 <= j < files.len() ==> !candidate_matches(#[trigger] files[j], pattern),
    ensures
        resolve_spec(files, pattern) == SpecOutcome::Empty,
{
    let ms = match_indices(files, pattern);
    lemma_match_indices_upto_props(files, pattern, files.len() as int);
    if ms.len() > 0 {
        assert(candidate_matches(files[ms[0]], pattern));
    }
}

} // verus!
