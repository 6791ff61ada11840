use cheatsheet::CandidateFile;
use cheatsheet::Resolution;
use cheatsheet::resolve;

fn cand(name: &str, stem: Option<&str>, ext: Option<&str>) -> CandidateFile {
    CandidateFile {
        name: name.to_owned(),
        stem: stem.map(|s| s.to_owned()),
        ext: ext.map(|e| e.to_owned()),
    }
}

fn target_index(r: &Resolution) -> Option<usize> {
    match r {
        Resolution::Target(i) => Some(*i),
        _ => None,
    }
}

#[test]
fn markup_source_preferred_over_rendered_sibling() {
    let files = vec![
        cand("name.md", Some("name"), Some("md")),
        cand("name.html", Some("name"), Some("html")),
    ];
    let r = resolve(&files, "name");
    assert_eq!(target_index(&r), Some(0));
}

#[test]
fn markup_source_preferred_whatever_the_listing_order() {
    let files = vec![
        cand("name.html", Some("name"), Some("html")),
        cand("name.md", Some("name"), Some("md")),
    ];
    let r = resolve(&files, "name");
    assert_eq!(target_index(&r), Some(1));
}

#[test]
fn two_markup_candidates_fall_through_to_exact_match() {
    let files = vec![
        cand("foo.md", Some("foo"), Some("md")),
        cand("foobar.md", Some("foobar"), Some("md")),
    ];
    let r = resolve(&files, "foo");
    assert_eq!(target_index(&r), Some(0));
}

#[test]
fn mixed_extensions_with_equal_stems_stay_ambiguous() {
    let files = vec![
        cand("foo.txt", Some("foo"), Some("txt")),
        cand("foo.md", Some("foo"), Some("md")),
    ];
    let r = resolve(&files, "foo");
    match r {
        Resolution::Ambiguous(names) => {
            assert_eq!(names, vec!["foo.txt".to_owned(), "foo.md".to_owned()]);
        }
        _ => panic!("expected an ambiguous outcome"),
    }
}

#[test]
fn no_matching_file_yields_empty() {
    let files = vec![
        cand("alpha.md", Some("alpha"), Some("md")),
        cand("beta.txt", Some("beta"), Some("txt")),
    ];
    let r = resolve(&files, "zzz");
    assert!(matches!(r, Resolution::Empty));
}

#[test]
fn empty_listing_yields_empty() {
    let files: Vec<CandidateFile> = Vec::new();
    let r = resolve(&files, "anything");
    assert!(matches!(r, Resolution::Empty));
}

#[test]
fn single_match_is_chosen_regardless_of_extension() {
    let files = vec![
        cand("notes.txt", Some("notes"), Some("txt")),
        cand("recipe.md", Some("recipe"), Some("md")),
    ];
    let r = resolve(&files, "note");
    assert_eq!(target_index(&r), Some(0));
}

#[test]
fn resolution_is_deterministic_on_equal_inputs() {
    let files = vec![
        cand("foo.md", Some("foo"), Some("md")),
        cand("foobar.md", Some("foobar"), Some("md")),
    ];
    let first = resolve(&files, "foo");
    let second = resolve(&files, "foo");
    assert_eq!(target_index(&first), target_index(&second));
    assert_eq!(target_index(&first), Some(0));
}

#[test]
fn matching_ignores_case_both_ways() {
    let files = vec![cand("ReadMe.md", Some("ReadMe"), Some("md"))];
    assert_eq!(target_index(&resolve(&files, "readme")), Some(0));
    assert_eq!(target_index(&resolve(&files, "READ")), Some(0));
    assert_eq!(target_index(&resolve(&files, "eAdM")), Some(0));
}

#[test]
fn exact_stem_match_is_case_sensitive() {
    // Both stems contain the pattern case-insensitively; only the exact,
    // case-sensitive stem breaks the tie.
    let files = vec![
        cand("Foo.txt", Some("Foo"), Some("txt")),
        cand("foo.txt", Some("foo"), Some("txt")),
    ];
    let r = resolve(&files, "foo");
    assert_eq!(target_index(&r), Some(1));
}

#[test]
fn markup_rule_needs_every_extension_markup_or_render() {
    let files = vec![
        cand("foo.md", Some("foo"), Some("md")),
        cand("foo.html", Some("foo"), Some("html")),
        cand("foodiary.txt", Some("foodiary"), Some("txt")),
    ];
    // The txt file breaks the markup rule; no stem equals "foo" uniquely,
    // since foo.md and foo.html share the exact stem.
    let r = resolve(&files, "foo");
    match r {
        Resolution::Ambiguous(names) => {
            assert_eq!(
                names,
                vec![
                    "foo.md".to_owned(),
                    "foo.html".to_owned(),
                    "foodiary.txt".to_owned()
                ]
            );
        }
        _ => panic!("expected an ambiguous outcome"),
    }
}

#[test]
fn markup_rule_applies_to_empty_pattern_matching_everything() {
    let files = vec![
        cand("a.html", Some("a"), Some("html")),
        cand("b.md", Some("b"), Some("md")),
        cand("c.html", Some("c"), Some("html")),
    ];
    let r = resolve(&files, "");
    assert_eq!(target_index(&r), Some(1));
}

#[test]
fn two_markup_sources_without_exact_stem_are_ambiguous() {
    let files = vec![
        cand("ab.md", Some("ab"), Some("md")),
        cand("abc.md", Some("abc"), Some("md")),
    ];
    let r = resolve(&files, "a");
    match r {
        Resolution::Ambiguous(names) => {
            assert_eq!(names, vec!["ab.md".to_owned(), "abc.md".to_owned()]);
        }
        _ => panic!("expected an ambiguous outcome"),
    }
}

#[test]
fn candidate_without_extension_defeats_markup_rule() {
    let files = vec![
        cand("plan.md", Some("plan"), Some("md")),
        cand("plans", Some("plans"), None),
    ];
    // The extension-less file breaks the markup rule; "plan" is an exact stem.
    let r = resolve(&files, "plan");
    assert_eq!(target_index(&r), Some(0));
}

#[test]
fn candidate_without_stem_never_matches() {
    let files = vec![
        cand("gone", None, None),
        cand("alpha.md", Some("alpha"), Some("md")),
    ];
    let r = resolve(&files, "");
    assert_eq!(target_index(&r), Some(1));
}

#[test]
fn needs_render_only_on_markup_extension() {
    assert!(cheatsheet::needs_render(&cand("a.md", Some("a"), Some("md"))));
    assert!(!cheatsheet::needs_render(&cand(
        "a.html",
        Some("a"),
        Some("html")
    )));
    assert!(!cheatsheet::needs_render(&cand("a.MD", Some("a"), Some("MD"))));
    assert!(!cheatsheet::needs_render(&cand("a", Some("a"), None)));
}

#[test]
fn check_markup_condition_picks_the_single_markup_source() {
    let files = vec![
        cand("x.html", Some("x"), Some("html")),
        cand("skip.txt", Some("skip"), Some("txt")),
        cand("x.md", Some("x"), Some("md")),
    ];
    // Over the match set {0, 2} the rule applies and picks the markup source.
    assert_eq!(
        cheatsheet::check_markup_condition(&files, &vec![0, 2]),
        Some(2)
    );
    // A txt entry in the match set defeats the rule.
    assert_eq!(cheatsheet::check_markup_condition(&files, &vec![0, 1, 2]), None);
    // Without any markup source the rule does not apply either.
    assert_eq!(cheatsheet::check_markup_condition(&files, &vec![0]), None);
}

#[test]
fn contains_exact_string_needs_a_unique_exact_stem() {
    let files = vec![
        cand("foo.md", Some("foo"), Some("md")),
        cand("foobar.md", Some("foobar"), Some("md")),
        cand("foo.txt", Some("foo"), Some("txt")),
    ];
    assert_eq!(
        cheatsheet::contains_exact_string(&files, &vec![0, 1], "foo"),
        Some(0)
    );
    assert_eq!(
        cheatsheet::contains_exact_string(&files, &vec![0, 1, 2], "foo"),
        None
    );
    assert_eq!(
        cheatsheet::contains_exact_string(&files, &vec![0, 1], "FOO"),
        None
    );
}

#[test]
fn contains_pattern_ignore_case_on_single_candidates() {
    let c = cand("CheatSheet.md", Some("CheatSheet"), Some("md"));
    assert!(cheatsheet::contains_pattern_ignore_case(&c, "sheet"));
    assert!(cheatsheet::contains_pattern_ignore_case(&c, "CHEAT"));
    assert!(cheatsheet::contains_pattern_ignore_case(&c, ""));
    assert!(!cheatsheet::contains_pattern_ignore_case(&c, "sheets"));
    let bare = cand("data", None, None);
    assert!(!cheatsheet::contains_pattern_ignore_case(&bare, ""));
}
