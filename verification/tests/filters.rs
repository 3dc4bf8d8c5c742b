use release_notifier::filter::{any_matches, Filter, FilterTerm};

#[test]
fn test_file_name_filter() {
    let filter = Filter {
        terms: vec![
            FilterTerm::Simple("tabletoptactics".to_string()),
            FilterTerm::Full {
                term: "Shorts".to_string(),
                exclude: true,
            },
        ],
        case_sensitive: false,
    };

    assert!(filter.matches(
        "2026-09-15T09%3A05%3A13.632996888Z - 1 new video available from TabletopTactics"
    ));
    assert!(!filter.matches("1 new video available from TabletopTactics Shorts"));
    assert!(!filter.matches("1 new video available from OtherChannel"));
}

fn simple(term: &str, case_sensitive: bool) -> Filter {
    Filter {
        terms: vec![FilterTerm::Simple(term.to_string())],
        case_sensitive,
    }
}

#[test]
fn letter_case() {
    assert!(simple("ÜBER", false).matches("über"));
    assert!(!simple("ÜBER", true).matches("über"));
    assert!(simple("über", true).matches("ein über x"));
    assert!(simple("", true).matches(""));
    // Two characters in lower case: the dot of the capital I becomes a character of its own.
    assert!(simple("i\u{307}", false).matches("\u{130}"));
}

#[test]
fn all_terms_have_to_hold() {
    let filter = Filter {
        terms: vec![
            FilterTerm::Simple("a".to_string()),
            FilterTerm::Full {
                term: "b".to_string(),
                exclude: false,
            },
            FilterTerm::Full {
                term: "c".to_string(),
                exclude: true,
            },
        ],
        case_sensitive: true,
    };
    assert!(filter.matches("ab"));
    assert!(!filter.matches("a"));
    assert!(!filter.matches("b"));
    assert!(!filter.matches("abc"));
    let empty = Filter {
        terms: vec![],
        case_sensitive: false,
    };
    assert!(empty.matches("anything"));
}

#[test]
fn lower_case_is_given() {
    let filter = simple("X", false);
    assert!(filter.matches_given("ignored", "a y b", &vec!["y".to_string()]));
    assert!(!filter.matches_given("ignored", "a b", &vec!["y".to_string()]));
    let filter = simple("X", true);
    assert!(filter.matches_given("X", "nothing", &vec!["ignored".to_string()]));
}

#[test]
fn one_filter_is_enough() {
    let filters = vec![simple("a", true), simple("b", true)];
    assert!(any_matches(&filters, "b"));
    assert!(!any_matches(&filters, "c"));
    assert!(!any_matches(&[], "c"));
}
