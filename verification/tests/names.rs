use release_notifier::filter::{Filter, FilterTerm};
use release_notifier::names::{
    file_name_from_title, file_name_given, remove_all, sanitize_file_name, strip_date_prefix,
    Affix, NameConfiguration,
};

#[test]
fn test_file_name_from_title() {
    let names = NameConfiguration::default();
    let file_name = |title: &str| file_name_from_title(title, &names);

    assert_eq!(
        file_name("2026-09-15 - Aeldari vs Emperor’s Children | Warhammer 40k Battle Report"),
        "Aeldari vs Emperor’s Children"
    );
    assert_eq!(
        file_name("Aeldari vs Emperor’s Children | Battle Report"),
        "Aeldari vs Emperor’s Children"
    );
    assert_eq!(
        file_name("2026-09-15 - Aeldari: Codex Review"),
        "Aeldari Codex Review"
    );
    assert_eq!(file_name("2026-09-15 Review"), "Review");
    assert_eq!(file_name("2026-09-15Review"), "2026-09-15Review");
    assert_eq!(file_name("2026-09-15"), "2026-09-15");
    assert_eq!(file_name("2026-9-15 - Review"), "2026-9-15 - Review");
    assert_eq!(file_name("2026-09-15 - | Review"), "");
}

#[test]
fn test_file_name_affixes() {
    let affix = |term: &str, prefix: &str, suffix: &str| Affix {
        filter: Filter {
            terms: vec![FilterTerm::Simple(term.to_string())],
            case_sensitive: false,
        },
        prefix: prefix.to_string(),
        suffix: suffix.to_string(),
    };
    let names = NameConfiguration {
        strip: vec!["**NEW CODEX!!**".to_string()],
        affixes: vec![
            affix("Warhammer 40k", "40k - ", ""),
            affix("Codex Review", "", " - Codex Review"),
            affix("Battle Report", "Batrep - ", ""),
        ],
    };
    let file_name = |title: &str| file_name_from_title(title, &names);

    assert_eq!(
        file_name("2026-09-19 - Space Marines | Warhammer 40k Codex Review"),
        "40k - Space Marines - Codex Review"
    );
    assert_eq!(
        file_name(
            "2026-09-19 - **NEW CODEX!!** Space Marines vs Orks | Warhammer 40k Battle Report"
        ),
        "40k - Batrep - Space Marines vs Orks"
    );
    // Without a matching filter the name stays as it was.
    assert_eq!(
        file_name("2026-09-19 - Space Marines | Unboxing"),
        "Space Marines"
    );
    // The affixes are dropped along with an empty name.
    assert_eq!(file_name("2026-09-19 - | Warhammer 40k Codex Review"), "");
}

#[test]
fn test_remove_all() {
    assert_eq!(remove_all("a **NEW** b **new** c", "**new**"), "a  b  c");
    assert_eq!(remove_all("abc", ""), "abc");
    assert_eq!(remove_all("aaa", "aa"), "a");
    assert_eq!(remove_all("über Über", "über"), " Über");
}

#[test]
fn test_sanitize_file_name() {
    assert_eq!(
        sanitize_file_name("Aeldari | Emperor’s Children"),
        "Aeldari Emperor’s Children"
    );
    assert_eq!(sanitize_file_name(" a/b\\c:d*e?f\"g<h>i. "), "abcdefghi");
    assert_eq!(sanitize_file_name("a\tb  c"), "a b c");
    assert_eq!(sanitize_file_name(" ... "), "");
}

#[test]
fn removal_leaves_an_occurrence_that_it_creates() {
    assert_eq!(remove_all("aabb", "ab"), "ab");
    assert_eq!(remove_all("abc", "xy"), "abc");
    assert_eq!(remove_all("xAbx", "aB"), "xx");
    assert_eq!(remove_all("ab", "abc"), "ab");
    assert_eq!(remove_all("", "abc"), "");
}

#[test]
fn dots_before_a_space_stay() {
    assert_eq!(sanitize_file_name("a. ."), "a.");
    assert_eq!(sanitize_file_name("a."), "a");
    assert_eq!(sanitize_file_name(". ."), ".");
    let once = sanitize_file_name("  x\u{a0}y\u{85}z  ");
    assert_eq!(once, "x y z");
    assert_eq!(sanitize_file_name(&once), once);
}

#[test]
fn date_prefixes() {
    assert_eq!(strip_date_prefix("2026-09-15 - X"), "X");
    assert_eq!(strip_date_prefix("2026-09-15\t-X"), "X");
    assert_eq!(strip_date_prefix("2026-09-15 X"), "X");
    assert_eq!(strip_date_prefix("2026-09-15 - - X"), "- X");
    assert_eq!(strip_date_prefix("2026-09-15 "), "");
    assert_eq!(strip_date_prefix("2026/09/15 - X"), "2026/09/15 - X");
    assert_eq!(strip_date_prefix("202x-09-15 - X"), "202x-09-15 - X");
    assert_eq!(strip_date_prefix("2026-09-15–X"), "2026-09-15–X");
}

#[test]
fn text_behind_the_bar_is_ignored() {
    let names = NameConfiguration::default();
    assert_eq!(file_name_from_title("  A|b", &names), "A");
    assert_eq!(file_name_from_title("A|c|d", &names), "A");
    assert_eq!(file_name_from_title("2026-09-15|x", &names), "2026-09-15");
}

#[test]
fn affixes_follow_the_configuration() {
    let rule = |prefix: &str, suffix: &str| Affix {
        filter: Filter {
            terms: vec![],
            case_sensitive: true,
        },
        prefix: prefix.to_string(),
        suffix: suffix.to_string(),
    };
    let names = NameConfiguration {
        strip: vec![],
        affixes: vec![rule("1", "a"), rule("2", "b"), rule("3", "c")],
    };
    assert_eq!(file_name_from_title("X", &names), "123Xabc");
    assert_eq!(
        file_name_given("X", &names, &vec![true, false, true]),
        "13Xac"
    );
    assert_eq!(
        file_name_given("X", &names, &vec![false, false, false]),
        "X"
    );
    assert_eq!(file_name_given("|X", &names, &vec![true, true, true]), "");
}

#[test]
fn readme_names() {
    let rule = |term: &str, prefix: &str, suffix: &str| Affix {
        filter: Filter {
            terms: vec![FilterTerm::Simple(term.to_string())],
            case_sensitive: false,
        },
        prefix: prefix.to_string(),
        suffix: suffix.to_string(),
    };
    let names = NameConfiguration {
        strip: vec!["**NEW CODEX!!**".to_string()],
        affixes: vec![
            rule("Codex Review", "", " - Codex Review"),
            rule("Battle Report", "Batrep - ", ""),
        ],
    };
    assert_eq!(
        file_name_from_title(
            "2026-09-19 - Space Marines | Warhammer 40k Codex Review",
            &names
        ),
        "Space Marines - Codex Review"
    );
    assert_eq!(
        file_name_from_title(
            "2026-09-19 - **NEW CODEX!!** Space Marines vs Orks | Warhammer 40k Battle Report",
            &names
        ),
        "Batrep - Space Marines vs Orks"
    );
}
