use release_notifier::text::{
    contains, ends_with, is_control, is_whitespace, join, lowered, number_text, same_text, split,
    split_whitespace, starts_with, take_until, to_ascii_lowercase, trim, trim_end,
};

#[test]
fn characters_are_those_of_the_standard_library() {
    for c in '\0'..=char::MAX {
        assert_eq!(is_whitespace(c), c.is_whitespace(), "{:?}", c);
        assert_eq!(is_control(c), c.is_control(), "{:?}", c);
        assert_eq!(to_ascii_lowercase(c), c.to_ascii_lowercase(), "{:?}", c);
    }
}

const SAMPLES: [&str; 12] = [
    "", " ", "a", " a", "a ", "  a b  ", "\u{a0}ü\u{2003}", "a,b", ",", "a,,b,", "\t\n", "A,ü c",
];

#[test]
fn cutting_is_that_of_the_standard_library() {
    for s in SAMPLES {
        assert_eq!(trim(s), s.trim());
        assert_eq!(lowered(s), s.to_ascii_lowercase());
        assert_eq!(trim_end(s), s.trim_end());
        assert_eq!(split(s, ','), s.split(',').collect::<Vec<_>>());
        assert_eq!(take_until(s, ','), s.split(',').next().unwrap());
        assert_eq!(
            split_whitespace(s),
            s.split_whitespace().collect::<Vec<_>>()
        );
    }
}

#[test]
fn searching_is_that_of_the_standard_library() {
    for s in SAMPLES {
        for t in SAMPLES {
            assert_eq!(contains(s, t), s.contains(t), "{:?} {:?}", s, t);
            assert_eq!(starts_with(s, t), s.starts_with(t), "{:?} {:?}", s, t);
            assert_eq!(ends_with(s, t), s.ends_with(t), "{:?} {:?}", s, t);
            assert_eq!(same_text(s, t), s == t, "{:?} {:?}", s, t);
        }
    }
}

#[test]
fn joining() {
    let parts: Vec<String> = ["a", "", "b"].map(String::from).into();
    assert_eq!(join(&parts, ", "), "a, , b");
    assert_eq!(join(&vec![], ", "), "");
}

#[test]
fn numbers() {
    for n in [0, 1, 9, 10, 11, 99, 100, 1_234_567_890, usize::MAX] {
        assert_eq!(number_text(n), n.to_string());
    }
}
