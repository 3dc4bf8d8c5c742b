//! What holds of all file names.
use vstd::prelude::*;

use crate::names::{
    allowed, base_name, has_date, is_forbidden, name_given, prefixes, sanitized, suffixes, undated,
    undotted, visible, without, without_all, Affix, NameConfiguration,
};
use crate::text::{
    find, is_control_char, is_digit, is_space, joined, lemma_find, lemma_joined_cons,
    lemma_trimmed_end, lemma_trimmed_start, lemma_word_len, lower_ascii, occurs, occurs_at, texts,
    trimmed, trimmed_end, trimmed_start, until, word_len, words,
};

verus! {

/// Whitespace occurs in `s` only as single spaces between other characters.
pub open spec fn tidy(s: Seq<char>) -> bool {
    forall|i: int|
        0 <= i < s.len() && is_space(#[trigger] s[i]) ==> s[i] == ' ' && 0 < i < s.len() - 1
            && !is_space(s[i + 1])
}

/// `s` holds no character that is not allowed in a file name, and no control character.
pub open spec fn allowed_only(s: Seq<char>) -> bool {
    forall|i: int|
        0 <= i < s.len() ==> !is_forbidden(#[trigger] s[i]) && !is_control_char(s[i])
}

/// Each word is a word: not empty, and without whitespace.
spec fn proper(parts: Seq<Seq<char>>) -> bool {
    forall|i: int|
        #![trigger parts[i]]
        0 <= i < parts.len() ==> parts[i].len() > 0 && forall|k: int|
            0 <= k < parts[i].len() ==> !is_space(#[trigger] parts[i][k])
}

/// All characters of the words are allowed in file names.
spec fn all_allowed(parts: Seq<Seq<char>>) -> bool {
    forall|i: int| 0 <= i < parts.len() ==> allowed_only(#[trigger] parts[i])
}

proof fn lemma_words_proper(s: Seq<char>)
    ensures
        proper(words(s)),
        allowed_only(s) ==> all_allowed(words(s)),
    decreases s.len(),
{
    lemma_trimmed_start(s);
    let t = trimmed_start(s);
    lemma_word_len(t);
    if t.len() > 0 {
        let n = word_len(t) as int;
        let first = t.take(n);
        let rest = t.skip(n);
        lemma_words_proper(rest);
        assert(words(s) == seq![first] + words(rest));
        assert forall|i: int| #![trigger words(s)[i]] 0 <= i < words(s).len() implies words(
            s,
        )[i].len() > 0 && forall|k: int|
            0 <= k < words(s)[i].len() ==> !is_space(#[trigger] words(s)[i][k]) by {
            if i == 0 {
                assert(words(s)[0] == first);
                assert forall|k: int| 0 <= k < first.len() implies !is_space(
                    #[trigger] first[k],
                ) by {
                    assert(first[k] == t[k]);
                }
            } else {
                assert(words(s)[i] == words(rest)[i - 1]);
            }
        }
        if allowed_only(s) {
            assert forall|k: int| 0 <= k < t.len() implies t[k] == s[k + (s.len() - t.len())] by {}
            assert(allowed_only(rest)) by {
                assert forall|k: int| 0 <= k < rest.len() implies !is_forbidden(#[trigger] rest[k])
                    && !is_control_char(rest[k]) by {
                    assert(rest[k] == t[k + n]);
                }
            }
            assert(allowed_only(first)) by {
                assert forall|k: int| 0 <= k < first.len() implies !is_forbidden(
                    #[trigger] first[k],
                ) && !is_control_char(first[k]) by {
                    assert(first[k] == t[k]);
                }
            }
            assert forall|i: int| 0 <= i < words(s).len() implies allowed_only(
                #[trigger] words(s)[i],
            ) by {
                if i > 0 {
                    assert(words(s)[i] == words(rest)[i - 1]);
                }
            }
        }
    }
}

proof fn lemma_joined_tidy(parts: Seq<Seq<char>>)
    requires
        proper(parts),
    ensures
        tidy(joined(parts, seq![' '])),
        parts.len() > 0 ==> joined(parts, seq![' ']).len() > 0 && !is_space(
            joined(parts, seq![' ']).last(),
        ),
        all_allowed(parts) ==> allowed_only(joined(parts, seq![' '])),
    decreases parts.len(),
{
    if parts.len() == 1 {
        let only = parts[0];
        assert(!is_space(only[only.len() - 1]));
    } else if parts.len() > 1 {
        let front = parts.drop_last();
        let last = parts.last();
        assert forall|i: int| #![trigger front[i]] 0 <= i < front.len() implies front[i].len() > 0
            && forall|k: int| 0 <= k < front[i].len() ==> !is_space(#[trigger] front[i][k]) by {
            assert(front[i] == parts[i]);
        }
        lemma_joined_tidy(front);
        let a = joined(front, seq![' ']);
        let whole = joined(parts, seq![' ']);
        assert(last == parts[parts.len() - 1]);
        assert(whole == a + seq![' '] + last);
        assert(!is_space(last[last.len() - 1]));
        assert forall|i: int| 0 <= i < whole.len() && is_space(#[trigger] whole[i]) implies whole[i]
            == ' ' && 0 < i < whole.len() - 1 && !is_space(whole[i + 1]) by {
            if i < a.len() {
                assert(whole[i] == a[i]);
                assert(whole[i + 1] == a[i + 1]);
            } else if i == a.len() {
                assert(whole[i + 1] == last[0]);
            } else {
                assert(whole[i] == last[i - a.len() - 1]);
            }
        }
        if all_allowed(parts) {
            assert(all_allowed(front)) by {
                assert forall|i: int| 0 <= i < front.len() implies allowed_only(
                    #[trigger] front[i],
                ) by {
                    assert(front[i] == parts[i]);
                }
            }
            assert forall|i: int| 0 <= i < whole.len() implies !is_forbidden(#[trigger] whole[i])
                && !is_control_char(whole[i]) by {
                if i < a.len() {
                    assert(whole[i] == a[i]);
                } else if i > a.len() {
                    assert(whole[i] == last[i - a.len() - 1]);
                }
            }
        }
    }
}

proof fn lemma_undotted(s: Seq<char>)
    ensures
        undotted(s).len() <= s.len(),
        undotted(s) == s.take(undotted(s).len() as int),
        undotted(s).len() > 0 ==> undotted(s).last() != '.',
    decreases s.len(),
{
    if s.len() > 0 && s.last() == '.' {
        lemma_undotted(s.drop_last());
        assert(s.take(undotted(s).len() as int) =~= s.drop_last().take(undotted(s).len() as int));
    } else {
        assert(s.take(s.len() as int) =~= s);
    }
}

proof fn lemma_allowed(s: Seq<char>)
    ensures
        allowed_only(allowed(s)),
{
    let keep = |c: char| !is_forbidden(c);
    let kept = s.filter(keep);
    broadcast use vstd::seq_lib::group_filter_ensures;

    assert forall|i: int| 0 <= i < allowed(s).len() implies !is_forbidden(#[trigger] allowed(s)[i])
        && !is_control_char(allowed(s)[i]) by {
        assert(keep(kept[i]));
        assert(allowed(s)[i] == visible(kept[i]));
    }
}

/// A beginning of a tidy text, without the whitespace at its end, is tidy.
proof fn lemma_tidy_prefix(s: Seq<char>, n: int)
    requires
        tidy(s),
        0 <= n <= s.len(),
    ensures
        tidy(trimmed_end(s.take(n))),
{
    let p = s.take(n);
    let t = trimmed_end(p);
    lemma_trimmed_end(p);
    assert forall|i: int| 0 <= i < t.len() && is_space(#[trigger] t[i]) implies t[i] == ' ' && 0 < i
        < t.len() - 1 && !is_space(t[i + 1]) by {
        assert(t[i] == s[i]);
        if i == t.len() - 1 {
            assert(t.last() == t[i]);
        }
        assert(t[i + 1] == s[i + 1]);
    }
}

/// A sanitized name holds only characters that are allowed in file names. Whitespace occurs in it
/// only as single spaces, and not at its ends.
pub proof fn law_sanitized_is_clean(s: Seq<char>)
    ensures
        allowed_only(sanitized(s)),
        tidy(sanitized(s)),
{
    let a = allowed(s);
    lemma_allowed(s);
    lemma_words_proper(a);
    let spaced = joined(words(a), seq![' ']);
    lemma_joined_tidy(words(a));
    lemma_undotted(spaced);
    let n = undotted(spaced).len() as int;
    lemma_tidy_prefix(spaced, n);
    lemma_trimmed_end(undotted(spaced));
    assert forall|i: int| 0 <= i < sanitized(s).len() implies !is_forbidden(
        #[trigger] sanitized(s)[i],
    ) && !is_control_char(sanitized(s)[i]) by {
        assert(sanitized(s)[i] == spaced[i]);
    }
}

/// The words of a tidy text, separated by single spaces, are the text again.
proof fn lemma_tidy_words(s: Seq<char>)
    requires
        tidy(s),
    ensures
        joined(words(s), seq![' ']) == s,
    decreases s.len(),
{
    if s.len() == 0 {
        assert(words(s) =~= Seq::empty());
        assert(s =~= Seq::<char>::empty());
    } else {
        assert(!is_space(s[0]));
        assert(trimmed_start(s) == s);
        lemma_word_len(s);
        let n = word_len(s) as int;
        let first = s.take(n);
        let rest = s.skip(n);
        assert(words(s) == seq![first] + words(rest));
        if n == s.len() {
            assert(rest =~= Seq::empty());
            assert(trimmed_start(rest) == rest);
            assert(words(rest) =~= Seq::empty());
            assert(words(s) =~= seq![first]);
            assert(first =~= s);
        } else {
            assert(is_space(s[n]));
            assert(s[n] == ' ' && !is_space(s[n + 1]));
            let tail = s.skip(n + 1);
            assert(rest.skip(1) =~= tail);
            assert(rest[0] == s[n]);
            assert(tail[0] == s[n + 1]);
            assert(trimmed_start(tail) == tail);
            assert(trimmed_start(rest) == tail);
            assert(words(rest) == words(tail));
            assert(tidy(tail)) by {
                assert forall|i: int| 0 <= i < tail.len() && is_space(#[trigger] tail[i]) implies
                    tail[i] == ' ' && 0 < i < tail.len() - 1 && !is_space(tail[i + 1]) by {
                    assert(tail[i] == s[n + 1 + i]);
                    if i < tail.len() - 1 {
                        assert(tail[i + 1] == s[n + 1 + i + 1]);
                    }
                }
            }
            lemma_tidy_words(tail);
            lemma_joined_cons(first, words(tail), seq![' ']);
            assert(first + seq![' '] + tail =~= s);
        }
    }
}

/// A clean name that does not end with a dot is already sanitized.
proof fn lemma_clean_is_sanitized(s: Seq<char>)
    requires
        allowed_only(s),
        tidy(s),
        s.len() > 0 ==> s.last() != '.',
    ensures
        sanitized(s) == s,
{
    lemma_filter_keeps_all(s);
    assert(allowed(s) =~= s);
    lemma_tidy_words(s);
    if s.len() > 0 && is_space(s.last()) {
        assert(is_space(s[s.len() - 1]));
    }
}

proof fn lemma_filter_keeps_all(s: Seq<char>)
    requires
        allowed_only(s),
    ensures
        s.filter(|c: char| !is_forbidden(c)) == s,
    decreases s.len(),
{
    reveal(Seq::filter);
    if s.len() > 0 {
        let front = s.drop_last();
        assert(allowed_only(front)) by {
            assert forall|i: int| 0 <= i < front.len() implies !is_forbidden(#[trigger] front[i])
                && !is_control_char(front[i]) by {
                assert(front[i] == s[i]);
            }
        }
        lemma_filter_keeps_all(front);
        assert(!is_forbidden(s[s.len() - 1]));
        assert(front.push(s.last()) =~= s);
    }
}

/// To sanitize a name twice is to sanitize it once, where the result does not end with a dot.
pub proof fn law_sanitize_twice(s: Seq<char>)
    requires
        sanitized(s).len() > 0 ==> sanitized(s).last() != '.',
    ensures
        sanitized(sanitized(s)) == sanitized(s),
{
    law_sanitized_is_clean(s);
    lemma_clean_is_sanitized(sanitized(s));
}

/// A file name holds only characters that are allowed in file names, whatever the title and the
/// affixes hold.
pub proof fn law_file_name_is_clean(
    title: Seq<char>,
    names: NameConfiguration,
    matching: Seq<bool>,
)
    ensures
        allowed_only(name_given(title, names, matching)),
        tidy(name_given(title, names, matching)),
{
    let base = base_name(title, texts(names.strip@));
    law_sanitized_is_clean(
        prefixes(names.affixes@, matching) + base + suffixes(names.affixes@, matching),
    );
}

/// Where nothing is left of the title itself, the affixes are dropped with it.
pub proof fn law_empty_base_drops_affixes(
    title: Seq<char>,
    names: NameConfiguration,
    matching: Seq<bool>,
)
    requires
        base_name(title, texts(names.strip@)).len() == 0,
    ensures
        name_given(title, names, matching).len() == 0,
{
}

/// Where no affix rule matches, the name stays as it was (unless it ends with a dot, which is
/// then removed).
pub proof fn law_no_affix_keeps_name(
    title: Seq<char>,
    names: NameConfiguration,
    matching: Seq<bool>,
)
    requires
        matching.len() == names.affixes@.len(),
        forall|i: int| 0 <= i < matching.len() ==> !matching[i],
        base_name(title, texts(names.strip@)).len() > 0 ==> base_name(
            title,
            texts(names.strip@),
        ).last() != '.',
    ensures
        name_given(title, names, matching) == base_name(title, texts(names.strip@)),
{
    let base = base_name(title, texts(names.strip@));
    lemma_no_affixes(names.affixes@, matching);
    assert(Seq::<char>::empty() + base + Seq::<char>::empty() =~= base);
    law_sanitize_twice(
        without_all(until(undated(trimmed(title)), '|'), texts(names.strip@)),
    );
    if base.len() == 0 {
        assert(base =~= Seq::<char>::empty());
    }
}

proof fn lemma_no_affixes(affixes: Seq<Affix>, matching: Seq<bool>)
    requires
        affixes.len() <= matching.len(),
        forall|i: int| 0 <= i < matching.len() ==> !matching[i],
    ensures
        prefixes(affixes, matching) == Seq::<char>::empty(),
        suffixes(affixes, matching) == Seq::<char>::empty(),
    decreases affixes.len(),
{
    if affixes.len() > 0 {
        lemma_no_affixes(affixes.drop_last(), matching);
        assert(Seq::<char>::empty() + Seq::<char>::empty() =~= Seq::<char>::empty());
    }
}

/// The affixes of the rules that match stand in the order of the rules.
pub proof fn law_affixes_keep_their_order(
    first: Seq<Affix>,
    second: Seq<Affix>,
    first_matching: Seq<bool>,
    second_matching: Seq<bool>,
)
    requires
        first.len() == first_matching.len(),
        second.len() == second_matching.len(),
    ensures
        prefixes(first + second, first_matching + second_matching) == prefixes(
            first,
            first_matching,
        ) + prefixes(second, second_matching),
        suffixes(first + second, first_matching + second_matching) == suffixes(
            first,
            first_matching,
        ) + suffixes(second, second_matching),
    decreases second.len(),
{
    let all = first + second;
    let matching = first_matching + second_matching;
    if second.len() == 0 {
        assert(all =~= first);
        assert(matching =~= first_matching);
        assert(prefixes(first, first_matching) + Seq::<char>::empty() =~= prefixes(
            first,
            first_matching,
        ));
        assert(suffixes(first, first_matching) + Seq::<char>::empty() =~= suffixes(
            first,
            first_matching,
        ));
    } else {
        let front = second.drop_last();
        let front_matching = second_matching.drop_last();
        law_affixes_keep_their_order(first, front, first_matching, front_matching);
        assert(all.drop_last() =~= first + front);
        lemma_later_rules_do_not_count(first + front, first_matching + front_matching, matching);
        lemma_later_rules_do_not_count(front, front_matching, second_matching);
        assert(all.last() == second.last());
        assert(matching[all.len() - 1] == second_matching[second.len() - 1]);
        assert(prefixes(all, matching) =~= prefixes(first, first_matching) + prefixes(
            second,
            second_matching,
        ));
        assert(suffixes(all, matching) =~= suffixes(first, first_matching) + suffixes(
            second,
            second_matching,
        ));
    }
}

/// Whether later rules match does not show in the affixes of earlier ones.
proof fn lemma_later_rules_do_not_count(
    affixes: Seq<Affix>,
    matching: Seq<bool>,
    longer: Seq<bool>,
)
    requires
        affixes.len() <= matching.len() <= longer.len(),
        forall|i: int| 0 <= i < affixes.len() ==> matching[i] == longer[i],
    ensures
        prefixes(affixes, matching) == prefixes(affixes, longer),
        suffixes(affixes, matching) == suffixes(affixes, longer),
    decreases affixes.len(),
{
    if affixes.len() > 0 {
        lemma_later_rules_do_not_count(affixes.drop_last(), matching, longer);
        assert(matching[affixes.len() - 1] == longer[affixes.len() - 1]);
    }
}

/// A term that does not occur, ignoring ASCII case, leaves the text as it is.
pub proof fn law_absent_term_removes_nothing(s: Seq<char>, t: Seq<char>)
    requires
        !occurs(lower_ascii(s), lower_ascii(t)),
    ensures
        without(s, t) == s,
    decreases s.len(),
{
    if t.len() > 0 && s.len() >= t.len() {
        let ls = lower_ascii(s);
        let lt = lower_ascii(t);
        assert(ls.subrange(0, lt.len() as int) =~= lower_ascii(s.take(t.len() as int)));
        assert(!occurs_at(ls, lt, 0));
        let rest = s.skip(1);
        assert(!occurs(lower_ascii(rest), lt)) by {
            if occurs(lower_ascii(rest), lt) {
                let i = choose|i: int| occurs_at(lower_ascii(rest), lt, i);
                assert(ls.subrange(i + 1, i + 1 + lt.len()) =~= lower_ascii(rest).subrange(
                    i,
                    i + lt.len(),
                ));
                assert(occurs_at(ls, lt, i + 1));
            }
        }
        law_absent_term_removes_nothing(rest, t);
        assert(seq![s[0]] + rest =~= s);
    }
}

/// A term that occurs, ignoring ASCII case, shortens the text by at least its own length.
pub proof fn law_present_term_is_removed(s: Seq<char>, t: Seq<char>)
    requires
        t.len() > 0,
        occurs(lower_ascii(s), lower_ascii(t)),
    ensures
        without(s, t).len() + t.len() <= s.len(),
    decreases s.len(),
{
    let ls = lower_ascii(s);
    let lt = lower_ascii(t);
    let i = choose|i: int| occurs_at(ls, lt, i);
    assert(occurs_at(ls, lt, i));
    let n = t.len() as int;
    if lower_ascii(s.take(n)) == lt {
        lemma_without_is_shorter(s.skip(n), t);
    } else {
        assert(ls.subrange(0, n) =~= lower_ascii(s.take(n)));
        let rest = s.skip(1);
        assert(lower_ascii(rest).subrange(i - 1, i - 1 + n) =~= ls.subrange(i, i + n));
        assert(occurs_at(lower_ascii(rest), lt, i - 1));
        law_present_term_is_removed(rest, t);
    }
}

proof fn lemma_without_is_shorter(s: Seq<char>, t: Seq<char>)
    ensures
        without(s, t).len() <= s.len(),
    decreases s.len(),
{
    if t.len() > 0 && s.len() >= t.len() {
        if lower_ascii(s.take(t.len() as int)) == lower_ascii(t) {
            lemma_without_is_shorter(s.skip(t.len() as int), t);
        } else {
            lemma_without_is_shorter(s.skip(1), t);
        }
    }
}

/// The ASCII case of a term does not matter for what it removes.
pub proof fn law_removal_ignores_ascii_case(s: Seq<char>, t: Seq<char>, u: Seq<char>)
    requires
        lower_ascii(t) == lower_ascii(u),
    ensures
        without(s, t) == without(s, u),
    decreases s.len(),
{
    assert(lower_ascii(t).len() == t.len());
    assert(lower_ascii(u).len() == u.len());
    if t.len() > 0 && s.len() >= t.len() {
        law_removal_ignores_ascii_case(s.skip(t.len() as int), t, u);
        law_removal_ignores_ascii_case(s.skip(1), t, u);
    }
}

/// `s` is a date: `YYYY-MM-DD`.
pub open spec fn is_date(s: Seq<char>) -> bool {
    s.len() == 10 && forall|i: int|
        #![trigger s[i]]
        0 <= i < 10 ==> if i == 4 || i == 7 {
            s[i] == '-'
        } else {
            is_digit(s[i])
        }
}

/// A leading date is removed, together with ` - ` behind it.
pub proof fn law_leading_date_is_removed(date: Seq<char>, rest: Seq<char>)
    requires
        is_date(date),
    ensures
        undated(date + seq![' ', '-', ' '] + rest) == trimmed_start(rest),
        !(trimmed_start(rest).len() > 0 && trimmed_start(rest)[0] == '-') ==> undated(
            date + seq![' '] + rest,
        ) == trimmed_start(rest),
{
    let a = date + seq![' ', '-', ' '] + rest;
    assert forall|i: int| 0 <= i < 10 implies #[trigger] a[i] == date[i] by {}
    assert(has_date(a));
    let t = a.skip(10);
    assert(t[0] == ' ' && t[1] == '-' && t[2] == ' ');
    assert(t.skip(1)[0] == '-');
    assert(trimmed_start(t.skip(1)) == t.skip(1));
    assert(trimmed_start(t) == t.skip(1));
    let u = t.skip(1).skip(1);
    assert(u[0] == ' ');
    assert(u.skip(1) =~= rest);
    assert(trimmed_start(u) == trimmed_start(rest));
    let b = date + seq![' '] + rest;
    assert forall|i: int| 0 <= i < 10 implies #[trigger] b[i] == date[i] by {}
    assert(has_date(b));
    assert(b.skip(10)[0] == ' ');
    assert(b.skip(10).skip(1) =~= rest);
}

/// A title that does not begin with a date and whitespace keeps its beginning.
pub proof fn law_undated_title_is_kept(title: Seq<char>)
    requires
        !has_date(title),
    ensures
        undated(title) == title,
{
}

proof fn lemma_trimmed_start_add(a: Seq<char>, b: Seq<char>)
    requires
        trimmed_start(a).len() > 0,
    ensures
        trimmed_start(a + b) == trimmed_start(a) + b,
    decreases a.len(),
{
    assert((a + b)[0] == a[0]);
    if is_space(a[0]) {
        assert((a + b).skip(1) =~= a.skip(1) + b);
        lemma_trimmed_start_add(a.skip(1), b);
    }
}

proof fn lemma_trimmed_end_add(a: Seq<char>, b: Seq<char>)
    requires
        a.len() > 0,
        !is_space(a.last()),
    ensures
        trimmed_end(a + b) == a + trimmed_end(b),
    decreases b.len(),
{
    if b.len() == 0 {
        assert(a + b =~= a);
        assert(a + trimmed_end(b) =~= a);
    } else {
        assert((a + b).last() == b.last());
        if is_space(b.last()) {
            assert((a + b).drop_last() =~= a + b.drop_last());
            lemma_trimmed_end_add(a, b.drop_last());
        }
    }
}

proof fn lemma_until_add(a: Seq<char>, b: Seq<char>, c: char)
    requires
        a.len() > 0,
        a.last() == c,
    ensures
        until(a + b, c) == until(a, c),
{
    lemma_find_add(a, b, c);
    lemma_find(a, c);
    assert(until(a + b, c) =~= until(a, c));
}

proof fn lemma_find_add(a: Seq<char>, b: Seq<char>, c: char)
    requires
        a.len() > 0,
        a.last() == c,
    ensures
        find(a + b, c) == find(a, c),
    decreases a.len(),
{
    assert((a + b)[0] == a[0]);
    if a[0] != c {
        assert((a + b).skip(1) =~= a.skip(1) + b);
        assert(a.skip(1).last() == c);
        lemma_find_add(a.skip(1), b, c);
    }
}

proof fn lemma_trimmed_start_last(a: Seq<char>)
    requires
        a.len() > 0,
        !is_space(a.last()),
    ensures
        trimmed_start(a).len() > 0,
        trimmed_start(a).last() == a.last(),
    decreases a.len(),
{
    if is_space(a[0]) {
        assert(a.skip(1).last() == a.last());
        lemma_trimmed_start_last(a.skip(1));
    }
}

/// What stands behind a `|` does not show in the part of the name that stems from the title.
pub proof fn law_text_behind_bar_is_ignored(
    heading: Seq<char>,
    x: Seq<char>,
    y: Seq<char>,
    strip: Seq<Seq<char>>,
)
    ensures
        base_name(heading + seq!['|'] + x, strip) == base_name(heading + seq!['|'] + y, strip),
{
    lemma_behind_bar(heading, x);
    lemma_behind_bar(heading, y);
}

/// The part of a trimmed title in front of a `|` is the same with and without what follows.
proof fn lemma_behind_bar(heading: Seq<char>, x: Seq<char>)
    ensures
        until(undated(trimmed(heading + seq!['|'] + x)), '|') == until(
            undated(trimmed(heading + seq!['|'])),
            '|',
        ),
{
    let a = heading + seq!['|'];
    assert(a.last() == '|');
    lemma_trimmed_start_last(a);
    lemma_trimmed_start_add(a, x);
    let p = trimmed_start(a);
    let e = trimmed_end(x);
    lemma_trimmed_end_add(p, x);
    assert(trimmed(a + x) == p + e);
    assert(trimmed(a) == p);
    lemma_undated_add(p, e);
}

proof fn lemma_undated_add(p: Seq<char>, e: Seq<char>)
    requires
        p.len() > 0,
        p.last() == '|',
    ensures
        until(undated(p + e), '|') == until(undated(p), '|'),
{
    let w = p + e;
    assert forall|i: int| 0 <= i < p.len() implies #[trigger] w[i] == p[i] by {}
    if p.len() <= 11 {
        assert(w[p.len() - 1] == '|');
        assert(!has_date(w));
        assert(!has_date(p));
        lemma_until_add(p, e, '|');
    } else {
        assert(has_date(w) == has_date(p)) by {
            if has_date(w) {
                assert forall|i: int| #![trigger p[i]] 0 <= i < 10 implies if i == 4 || i == 7 {
                    p[i] == '-'
                } else {
                    is_digit(p[i])
                } by {
                    assert(w[i] == p[i]);
                }
            }
            if has_date(p) {
                assert forall|i: int| #![trigger w[i]] 0 <= i < 10 implies if i == 4 || i == 7 {
                    w[i] == '-'
                } else {
                    is_digit(w[i])
                } by {
                    assert(w[i] == p[i]);
                }
            }
        }
        if !has_date(p) {
            lemma_until_add(p, e, '|');
        } else {
            let q = p.skip(10);
            assert(w.skip(10) =~= q + e);
            assert(q.last() == '|');
            lemma_trimmed_start_last(q);
            lemma_trimmed_start_add(q, e);
            let r = trimmed_start(q);
            assert((r + e)[0] == r[0]);
            if r[0] == '-' {
                let t = r.skip(1);
                assert(t.len() > 0) by {
                    assert(r.last() == '|');
                }
                assert((r + e).skip(1) =~= t + e);
                assert(t.last() == '|');
                lemma_trimmed_start_last(t);
                lemma_trimmed_start_add(t, e);
                lemma_until_add(trimmed_start(t), e, '|');
            } else {
                lemma_until_add(r, e, '|');
            }
        }
    }
}

} // verus!
