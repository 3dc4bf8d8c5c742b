//! How a title becomes a file name, step by step.
use vstd::prelude::*;

use crate::names::{
    allowed, base_name, has_date, is_forbidden, matching_affixes, name_given, name_of, prefixes,
    sanitized, suffixes, undated, undotted, visible, without, without_all, Affix, NameConfiguration,
};
use crate::text::{
    is_control_char, is_space, joined, lacks, lower_ascii, texts, trimmed, words,
};
use crate::text_laws::{
    law_first_occurrence_is_found, law_trimmed_at_the_end, law_trimmed_in_front,
};

verus! {

/// A title has a date if and only if it begins with four digits, a hyphen, two digits, a hyphen,
/// two digits, and whitespace.
pub proof fn law_date_is_four_two_and_two_digits(s: Seq<char>)
    ensures
        has_date(s) <==> {
            &&& s.len() > 10
            &&& '0' <= s[0] <= '9' && '0' <= s[1] <= '9' && '0' <= s[2] <= '9' && '0' <= s[3] <= '9'
            &&& s[4] == '-'
            &&& '0' <= s[5] <= '9' && '0' <= s[6] <= '9'
            &&& s[7] == '-'
            &&& '0' <= s[8] <= '9' && '0' <= s[9] <= '9'
            &&& is_space(s[10])
        },
{
    if has_date(s) {
        assert(s[0] == s[0] && s[1] == s[1] && s[2] == s[2] && s[3] == s[3] && s[4] == s[4]);
        assert(s[5] == s[5] && s[6] == s[6] && s[7] == s[7] && s[8] == s[8] && s[9] == s[9]);
    }
}

/// The date and the whitespace behind it are removed, and one hyphen with the whitespace behind it,
/// where there is one. What follows is kept.
pub proof fn law_what_follows_the_date_is_kept(
    date: Seq<char>,
    space: Seq<char>,
    more_space: Seq<char>,
    rest: Seq<char>,
)
    requires
        date.len() == 10,
        space.len() > 0,
        has_date(date + space),
        forall|i: int| 0 <= i < space.len() ==> is_space(#[trigger] space[i]),
        forall|i: int| 0 <= i < more_space.len() ==> is_space(#[trigger] more_space[i]),
        rest.len() > 0 ==> !is_space(rest[0]),
    ensures
        undated(date + space + seq!['-'] + more_space + rest) == rest,
        rest.len() > 0 ==> rest[0] != '-' ==> undated(date + space + rest) == rest,
        rest.len() == 0 ==> undated(date + space + rest) == rest,
{
    let stem = date + space;
    let behind = seq!['-'] + more_space + rest;
    let s = date + space + seq!['-'] + more_space + rest;
    assert forall|i: int| 0 <= i < 11 implies #[trigger] s[i] == stem[i] by {}
    law_date_is_four_two_and_two_digits(stem);
    law_date_is_four_two_and_two_digits(s);
    assert(s.skip(10) =~= space + behind);
    assert(behind[0] == '-');
    law_trimmed_in_front(space, behind);
    assert(behind.skip(1) =~= more_space + rest);
    law_trimmed_in_front(more_space, rest);
    let t = date + space + rest;
    assert forall|i: int| 0 <= i < 11 implies #[trigger] t[i] == stem[i] by {}
    law_date_is_four_two_and_two_digits(t);
    assert(t.skip(10) =~= space + rest);
    law_trimmed_in_front(space, rest);
}

/// The first occurrence of a term, ignoring ASCII case, is removed, and then those in the text
/// behind it. The text in front of it is kept.
pub proof fn law_occurrences_are_removed_from_the_left(s: Seq<char>, t: Seq<char>, i: int)
    requires
        t.len() > 0,
        0 <= i,
        i + t.len() <= s.len(),
        lower_ascii(s.subrange(i, i + t.len())) == lower_ascii(t),
        forall|k: int|
            0 <= k < i ==> lower_ascii(#[trigger] s.subrange(k, k + t.len())) != lower_ascii(t),
    ensures
        without(s, t) == s.take(i) + without(s.skip(i + t.len()), t),
        without(s, Seq::empty()) == s,
    decreases i,
{
    let n = t.len() as int;
    assert(s.subrange(0, n) =~= s.take(n));
    if i == 0 {
        assert(s.take(0) + without(s.skip(n), t) =~= without(s.skip(n), t));
    } else {
        assert(lower_ascii(s.subrange(0, 0 + n)) != lower_ascii(t));
        let rest = s.skip(1);
        assert(rest.subrange(i - 1, i - 1 + n) =~= s.subrange(i, i + n));
        assert forall|k: int| 0 <= k < i - 1 implies lower_ascii(
            #[trigger] rest.subrange(k, k + t.len()),
        ) != lower_ascii(t) by {
            assert(rest.subrange(k, k + n) =~= s.subrange(k + 1, k + 1 + t.len()));
        }
        law_occurrences_are_removed_from_the_left(rest, t, i - 1);
        assert(rest.skip(i - 1 + n) =~= s.skip(i + n));
        assert(seq![s[0]] + (rest.take(i - 1) + without(s.skip(i + n), t)) =~= s.take(i) + without(
            s.skip(i + n),
            t,
        ));
    }
}

/// Every term of the list is removed, one after the other: no term removes nothing, one term
/// removes its occurrences, and two lists remove what the second one removes from what the first
/// one leaves.
pub proof fn law_every_term_is_removed(
    s: Seq<char>,
    term: Seq<char>,
    first: Seq<Seq<char>>,
    second: Seq<Seq<char>>,
)
    ensures
        without_all(s, Seq::empty()) == s,
        without_all(s, seq![term]) == without(s, term),
        without_all(s, first + second) == without_all(without_all(s, first), second),
    decreases second.len(),
{
    let none = Seq::<Seq<char>>::empty();
    assert(without_all(s, none) == s);
    assert(seq![term].drop_last() =~= none);
    let all = first + second;
    if second.len() == 0 {
        assert(all =~= first);
    } else {
        assert(all.drop_last() =~= first + second.drop_last());
        law_every_term_is_removed(s, term, first, second.drop_last());
    }
}

/// A term is removed from what the terms in front of it leave, and what is left goes on to the
/// terms behind it, wherever the term stands in the list.
pub proof fn law_term_is_removed_wherever_it_stands(s: Seq<char>, terms: Seq<Seq<char>>, i: int)
    requires
        0 <= i < terms.len(),
    ensures
        without_all(s, terms) == without_all(
            without(without_all(s, terms.take(i)), terms[i]),
            terms.skip(i + 1),
        ),
{
    let front = terms.take(i);
    let rest = terms.skip(i + 1);
    law_every_term_is_removed(s, terms[i], front, seq![terms[i]] + rest);
    assert(front + (seq![terms[i]] + rest) =~= terms);
    law_every_term_is_removed(without_all(s, front), terms[i], seq![terms[i]], rest);
}

/// The characters of a name are treated one by one: nine are dropped, control characters become
/// spaces, and all others stay.
pub proof fn law_characters_are_treated_one_by_one(c: char, first: Seq<char>, second: Seq<char>)
    ensures
        allowed(Seq::empty()) == Seq::<char>::empty(),
        allowed(first + second) == allowed(first) + allowed(second),
        c == '<' || c == '>' || c == ':' || c == '"' || c == '/' || c == '\\' || c == '|' || c
            == '?' || c == '*' ==> allowed(seq![c]) == Seq::<char>::empty(),
        is_control_char(c) ==> allowed(seq![c]) == seq![' '],
        !is_control_char(c) && c != '<' && c != '>' && c != ':' && c != '"' && c != '/' && c != '\\'
            && c != '|' && c != '?' && c != '*' ==> allowed(seq![c]) == seq![c],
        is_control_char(c) <==> c as u32 <= 0x1f || 0x7f <= c as u32 <= 0x9f,
{
    reveal(Seq::filter);
    let keep = |c: char| !is_forbidden(c);
    let show = |c: char| visible(c);
    let nothing = Seq::<char>::empty();
    assert(nothing.filter(keep) =~= nothing);
    assert(allowed(nothing) =~= nothing);
    assert(seq![c].drop_last() =~= nothing);
    if is_forbidden(c) {
        assert(seq![c].filter(keep) =~= nothing);
        assert(allowed(seq![c]) =~= nothing);
    } else {
        assert(seq![c].filter(keep) =~= seq![c]);
        assert(allowed(seq![c]) =~= seq![visible(c)]);
    }
    lemma_filter_add(first, second);
    assert((first.filter(keep) + second.filter(keep)).map_values(show) =~= allowed(first) + allowed(
        second,
    ));
}

proof fn lemma_filter_add(first: Seq<char>, second: Seq<char>)
    ensures
        (first + second).filter(|c: char| !is_forbidden(c)) == first.filter(
            |c: char| !is_forbidden(c),
        ) + second.filter(|c: char| !is_forbidden(c)),
    decreases second.len(),
{
    reveal(Seq::filter);
    let keep = |c: char| !is_forbidden(c);
    let all = first + second;
    if second.len() == 0 {
        assert(all =~= first);
        assert(first.filter(keep) + second.filter(keep) =~= first.filter(keep));
    } else {
        assert(all.drop_last() =~= first + second.drop_last());
        assert(all.last() == second.last());
        lemma_filter_add(first, second.drop_last());
        assert(all.filter(keep) =~= first.filter(keep) + second.filter(keep));
    }
}

/// The dots at the end of a text are taken away, all of them, and nothing else.
pub proof fn law_dots_at_the_end_are_removed(s: Seq<char>, dots: Seq<char>)
    requires
        forall|i: int| 0 <= i < dots.len() ==> #[trigger] dots[i] == '.',
        s.len() > 0 ==> s.last() != '.',
    ensures
        undotted(s + dots) == s,
    decreases dots.len(),
{
    if dots.len() == 0 {
        assert(s + dots =~= s);
    } else {
        assert((s + dots).last() == dots[dots.len() - 1]);
        assert((s + dots).drop_last() =~= s + dots.drop_last());
        assert forall|i: int| 0 <= i < dots.drop_last().len() implies #[trigger] dots.drop_last()[i]
            == '.' by {
            assert(dots.drop_last()[i] == dots[i]);
        }
        law_dots_at_the_end_are_removed(s, dots.drop_last());
    }
}

/// A name is its words, of the characters that are allowed, with one space between them, without
/// the dots at the end and then without the whitespace at the end.
pub proof fn law_name_is_its_words(s: Seq<char>, name: Seq<char>, space: Seq<char>, dots: Seq<char>)
    requires
        joined(words(allowed(s)), seq![' ']) == name + space + dots,
        forall|i: int| 0 <= i < dots.len() ==> #[trigger] dots[i] == '.',
        forall|i: int| 0 <= i < space.len() ==> is_space(#[trigger] space[i]),
        name.len() > 0 ==> !is_space(name.last()),
        name.len() > 0 && space.len() == 0 ==> name.last() != '.',
    ensures
        sanitized(s) == name,
{
    let front = name + space;
    if space.len() > 0 {
        assert(front.last() == space[space.len() - 1]);
    } else {
        assert(front =~= name);
    }
    law_dots_at_the_end_are_removed(front, dots);
    law_trimmed_at_the_end(name, space);
}

/// The part of the name that stems from the title is what stands in front of the first `|` of the
/// title without its date, without the terms, as a file name.
pub proof fn law_base_stands_in_front_of_the_bar(
    title: Seq<char>,
    heading: Seq<char>,
    rest: Seq<char>,
    strip: Seq<Seq<char>>,
)
    requires
        lacks(heading, '|'),
        undated(trimmed(title)) == heading || undated(trimmed(title)) == heading + seq!['|'] + rest,
    ensures
        base_name(title, strip) == sanitized(without_all(heading, strip)),
{
    law_first_occurrence_is_found(heading, '|', rest);
}

/// The affixes of a rule are added if the rule matches, and nothing is added if it does not.
pub proof fn law_rule_adds_its_affixes(affix: Affix)
    ensures
        prefixes(Seq::empty(), Seq::empty()) == Seq::<char>::empty(),
        suffixes(Seq::empty(), Seq::empty()) == Seq::<char>::empty(),
        prefixes(seq![affix], seq![true]) == affix.prefix@,
        suffixes(seq![affix], seq![true]) == affix.suffix@,
        prefixes(seq![affix], seq![false]) == Seq::<char>::empty(),
        suffixes(seq![affix], seq![false]) == Seq::<char>::empty(),
{
    let one = seq![affix];
    assert(one.drop_last() =~= Seq::<Affix>::empty());
    let nothing = Seq::<char>::empty();
    assert(prefixes(one.drop_last(), seq![true]) == nothing);
    assert(suffixes(one.drop_last(), seq![true]) == nothing);
    assert(prefixes(one.drop_last(), seq![false]) == nothing);
    assert(suffixes(one.drop_last(), seq![false]) == nothing);
    assert(nothing + affix.prefix@ =~= affix.prefix@);
    assert(nothing + affix.suffix@ =~= affix.suffix@);
    assert(nothing + nothing =~= nothing);
}

/// The prefixes stand in front of what stems from the title and the suffixes behind it, without a
/// separator, unless nothing stems from the title.
pub proof fn law_affixes_stand_around_the_base(
    title: Seq<char>,
    names: NameConfiguration,
    matching: Seq<bool>,
    base: Seq<char>,
    front: Seq<char>,
    behind: Seq<char>,
)
    requires
        base == base_name(title, texts(names.strip@)),
        front == prefixes(names.affixes@, matching),
        behind == suffixes(names.affixes@, matching),
    ensures
        base.len() > 0 ==> name_given(title, names, matching) == sanitized(front + base + behind),
        base.len() == 0 ==> name_given(title, names, matching) == Seq::<char>::empty(),
{
}

/// The rules that count are those whose filter accepts the full title, without the whitespace
/// around it: the name for a title is the name with exactly these rules.
pub proof fn law_rules_match_the_full_title(
    title: Seq<char>,
    names: NameConfiguration,
    matching: Seq<bool>,
)
    requires
        matching.len() == names.affixes@.len(),
        forall|i: int|
            0 <= i < matching.len() ==> #[trigger] matching[i]
                == names.affixes@[i].filter.accepts(trimmed(title)),
    ensures
        matching_affixes(names.affixes@, title) == matching,
        name_of(title, names) == name_given(title, names, matching),
{
    assert(matching_affixes(names.affixes@, title) =~= matching);
}

} // verus!
