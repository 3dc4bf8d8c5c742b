//! What holds of all character sequences.
use vstd::prelude::*;

use crate::text::{
    begins, decimal, ends, find, is_space, joined, lacks, lemma_find, lemma_joined_cons,
    lemma_trimmed_end, lemma_trimmed_start, lemma_word_len, lower_ascii, occurs, occurs_at,
    optional_text, pieces, texts, trimmed, trimmed_end, trimmed_start, until, word_len, words,
};

verus! {

/// A list of strings has one text for each of them, in order.
pub proof fn law_texts_are_those_of_the_strings(strings: Seq<String>)
    ensures
        texts(strings).len() == strings.len(),
        forall|i: int| 0 <= i < strings.len() ==> (#[trigger] texts(strings)[i]) == strings[i]@,
{
}

/// A string that is there has its text, and one that is missing has none.
pub proof fn law_optional_text_is_that_of_the_string(text: Option<String>)
    ensures
        text is None <==> optional_text(text) is None,
        text is Some ==> optional_text(text) == Some(text->0@),
{
}

/// Lower case changes the letters `A` to `Z`, each into the letter 32 places on, and nothing else.
pub proof fn law_lower_case_changes_upper_case_letters(s: Seq<char>)
    ensures
        lower_ascii(s).len() == s.len(),
        forall|i: int|
            0 <= i < s.len() ==> (#[trigger] lower_ascii(s)[i]) as u32 == s[i] as u32 + if 'A'
                <= s[i] <= 'Z' {
                32int
            } else {
                0
            },
{
}

/// A text occurs in another one if and only if the other one is something, the text, and something.
pub proof fn law_occurrence_splits_the_text(s: Seq<char>, t: Seq<char>)
    ensures
        occurs(s, t) <==> exists|a: Seq<char>, b: Seq<char>| s == #[trigger] (a + t + b),
{
    if occurs(s, t) {
        let i = choose|i: int| occurs_at(s, t, i);
        let a = s.take(i);
        let b = s.skip(i + t.len());
        assert(s.subrange(i, i + t.len()) == t);
        assert(s =~= a + t + b);
    }
    if exists|a: Seq<char>, b: Seq<char>| s == #[trigger] (a + t + b) {
        let (a, b) = choose|a: Seq<char>, b: Seq<char>| s == #[trigger] (a + t + b);
        assert(s.subrange(a.len() as int, a.len() as int + t.len()) =~= t);
        assert(occurs_at(s, t, a.len() as int));
    }
}

/// A text begins with what stands in front of the rest, and ends with what stands behind it.
pub proof fn law_beginning_and_end(s: Seq<char>, t: Seq<char>)
    ensures
        begins(s, t) <==> exists|b: Seq<char>| s == #[trigger] (t + b),
        ends(s, t) <==> exists|a: Seq<char>| s == #[trigger] (a + t),
{
    if begins(s, t) {
        let b = s.skip(t.len() as int);
        assert(s.subrange(0, t.len() as int) == t);
        assert(s =~= t + b);
    }
    if exists|b: Seq<char>| s == #[trigger] (t + b) {
        let b = choose|b: Seq<char>| s == #[trigger] (t + b);
        assert(s.subrange(0, t.len() as int) =~= t);
    }
    if ends(s, t) {
        let n = s.len() - t.len();
        let a = s.take(n);
        assert(s.subrange(n, n + t.len()) == t);
        assert(s =~= a + t);
    }
    if exists|a: Seq<char>| s == #[trigger] (a + t) {
        let a = choose|a: Seq<char>| s == #[trigger] (a + t);
        assert(s.subrange(s.len() - t.len(), s.len() as int) =~= t);
    }
}

/// To trim a text in front takes whitespace away, and all of it: what is left is the end of the
/// text, and does not begin with whitespace.
pub proof fn law_trimmed_in_front(a: Seq<char>, s: Seq<char>)
    requires
        forall|i: int| 0 <= i < a.len() ==> is_space(#[trigger] a[i]),
        s.len() > 0 ==> !is_space(s[0]),
    ensures
        trimmed_start(a + s) == s,
    decreases a.len(),
{
    if a.len() == 0 {
        assert(a + s =~= s);
    } else {
        assert((a + s)[0] == a[0]);
        assert((a + s).skip(1) =~= a.skip(1) + s);
        assert forall|i: int| 0 <= i < a.skip(1).len() implies is_space(
            #[trigger] a.skip(1)[i],
        ) by {
            assert(a.skip(1)[i] == a[i + 1]);
        }
        law_trimmed_in_front(a.skip(1), s);
    }
}

/// To trim a text at its end takes whitespace away, and all of it: what is left is the beginning of
/// the text, and does not end with whitespace.
pub proof fn law_trimmed_at_the_end(s: Seq<char>, b: Seq<char>)
    requires
        forall|i: int| 0 <= i < b.len() ==> is_space(#[trigger] b[i]),
        s.len() > 0 ==> !is_space(s.last()),
    ensures
        trimmed_end(s + b) == s,
    decreases b.len(),
{
    if b.len() == 0 {
        assert(s + b =~= s);
    } else {
        assert((s + b).last() == b[b.len() - 1]);
        assert((s + b).drop_last() =~= s + b.drop_last());
        assert forall|i: int| 0 <= i < b.drop_last().len() implies is_space(
            #[trigger] b.drop_last()[i],
        ) by {
            assert(b.drop_last()[i] == b[i]);
        }
        law_trimmed_at_the_end(s, b.drop_last());
    }
}

/// A text without whitespace at its ends is what is left of it with whitespace on both sides. Each
/// text is of this form.
pub proof fn law_trimmed_on_both_sides(a: Seq<char>, s: Seq<char>, b: Seq<char>)
    requires
        forall|i: int| 0 <= i < a.len() ==> is_space(#[trigger] a[i]),
        forall|i: int| 0 <= i < b.len() ==> is_space(#[trigger] b[i]),
        s.len() > 0 ==> !is_space(s[0]) && !is_space(s.last()),
    ensures
        trimmed(a + s + b) == s,
{
    if s.len() == 0 {
        let blank = a + s + b;
        assert forall|i: int| 0 <= i < blank.len() implies is_space(#[trigger] blank[i]) by {
            if i < a.len() {
                assert(blank[i] == a[i]);
            } else {
                assert(blank[i] == b[i - a.len()]);
            }
        }
        let nothing = Seq::<char>::empty();
        law_trimmed_in_front(blank, nothing);
        assert(blank + nothing =~= blank);
        law_trimmed_at_the_end(nothing, nothing);
        assert(nothing + nothing =~= nothing);
        assert(s =~= nothing);
    } else {
        assert((s + b)[0] == s[0]);
        law_trimmed_in_front(a, s + b);
        assert(a + (s + b) =~= a + s + b);
        law_trimmed_at_the_end(s, b);
    }
}

/// Each text is whitespace, the trimmed text, and whitespace.
pub proof fn law_only_whitespace_is_trimmed(s: Seq<char>)
    ensures
        exists|a: Seq<char>, b: Seq<char>|
            s == #[trigger] (a + trimmed(s) + b) && (forall|i: int|
                0 <= i < a.len() ==> is_space(#[trigger] a[i])) && (forall|i: int|
                0 <= i < b.len() ==> is_space(#[trigger] b[i])),
        trimmed(s).len() > 0 ==> !is_space(trimmed(s)[0]) && !is_space(trimmed(s).last()),
{
    lemma_trimmed_start(s);
    let m = trimmed_start(s);
    lemma_trimmed_end(m);
    let t = trimmed(s);
    let a = s.take(s.len() - m.len());
    let b = m.skip(t.len() as int);
    assert(s =~= a + t + b);
    assert forall|i: int| 0 <= i < b.len() implies is_space(#[trigger] b[i]) by {
        assert(b[i] == m[i + t.len()]);
    }
}

/// A character is found where it stands for the first time, and the text up to it is what stands in
/// front of it.
pub proof fn law_first_occurrence_is_found(a: Seq<char>, c: char, b: Seq<char>)
    requires
        lacks(a, c),
    ensures
        find(a + seq![c] + b, c) == a.len(),
        until(a + seq![c] + b, c) == a,
        find(a, c) == a.len(),
        until(a, c) == a,
{
    let s = a + seq![c] + b;
    lemma_find(s, c);
    lemma_find(a, c);
    assert(s[a.len() as int] == c);
    let n = find(s, c) as int;
    if n < a.len() {
        assert(s[n] == a[n]);
    }
    assert(s.take(n) =~= a);
    assert(a.take(a.len() as int) =~= a);
}

/// The text in front of a character does not hold it.
pub proof fn law_character_is_lacking(s: Seq<char>, c: char)
    ensures
        lacks(s, c) <==> !s.contains(c),
{
    if s.contains(c) {
        let i = choose|i: int| 0 <= i < s.len() && s[i] == c;
        assert(s[i] == c);
    }
}

/// A text is split at each separator: what stands in front of the first one, and then the pieces of
/// what stands behind it.
pub proof fn law_text_is_split_at_separators(a: Seq<char>, c: char, b: Seq<char>)
    requires
        lacks(a, c),
    ensures
        pieces(a, c) == seq![a],
        pieces(a + seq![c] + b, c) == seq![a] + pieces(b, c),
{
    law_first_occurrence_is_found(a, c, b);
    let s = a + seq![c] + b;
    assert(s.take(a.len() as int) =~= a);
    assert(s.skip(a.len() as int + 1) =~= b);
}

/// The pieces of a text, with the separator between them, are the text again.
pub proof fn law_pieces_make_up_the_text(s: Seq<char>, c: char)
    ensures
        pieces(s, c).len() > 0,
        joined(pieces(s, c), seq![c]) == s,
        forall|i: int| 0 <= i < pieces(s, c).len() ==> lacks(#[trigger] pieces(s, c)[i], c),
    decreases s.len(),
{
    lemma_find(s, c);
    let n = find(s, c) as int;
    if n < s.len() {
        let rest = s.skip(n + 1);
        law_pieces_make_up_the_text(rest, c);
        lemma_joined_cons(s.take(n), pieces(rest, c), seq![c]);
        assert(s.take(n) + seq![c] + rest =~= s);
        assert forall|i: int| 0 <= i < pieces(s, c).len() implies lacks(
            #[trigger] pieces(s, c)[i],
            c,
        ) by {
            if i > 0 {
                assert(pieces(s, c)[i] == pieces(rest, c)[i - 1]);
            }
        }
    } else {
        assert(pieces(s, c) =~= seq![s]);
    }
}

/// Nothing joined is nothing, one text joined is the text, and two lists joined have one separator
/// between them.
pub proof fn law_texts_are_joined(
    first: Seq<Seq<char>>,
    text: Seq<char>,
    second: Seq<Seq<char>>,
    separator: Seq<char>,
)
    requires
        first.len() > 0,
        second.len() > 0,
    ensures
        joined(Seq::empty(), separator) == Seq::<char>::empty(),
        joined(seq![text], separator) == text,
        joined(first + second, separator) == joined(first, separator) + separator + joined(
            second,
            separator,
        ),
    decreases second.len(),
{
    let all = first + second;
    assert(all.drop_last() =~= first + second.drop_last());
    if second.len() > 1 {
        law_texts_are_joined(first, text, second.drop_last(), separator);
        assert(joined(all, separator) =~= joined(first, separator) + separator + joined(
            second,
            separator,
        ));
    } else {
        assert(all.drop_last() =~= first);
    }
}

/// A text without whitespace is one word, and whitespace separates the words in front of it from
/// those behind it.
pub proof fn law_whitespace_separates_words(word: Seq<char>, a: Seq<char>, c: char, b: Seq<char>)
    requires
        word.len() > 0,
        forall|i: int| 0 <= i < word.len() ==> !is_space(#[trigger] word[i]),
        is_space(c),
    ensures
        words(Seq::empty()) == Seq::<Seq<char>>::empty(),
        words(word) == seq![word],
        words(a + seq![c] + b) == words(a) + words(b),
{
    let nothing = Seq::<char>::empty();
    assert(trimmed_start(nothing) == nothing);
    assert(words(nothing) =~= Seq::<Seq<char>>::empty());
    lemma_word_of(word, nothing);
    assert(word + nothing =~= word);
    assert(words(word) =~= seq![word]);
    lemma_words_apart(a, c, b);
}

/// A word at the beginning of a text, followed by whitespace or nothing, is its first word.
proof fn lemma_word_of(word: Seq<char>, rest: Seq<char>)
    requires
        word.len() > 0,
        forall|i: int| 0 <= i < word.len() ==> !is_space(#[trigger] word[i]),
        rest.len() > 0 ==> is_space(rest[0]),
    ensures
        words(word + rest) == seq![word] + words(rest),
{
    let s = word + rest;
    assert(s[0] == word[0]);
    assert(trimmed_start(s) == s);
    lemma_word_len(s);
    let n = word_len(s) as int;
    if n < word.len() {
        assert(s[n] == word[n]);
    }
    if n > word.len() {
        assert(s[word.len() as int] == rest[0]);
    }
    assert(s.take(n) =~= word);
    assert(s.skip(n) =~= rest);
}

proof fn lemma_words_apart(a: Seq<char>, c: char, b: Seq<char>)
    requires
        is_space(c),
    ensures
        words(a + seq![c] + b) == words(a) + words(b),
    decreases a.len(),
{
    let s = a + seq![c] + b;
    if a.len() == 0 {
        assert(s[0] == c);
        assert(s.skip(1) =~= b);
        assert(trimmed_start(s) == trimmed_start(b));
        assert(trimmed_start(a) == a);
        assert(words(a) =~= Seq::<Seq<char>>::empty());
        assert(words(s) == words(b));
        assert(words(a) + words(b) =~= words(b));
    } else if is_space(a[0]) {
        assert(s[0] == a[0]);
        assert(s.skip(1) =~= a.skip(1) + seq![c] + b);
        assert(trimmed_start(s) == trimmed_start(s.skip(1)));
        assert(trimmed_start(a) == trimmed_start(a.skip(1)));
        lemma_words_apart(a.skip(1), c, b);
        assert(words(s) == words(s.skip(1)));
        assert(words(a) == words(a.skip(1)));
    } else {
        lemma_word_len(a);
        let n = word_len(a) as int;
        let word = a.take(n);
        let rest = a.skip(n);
        assert forall|i: int| 0 <= i < word.len() implies !is_space(#[trigger] word[i]) by {
            assert(word[i] == a[i]);
        }
        if rest.len() > 0 {
            assert(rest[0] == a[n]);
        }
        lemma_word_of(word, rest);
        assert(word + rest =~= a);
        let tail = rest + seq![c] + b;
        if rest.len() > 0 {
            assert(tail[0] == rest[0]);
        } else {
            assert(tail[0] == c);
        }
        lemma_word_of(word, tail);
        assert(word + tail =~= s);
        lemma_words_apart(rest, c, b);
        assert(seq![word] + (words(rest) + words(b)) =~= seq![word] + words(rest) + words(b));
    }
}

/// The number that decimal digits stand for.
pub open spec fn number(digits: Seq<char>) -> int
    decreases digits.len(),
{
    if digits.len() == 0 {
        0
    } else {
        10 * number(digits.drop_last()) + (digits.last() as u32 - '0' as u32)
    }
}

/// The decimal digits of a number are digits, do not begin with a zero unless there is only one,
/// and stand for the number.
pub proof fn law_decimal_digits_stand_for_the_number(n: nat)
    ensures
        decimal(n).len() > 0,
        forall|i: int| 0 <= i < decimal(n).len() ==> '0' <= #[trigger] decimal(n)[i] <= '9',
        decimal(n).len() > 1 ==> decimal(n)[0] != '0',
        number(decimal(n)) == n,
    decreases n,
{
    reveal_with_fuel(number, 2);
    if n >= 10 {
        let front = decimal(n / 10);
        law_decimal_digits_stand_for_the_number(n / 10);
        assert(decimal(n).drop_last() =~= front);
        assert(decimal(n)[0] == front[0]);
        if front.len() == 1 {
            assert(number(front) == n / 10);
            assert(front.drop_last() =~= Seq::<char>::empty());
        }
        assert forall|i: int| 0 <= i < decimal(n).len() implies '0' <= #[trigger] decimal(n)[i]
            <= '9' by {
            if i < front.len() {
                assert(decimal(n)[i] == front[i]);
            }
        }
    } else {
        assert(decimal(n).drop_last() =~= Seq::<char>::empty());
    }
}

} // verus!
