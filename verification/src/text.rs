//! Character sequences: searching, trimming, splitting and joining.
use vstd::prelude::*;
use vstd::string::StringExecFns;

verus! {

/// `String::push` appends one character at the end.
pub assume_specification[ String::push ](text: &mut String, c: char)
    ensures
        final(text)@ == old(text)@.push(c),
;

/// The texts of a list of strings.
pub open spec fn texts(strings: Seq<String>) -> Seq<Seq<char>> {
    strings.map_values(|s: String| s@)
}

/// The text of an optional string.
pub open spec fn optional_text(text: Option<String>) -> Option<Seq<char>> {
    match text {
        Some(text) => Some(text@),
        None => None,
    }
}

/// A character with the Unicode property White_Space.
pub open spec fn is_space(c: char) -> bool {
    let n = c as u32;
    ||| 0x9 <= n <= 0xd
    ||| n == 0x20
    ||| n == 0x85
    ||| n == 0xa0
    ||| n == 0x1680
    ||| 0x2000 <= n <= 0x200a
    ||| n == 0x2028
    ||| n == 0x2029
    ||| n == 0x202f
    ||| n == 0x205f
    ||| n == 0x3000
}

/// A character of the Unicode category Cc.
pub open spec fn is_control_char(c: char) -> bool {
    let n = c as u32;
    n <= 0x1f || 0x7f <= n <= 0x9f
}

/// One of the digits `0` to `9`.
pub open spec fn is_digit(c: char) -> bool {
    '0' <= c <= '9'
}

/// `c`, with the letters `A` to `Z` replaced by `a` to `z`.
pub open spec fn lower_char(c: char) -> char {
    if 'A' <= c <= 'Z' {
        (c as u32 + 32) as char
    } else {
        c
    }
}

/// `s`, with the letters `A` to `Z` replaced by `a` to `z`.
pub open spec fn lower_ascii(s: Seq<char>) -> Seq<char> {
    s.map_values(|c: char| lower_char(c))
}

/// `t` stands in `s` at position `i`.
pub open spec fn occurs_at(s: Seq<char>, t: Seq<char>, i: int) -> bool {
    0 <= i && i + t.len() <= s.len() && s.subrange(i, i + t.len()) == t
}

/// `t` stands somewhere in `s`.
pub open spec fn occurs(s: Seq<char>, t: Seq<char>) -> bool {
    exists|i: int| occurs_at(s, t, i)
}

/// `s` begins with `t`.
pub open spec fn begins(s: Seq<char>, t: Seq<char>) -> bool {
    occurs_at(s, t, 0)
}

/// `s` ends with `t`.
pub open spec fn ends(s: Seq<char>, t: Seq<char>) -> bool {
    occurs_at(s, t, s.len() - t.len())
}

/// `s` without the whitespace in front.
pub open spec fn trimmed_start(s: Seq<char>) -> Seq<char>
    decreases s.len(),
{
    if s.len() > 0 && is_space(s[0]) {
        trimmed_start(s.skip(1))
    } else {
        s
    }
}

/// `s` without the whitespace at the end.
pub open spec fn trimmed_end(s: Seq<char>) -> Seq<char>
    decreases s.len(),
{
    if s.len() > 0 && is_space(s.last()) {
        trimmed_end(s.drop_last())
    } else {
        s
    }
}

/// `s` without the whitespace around it.
pub open spec fn trimmed(s: Seq<char>) -> Seq<char> {
    trimmed_end(trimmed_start(s))
}

/// The position of the first `c` in `s`, or the length of `s` where there is none.
pub open spec fn find(s: Seq<char>, c: char) -> nat
    decreases s.len(),
{
    if s.len() == 0 || s[0] == c {
        0
    } else {
        1 + find(s.skip(1), c)
    }
}

/// The part of `s` in front of the first `c`.
pub open spec fn until(s: Seq<char>, c: char) -> Seq<char> {
    s.take(find(s, c) as int)
}

/// `s` holds no `c`.
pub open spec fn lacks(s: Seq<char>, c: char) -> bool {
    forall|i: int| 0 <= i < s.len() ==> #[trigger] s[i] != c
}

/// The parts of `s` between the separators.
pub open spec fn pieces(s: Seq<char>, separator: char) -> Seq<Seq<char>>
    decreases s.len(),
{
    let n = find(s, separator);
    if n >= s.len() {
        seq![s]
    } else {
        seq![s.take(n as int)] + pieces(s.skip(n as int + 1), separator)
    }
}

/// The parts, with `separator` between them.
pub open spec fn joined(parts: Seq<Seq<char>>, separator: Seq<char>) -> Seq<char>
    decreases parts.len(),
{
    if parts.len() == 0 {
        Seq::empty()
    } else if parts.len() == 1 {
        parts[0]
    } else {
        joined(parts.drop_last(), separator) + separator + parts.last()
    }
}

/// How many characters stand in front of the first whitespace of `s`.
pub open spec fn word_len(s: Seq<char>) -> nat
    decreases s.len(),
{
    if s.len() == 0 || is_space(s[0]) {
        0
    } else {
        1 + word_len(s.skip(1))
    }
}

pub proof fn lemma_word_len(s: Seq<char>)
    ensures
        word_len(s) <= s.len(),
        forall|i: int| 0 <= i < word_len(s) ==> !is_space(#[trigger] s[i]),
        word_len(s) < s.len() ==> is_space(s[word_len(s) as int]),
    decreases s.len(),
{
    if s.len() > 0 && !is_space(s[0]) {
        let rest = s.skip(1);
        lemma_word_len(rest);
        assert forall|i: int| 0 <= i < word_len(s) implies !is_space(#[trigger] s[i]) by {
            if i > 0 {
                assert(s[i] == rest[i - 1]);
            }
        }
        if word_len(s) < s.len() {
            assert(rest[word_len(rest) as int] == s[word_len(s) as int]);
        }
    }
}

pub proof fn lemma_trimmed_start(s: Seq<char>)
    ensures
        trimmed_start(s).len() <= s.len(),
        trimmed_start(s) == s.skip(s.len() - trimmed_start(s).len()),
        trimmed_start(s).len() > 0 ==> !is_space(trimmed_start(s)[0]),
        forall|i: int| 0 <= i < s.len() - trimmed_start(s).len() ==> is_space(#[trigger] s[i]),
    decreases s.len(),
{
    if s.len() > 0 && is_space(s[0]) {
        let rest = s.skip(1);
        lemma_trimmed_start(rest);
        assert forall|i: int| 0 <= i < s.len() - trimmed_start(s).len() implies is_space(
            #[trigger] s[i],
        ) by {
            if i > 0 {
                assert(s[i] == rest[i - 1]);
            }
        }
        assert(s.skip(s.len() - trimmed_start(s).len()) =~= rest.skip(
            rest.len() - trimmed_start(rest).len(),
        ));
    } else {
        assert(s.skip(0) =~= s);
    }
}

pub proof fn lemma_trimmed_end(s: Seq<char>)
    ensures
        trimmed_end(s).len() <= s.len(),
        trimmed_end(s) == s.take(trimmed_end(s).len() as int),
        trimmed_end(s).len() > 0 ==> !is_space(trimmed_end(s).last()),
        forall|i: int| trimmed_end(s).len() <= i < s.len() ==> is_space(#[trigger] s[i]),
    decreases s.len(),
{
    if s.len() > 0 && is_space(s.last()) {
        let rest = s.drop_last();
        lemma_trimmed_end(rest);
        assert forall|i: int| trimmed_end(s).len() <= i < s.len() implies is_space(
            #[trigger] s[i],
        ) by {
            if i < rest.len() {
                assert(s[i] == rest[i]);
            }
        }
        assert(s.take(trimmed_end(s).len() as int) =~= rest.take(trimmed_end(rest).len() as int));
    } else {
        assert(s.take(s.len() as int) =~= s);
    }
}

pub proof fn lemma_find(s: Seq<char>, c: char)
    ensures
        find(s, c) <= s.len(),
        forall|i: int| 0 <= i < find(s, c) ==> #[trigger] s[i] != c,
        find(s, c) < s.len() ==> s[find(s, c) as int] == c,
    decreases s.len(),
{
    if s.len() > 0 && s[0] != c {
        let rest = s.skip(1);
        lemma_find(rest, c);
        assert forall|i: int| 0 <= i < find(s, c) implies #[trigger] s[i] != c by {
            if i > 0 {
                assert(s[i] == rest[i - 1]);
            }
        }
        if find(s, c) < s.len() {
            assert(rest[find(rest, c) as int] == s[find(s, c) as int]);
        }
    }
}

pub proof fn lemma_joined_cons(first: Seq<char>, rest: Seq<Seq<char>>, separator: Seq<char>)
    requires
        rest.len() > 0,
    ensures
        joined(seq![first] + rest, separator) == first + separator + joined(rest, separator),
    decreases rest.len(),
{
    let all = seq![first] + rest;
    if rest.len() == 1 {
        assert(all.drop_last() =~= seq![first]);
        assert(all.last() == rest[0]);
        assert(joined(seq![first], separator) == first);
    } else {
        lemma_joined_cons(first, rest.drop_last(), separator);
        assert(all.drop_last() =~= seq![first] + rest.drop_last());
        assert(joined(all, separator) =~= first + separator + joined(rest, separator));
    }
}

/// The words of `s`: its longest parts without whitespace.
pub open spec fn words(s: Seq<char>) -> Seq<Seq<char>>
    decreases s.len(),
    via words_decreases
{
    let t = trimmed_start(s);
    let n = word_len(t);
    if t.len() == 0 {
        Seq::empty()
    } else {
        seq![t.take(n as int)] + words(t.skip(n as int))
    }
}

#[via_fn]
proof fn words_decreases(s: Seq<char>) {
    lemma_trimmed_start(s);
    lemma_word_len(trimmed_start(s));
}

/// The characters of `text`, in order.
pub fn chars_of(text: &str) -> (chars: Vec<char>)
    ensures
        chars@ == text@,
{
    let mut chars: Vec<char> = Vec::new();
    for c in it: text.chars()
        invariant
            chars@ == it.seq().take(it.index() as int),
            it.seq() == text@,
    {
        chars.push(c);
    }
    chars
}

/// The text made of `chars[from..to]`.
pub fn text_of(chars: &Vec<char>, from: usize, to: usize) -> (text: String)
    requires
        from <= to <= chars@.len(),
    ensures
        text@ == chars@.subrange(from as int, to as int),
{
    let mut text = String::new();
    let mut i: usize = from;
    while i < to
        invariant
            from <= i <= to <= chars@.len(),
            text@ == chars@.subrange(from as int, i as int),
        decreases to - i,
    {
        text.push(chars[i]);
        i += 1;
    }
    text
}

/// Whether `c` has the Unicode property White_Space.
pub fn is_whitespace(c: char) -> (yes: bool)
    ensures
        yes == is_space(c),
{
    let n: u32 = c as u32;
    (0x9 <= n && n <= 0xd) || n == 0x20 || n == 0x85 || n == 0xa0 || n == 0x1680 || (0x2000 <= n
        && n <= 0x200a) || n == 0x2028 || n == 0x2029 || n == 0x202f || n == 0x205f || n == 0x3000
}

/// Whether `c` is a control character.
pub fn is_control(c: char) -> (yes: bool)
    ensures
        yes == is_control_char(c),
{
    let n: u32 = c as u32;
    n <= 0x1f || (0x7f <= n && n <= 0x9f)
}

/// `c`, with an upper case ASCII letter made lower case.
pub fn to_ascii_lowercase(c: char) -> (lower: char)
    ensures
        lower == lower_char(c),
{
    if 'A' <= c && c <= 'Z' {
        (c as u8 + 32) as char
    } else {
        c
    }
}

/// `text`, with the letters `A` to `Z` replaced by `a` to `z`.
pub fn lowered(text: &str) -> (lower: String)
    ensures
        lower@ == lower_ascii(text@),
{
    let chars = chars_of(text);
    let mut lower = String::new();
    let mut i: usize = 0;
    while i < chars.len()
        invariant
            i <= chars@.len(),
            lower@ == lower_ascii(chars@.take(i as int)),
        decreases chars@.len() - i,
    {
        lower.push(to_ascii_lowercase(chars[i]));
        i += 1;
    }
    assert(chars@.take(i as int) =~= text@);
    lower
}

/// Where the text in `chars[from..to]` begins behind the whitespace in front.
pub fn skip_space(chars: &Vec<char>, from: usize, to: usize) -> (start: usize)
    requires
        from <= to <= chars@.len(),
    ensures
        from <= start <= to,
        chars@.subrange(start as int, to as int) == trimmed_start(
            chars@.subrange(from as int, to as int),
        ),
{
    let mut i: usize = from;
    while i < to && is_whitespace(chars[i])
        invariant
            from <= i <= to <= chars@.len(),
            trimmed_start(chars@.subrange(i as int, to as int)) == trimmed_start(
                chars@.subrange(from as int, to as int),
            ),
        decreases to - i,
    {
        assert(chars@.subrange(i as int, to as int).skip(1) =~= chars@.subrange(
            i + 1,
            to as int,
        ));
        i += 1;
    }
    i
}

/// Where the text in `chars[from..to]` ends in front of the whitespace at its end.
pub fn drop_space(chars: &Vec<char>, from: usize, to: usize) -> (end: usize)
    requires
        from <= to <= chars@.len(),
    ensures
        from <= end <= to,
        chars@.subrange(from as int, end as int) == trimmed_end(
            chars@.subrange(from as int, to as int),
        ),
{
    let mut i: usize = to;
    while from < i && is_whitespace(chars[i - 1])
        invariant
            from <= i <= to <= chars@.len(),
            trimmed_end(chars@.subrange(from as int, i as int)) == trimmed_end(
                chars@.subrange(from as int, to as int),
            ),
        decreases i,
    {
        assert(chars@.subrange(from as int, i as int).drop_last() =~= chars@.subrange(
            from as int,
            i - 1,
        ));
        i -= 1;
    }
    i
}

/// `text` without the whitespace around it.
pub fn trim(text: &str) -> (result: String)
    ensures
        result@ == trimmed(text@),
{
    let chars = chars_of(text);
    let start = skip_space(&chars, 0, chars.len());
    let end = drop_space(&chars, start, chars.len());
    assert(chars@.subrange(0, chars@.len() as int) =~= text@);
    text_of(&chars, start, end)
}

/// `text` without the whitespace at its end.
pub fn trim_end(text: &str) -> (result: String)
    ensures
        result@ == trimmed_end(text@),
{
    let chars = chars_of(text);
    let end = drop_space(&chars, 0, chars.len());
    assert(chars@.subrange(0, chars@.len() as int) =~= text@);
    text_of(&chars, 0, end)
}

/// The position of the first `c` in `chars` from `from` on, or the length of `chars`.
pub fn find_char(chars: &Vec<char>, from: usize, c: char) -> (position: usize)
    requires
        from <= chars@.len(),
    ensures
        from <= position <= chars@.len(),
        position - from == find(chars@.skip(from as int), c),
{
    let mut i: usize = from;
    while i < chars.len() && chars[i] != c
        invariant
            from <= i <= chars@.len(),
            find(chars@.skip(from as int), c) == (i - from) + find(chars@.skip(i as int), c),
        decreases chars@.len() - i,
    {
        assert(chars@.skip(i as int).skip(1) =~= chars@.skip(i + 1));
        i += 1;
    }
    i
}

/// The part of `text` in front of the first `c`.
pub fn take_until(text: &str, c: char) -> (result: String)
    ensures
        result@ == until(text@, c),
{
    let chars = chars_of(text);
    let n = find_char(&chars, 0, c);
    assert(chars@.skip(0) =~= text@);
    text_of(&chars, 0, n)
}

/// The parts of `text` between the separators.
pub fn split(text: &str, separator: char) -> (parts: Vec<String>)
    ensures
        texts(parts@) == pieces(text@, separator),
{
    let chars = chars_of(text);
    let mut parts: Vec<String> = Vec::new();
    let mut start: usize = 0;
    let mut end: usize = find_char(&chars, 0, separator);
    assert(chars@.skip(0) =~= text@);
    while end < chars.len()
        invariant
            start <= end <= chars@.len(),
            chars@ == text@,
            end - start == find(chars@.skip(start as int), separator),
            pieces(text@, separator) == texts(parts@) + pieces(
                chars@.skip(start as int),
                separator,
            ),
        decreases chars@.len() - end,
    {
        let ghost rest = chars@.skip(start as int);
        let ghost before = parts@;
        let part = text_of(&chars, start, end);
        parts.push(part);
        start = end + 1;
        end = find_char(&chars, start, separator);
        proof {
            assert(rest.take(find(rest, separator) as int) =~= part@);
            assert(rest.skip(find(rest, separator) as int + 1) =~= chars@.skip(start as int));
            assert(texts(parts@) =~= texts(before).push(part@));
            assert(texts(before) + (seq![part@] + pieces(chars@.skip(start as int), separator))
                =~= texts(parts@) + pieces(chars@.skip(start as int), separator));
        }
    }
    let ghost before = parts@;
    let part = text_of(&chars, start, end);
    parts.push(part);
    assert(part@ =~= chars@.skip(start as int));
    assert(texts(parts@) =~= texts(before) + seq![part@]);
    parts
}

/// The parts, with `separator` between them.
pub fn join(parts: &Vec<String>, separator: &str) -> (result: String)
    ensures
        result@ == joined(texts(parts@), separator@),
{
    let mut result = String::new();
    let mut i: usize = 0;
    while i < parts.len()
        invariant
            i <= parts@.len(),
            result@ == joined(texts(parts@).take(i as int), separator@),
        decreases parts@.len() - i,
    {
        if i > 0 {
            result.append(separator);
        }
        result.append(parts[i].as_str());
        proof {
            let grown = texts(parts@).take(i + 1);
            assert(grown.drop_last() =~= texts(parts@).take(i as int));
            if i == 0 {
                assert(result@ =~= grown[0]);
            }
        }
        i += 1;
    }
    assert(texts(parts@).take(i as int) =~= texts(parts@));
    result
}

/// The words of `text`.
pub fn split_whitespace(text: &str) -> (parts: Vec<String>)
    ensures
        texts(parts@) == words(text@),
{
    let chars = chars_of(text);
    let mut parts: Vec<String> = Vec::new();
    let mut start: usize = skip_space(&chars, 0, chars.len());
    proof {
        assert(chars@.subrange(0, chars@.len() as int) =~= text@);
        lemma_words_trimmed(text@);
        lemma_trimmed_start(text@);
    }
    while start < chars.len()
        invariant
            start <= chars@.len(),
            start < chars@.len() ==> !is_space(chars@[start as int]),
            words(text@) == texts(parts@) + words(
                chars@.subrange(start as int, chars@.len() as int),
            ),
        decreases chars@.len() - start,
    {
        let ghost rest = chars@.subrange(start as int, chars@.len() as int);
        let ghost before = parts@;
        let mut end: usize = start;
        while end < chars.len() && !is_whitespace(chars[end])
            invariant
                start <= end <= chars@.len(),
                rest == chars@.subrange(start as int, chars@.len() as int),
                word_len(rest) == (end - start) + word_len(
                    chars@.subrange(end as int, chars@.len() as int),
                ),
            decreases chars@.len() - end,
        {
            assert(chars@.subrange(end as int, chars@.len() as int).skip(1) =~= chars@.subrange(
                end + 1,
                chars@.len() as int,
            ));
            end += 1;
        }
        let part = text_of(&chars, start, end);
        parts.push(part);
        start = skip_space(&chars, end, chars.len());
        proof {
            let tail = chars@.subrange(end as int, chars@.len() as int);
            assert(trimmed_start(rest) == rest);
            assert(rest.take(word_len(rest) as int) =~= part@);
            assert(rest.skip(word_len(rest) as int) =~= tail);
            assert(texts(parts@) =~= texts(before).push(part@));
            lemma_words_trimmed(tail);
            lemma_trimmed_start(tail);
            assert(texts(before) + (seq![part@] + words(tail)) =~= texts(parts@) + words(tail));
        }
    }
    assert(chars@.subrange(start as int, chars@.len() as int) =~= Seq::empty());
    assert(texts(parts@) + Seq::empty() =~= texts(parts@));
    parts
}

/// Whitespace in front of a text does not change its words.
proof fn lemma_words_trimmed(s: Seq<char>)
    ensures
        words(trimmed_start(s)) == words(s),
{
    lemma_trimmed_start(s);
    assert(trimmed_start(trimmed_start(s)) == trimmed_start(s));
}

/// Whether `term` stands in `chars` at position `at`.
pub fn stands_at(chars: &Vec<char>, term: &Vec<char>, at: usize) -> (yes: bool)
    requires
        at <= chars@.len(),
    ensures
        yes == occurs_at(chars@, term@, at as int),
{
    if chars.len() - at < term.len() {
        return false;
    }
    let mut i: usize = 0;
    while i < term.len()
        invariant
            i <= term@.len(),
            at + term.len() <= chars.len(),
            forall|k: int| 0 <= k < i ==> chars@[at + k] == #[trigger] term@[k],
        decreases term@.len() - i,
    {
        if chars[at + i] != term[i] {
            assert(chars@.subrange(at as int, at + term@.len())[i as int] != term@[i as int]);
            return false;
        }
        i += 1;
    }
    assert(chars@.subrange(at as int, at + term@.len()) =~= term@);
    true
}

/// Whether `term` stands somewhere in `text`.
pub fn contains(text: &str, term: &str) -> (yes: bool)
    ensures
        yes == occurs(text@, term@),
{
    let chars = chars_of(text);
    let wanted = chars_of(term);
    let mut i: usize = 0;
    while i < chars.len()
        invariant
            i <= chars@.len(),
            chars@ == text@,
            wanted@ == term@,
            forall|k: int| 0 <= k < i ==> !occurs_at(text@, term@, k),
        decreases chars@.len() - i,
    {
        if stands_at(&chars, &wanted, i) {
            return true;
        }
        i += 1;
    }
    stands_at(&chars, &wanted, i)
}

/// Whether `text` begins with `start`.
pub fn starts_with(text: &str, start: &str) -> (yes: bool)
    ensures
        yes == begins(text@, start@),
{
    let chars = chars_of(text);
    let wanted = chars_of(start);
    stands_at(&chars, &wanted, 0)
}

/// Whether `text` ends with `end`.
pub fn ends_with(text: &str, end: &str) -> (yes: bool)
    ensures
        yes == ends(text@, end@),
{
    let chars = chars_of(text);
    let wanted = chars_of(end);
    if chars.len() < wanted.len() {
        return false;
    }
    stands_at(&chars, &wanted, chars.len() - wanted.len())
}

/// Whether the two texts are equal.
pub fn same_text(a: &str, b: &str) -> (yes: bool)
    ensures
        yes == (a@ == b@),
{
    let left = chars_of(a);
    let right = chars_of(b);
    if left.len() != right.len() {
        return false;
    }
    let yes = stands_at(&left, &right, 0);
    assert(a@.subrange(0, a@.len() as int) =~= a@);
    yes
}

/// The digit for a number below ten.
pub open spec fn digit(n: nat) -> char {
    ('0' as u32 + n) as char
}

/// The number in decimal digits, without leading zeros.
pub open spec fn decimal(n: nat) -> Seq<char>
    decreases n,
{
    if n < 10 {
        seq![digit(n)]
    } else {
        decimal(n / 10).push(digit(n % 10))
    }
}

/// The number in decimal digits.
pub fn number_text(n: usize) -> (text: String)
    ensures
        text@ == decimal(n as nat),
    decreases n,
{
    let mut text = if n < 10 {
        String::new()
    } else {
        number_text(n / 10)
    };
    let last: u8 = (n % 10) as u8;
    text.push((48 + last) as char);
    assert(n < 10 ==> text@ =~= seq![digit(n as nat)]);
    text
}

} // verus!
