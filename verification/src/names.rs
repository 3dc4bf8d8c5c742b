//! File names for video entries, built from their titles.
use vstd::prelude::*;
use vstd::string::StringExecFns;

use crate::filter::Filter;
use crate::text::{
    chars_of, is_control, is_control_char, is_digit, is_space, is_whitespace, join, joined,
    lower_ascii, lower_char, skip_space, split_whitespace, take_until, text_of, texts,
    to_ascii_lowercase, trim, trim_end, trimmed, trimmed_end, trimmed_start, until, words,
};

verus! {

/// A prefix and/or suffix added to the file name if the filter matches the full title.
#[derive(Debug)]
pub struct Affix {
    pub filter: Filter,
    /// Added in front of the file name, without a separator.
    pub prefix: String,
    /// Added after the file name, without a separator.
    pub suffix: String,
}

/// Terms removed from the file name and rules adding a prefix and/or suffix to it.
#[derive(Debug)]
pub struct NameConfiguration {
    /// Removed from the file name (all occurrences, ignoring ASCII case) before the affixes are
    /// added.
    pub strip: Vec<String>,
    /// All rules whose filter matches the full title contribute their affixes, in this order.
    pub affixes: Vec<Affix>,
}

impl Default for NameConfiguration {
    /// Nothing is removed and nothing is added.
    fn default() -> (names: Self)
        ensures
            names.strip@.len() == 0,
            names.affixes@.len() == 0,
    {
        NameConfiguration { strip: Vec::new(), affixes: Vec::new() }
    }
}

/// `s` begins with `YYYY-MM-DD` and whitespace.
pub open spec fn has_date(s: Seq<char>) -> bool {
    &&& s.len() > 10
    &&& forall|i: int|
        #![trigger s[i]]
        0 <= i < 10 ==> if i == 4 || i == 7 {
            s[i] == '-'
        } else {
            is_digit(s[i])
        }
    &&& is_space(s[10])
}

/// `s` without a leading date, and without one `-` behind the date.
pub open spec fn undated(s: Seq<char>) -> Seq<char> {
    let rest = trimmed_start(s.skip(10));
    if !has_date(s) {
        s
    } else if rest.len() > 0 && rest[0] == '-' {
        trimmed_start(rest.skip(1))
    } else {
        rest
    }
}

/// `s` without the occurrences of `t`, searched from the left, ignoring ASCII case.
pub open spec fn without(s: Seq<char>, t: Seq<char>) -> Seq<char>
    decreases s.len(),
{
    if t.len() == 0 || s.len() < t.len() {
        s
    } else if lower_ascii(s.take(t.len() as int)) == lower_ascii(t) {
        without(s.skip(t.len() as int), t)
    } else {
        seq![s[0]] + without(s.skip(1), t)
    }
}

/// `s` without the occurrences of the terms, removed one term after the other.
pub open spec fn without_all(s: Seq<char>, terms: Seq<Seq<char>>) -> Seq<char>
    decreases terms.len(),
{
    if terms.len() == 0 {
        s
    } else {
        without(without_all(s, terms.drop_last()), terms.last())
    }
}

/// A character that is not allowed in file names.
pub open spec fn is_forbidden(c: char) -> bool {
    c == '<' || c == '>' || c == ':' || c == '"' || c == '/' || c == '\\' || c == '|' || c == '?'
        || c == '*'
}

/// `c`, with a control character made a space.
pub open spec fn visible(c: char) -> char {
    if is_control_char(c) {
        ' '
    } else {
        c
    }
}

/// The characters of `s` that are allowed in file names, control characters made spaces.
pub open spec fn allowed(s: Seq<char>) -> Seq<char> {
    s.filter(|c: char| !is_forbidden(c)).map_values(|c: char| visible(c))
}

/// `s` without the dots at its end.
pub open spec fn undotted(s: Seq<char>) -> Seq<char>
    decreases s.len(),
{
    if s.len() > 0 && s.last() == '.' {
        undotted(s.drop_last())
    } else {
        s
    }
}

/// `s` as a file name: allowed characters only, words separated by single spaces, and neither
/// dots nor whitespace at the end.
pub open spec fn sanitized(s: Seq<char>) -> Seq<char> {
    trimmed_end(undotted(joined(words(allowed(s)), seq![' '])))
}

/// The part of the file name that stems from the title itself.
pub open spec fn base_name(title: Seq<char>, strip: Seq<Seq<char>>) -> Seq<char> {
    sanitized(without_all(until(undated(trimmed(title)), '|'), strip))
}

/// The prefixes of the rules that match, in order.
pub open spec fn prefixes(affixes: Seq<Affix>, matching: Seq<bool>) -> Seq<char>
    decreases affixes.len(),
{
    if affixes.len() == 0 {
        Seq::empty()
    } else {
        let n = affixes.len() - 1;
        prefixes(affixes.drop_last(), matching) + if matching[n] {
            affixes[n].prefix@
        } else {
            Seq::empty()
        }
    }
}

/// The suffixes of the rules that match, in order.
pub open spec fn suffixes(affixes: Seq<Affix>, matching: Seq<bool>) -> Seq<char>
    decreases affixes.len(),
{
    if affixes.len() == 0 {
        Seq::empty()
    } else {
        let n = affixes.len() - 1;
        suffixes(affixes.drop_last(), matching) + if matching[n] {
            affixes[n].suffix@
        } else {
            Seq::empty()
        }
    }
}

/// The file name for `title`, where `matching` says which affix rules match the title.
pub open spec fn name_given(
    title: Seq<char>,
    names: NameConfiguration,
    matching: Seq<bool>,
) -> Seq<char> {
    let base = base_name(title, texts(names.strip@));
    if base.len() == 0 {
        Seq::empty()
    } else {
        sanitized(
            prefixes(names.affixes@, matching) + base + suffixes(names.affixes@, matching),
        )
    }
}

/// Which affix rules match the title.
pub open spec fn matching_affixes(affixes: Seq<Affix>, title: Seq<char>) -> Seq<bool> {
    affixes.map_values(|affix: Affix| affix.filter.accepts(trimmed(title)))
}

/// The file name for `title`.
pub open spec fn name_of(title: Seq<char>, names: NameConfiguration) -> Seq<char> {
    name_given(title, names, matching_affixes(names.affixes@, title))
}

/// `title` without a leading `YYYY-MM-DD`, optionally followed by ` - `.
pub fn strip_date_prefix(title: &str) -> (result: String)
    ensures
        result@ == undated(title@),
{
    let chars = chars_of(title);
    if chars.len() <= 10 || !is_whitespace(chars[10]) {
        return text_of_all(&chars);
    }
    let mut i: usize = 0;
    while i < 10
        invariant
            i <= 10 < chars@.len(),
            chars@ == title@,
            forall|k: int|
                #![trigger chars@[k]]
                0 <= k < i ==> if k == 4 || k == 7 {
                    chars@[k] == '-'
                } else {
                    is_digit(chars@[k])
                },
        decreases 10 - i,
    {
        let c = chars[i];
        let fits = if i == 4 || i == 7 {
            c == '-'
        } else {
            '0' <= c && c <= '9'
        };
        if !fits {
            assert(!has_date(title@)) by {
                assert(title@[i as int] == c);
            }
            return text_of_all(&chars);
        }
        i += 1;
    }
    let n = chars.len();
    let start = skip_space(&chars, 10, n);
    let ghost rest = trimmed_start(title@.skip(10));
    assert(chars@.subrange(10, n as int) =~= title@.skip(10));
    assert(chars@.subrange(start as int, n as int) == rest);
    if start < n && chars[start] == '-' {
        let second = skip_space(&chars, start + 1, n);
        assert(rest[0] == chars@[start as int]);
        assert(chars@.subrange(start + 1, n as int) =~= rest.skip(1));
        text_of(&chars, second, n)
    } else {
        assert(rest.len() > 0 ==> rest[0] == chars@[start as int]);
        text_of(&chars, start, n)
    }
}

/// The text made of all the characters.
fn text_of_all(chars: &Vec<char>) -> (text: String)
    ensures
        text@ == chars@,
{
    assert(chars@.subrange(0, chars@.len() as int) =~= chars@);
    text_of(chars, 0, chars.len())
}

/// Whether `term` stands in `chars` at position `at`, ignoring ASCII case.
fn stands_at_ignoring_case(chars: &Vec<char>, term: &Vec<char>, at: usize) -> (yes: bool)
    requires
        at + term@.len() <= chars@.len(),
    ensures
        yes == (lower_ascii(chars@.skip(at as int).take(term@.len() as int)) == lower_ascii(term@)),
{
    let ghost found = chars@.skip(at as int).take(term@.len() as int);
    let mut i: usize = 0;
    while i < term.len()
        invariant
            i <= term@.len(),
            at + term.len() <= chars.len(),
            found == chars@.skip(at as int).take(term@.len() as int),
            forall|k: int|
                0 <= k < i ==> lower_char(#[trigger] found[k]) == lower_char(term@[k]),
        decreases term@.len() - i,
    {
        assert(found[i as int] == chars@[at + i]);
        if to_ascii_lowercase(chars[at + i]) != to_ascii_lowercase(term[i]) {
            assert(lower_ascii(found)[i as int] != lower_ascii(term@)[i as int]);
            return false;
        }
        i += 1;
    }
    assert(lower_ascii(found) =~= lower_ascii(term@));
    true
}

/// Removes all occurrences of the term, ignoring ASCII case.
pub fn remove_all(text: &str, term: &str) -> (result: String)
    ensures
        result@ == without(text@, term@),
{
    let chars = chars_of(text);
    let needle = chars_of(term);
    if needle.len() == 0 {
        return text_of_all(&chars);
    }
    let mut result = String::new();
    let mut i: usize = 0;
    assert(chars@.skip(0) =~= text@);
    assert(Seq::<char>::empty() + without(text@, term@) =~= without(text@, term@));
    while needle.len() <= chars.len() - i
        invariant
            i <= chars@.len(),
            chars@ == text@,
            needle@ == term@,
            needle@.len() > 0,
            without(text@, term@) == result@ + without(chars@.skip(i as int), term@),
        decreases chars@.len() - i,
    {
        let ghost rest = chars@.skip(i as int);
        if stands_at_ignoring_case(&chars, &needle, i) {
            assert(rest.skip(needle@.len() as int) =~= chars@.skip(i + needle@.len()));
            i += needle.len();
        } else {
            let ghost before = result@;
            result.push(chars[i]);
            proof {
                assert(rest.skip(1) =~= chars@.skip(i + 1));
                let tail = without(rest.skip(1), term@);
                assert(before + (seq![rest[0]] + tail) =~= result@ + tail);
            }
            i += 1;
        }
    }
    result.append(text_of(&chars, i, chars.len()).as_str());
    assert(chars@.subrange(i as int, chars@.len() as int) =~= chars@.skip(i as int));
    result
}

/// Whether `c` is not allowed in file names.
fn forbidden(c: char) -> (yes: bool)
    ensures
        yes == is_forbidden(c),
{
    matches!(c, '<' | '>' | ':' | '"' | '/' | '\\' | '|' | '?' | '*')
}

/// `text` without the dots at its end.
fn trim_dots(text: &str) -> (result: String)
    ensures
        result@ == undotted(text@),
{
    let chars = chars_of(text);
    let mut n: usize = chars.len();
    assert(chars@.take(n as int) =~= text@);
    while 0 < n && chars[n - 1] == '.'
        invariant
            n <= chars@.len(),
            undotted(chars@.take(n as int)) == undotted(text@),
        decreases n,
    {
        assert(chars@.take(n as int).drop_last() =~= chars@.take(n - 1));
        n -= 1;
    }
    assert(chars@.subrange(0, n as int) =~= chars@.take(n as int));
    text_of(&chars, 0, n)
}

/// `name` with the characters removed that are not allowed in file names, words separated by
/// single spaces, and neither dots nor whitespace at the end.
pub fn sanitize_file_name(name: &str) -> (result: String)
    ensures
        result@ == sanitized(name@),
{
    let chars = chars_of(name);
    let mut kept = String::new();
    let mut i: usize = 0;
    let ghost keep = |c: char| !is_forbidden(c);
    let ghost show = |c: char| visible(c);
    while i < chars.len()
        invariant
            i <= chars@.len(),
            keep == (|c: char| !is_forbidden(c)),
            show == (|c: char| visible(c)),
            kept@ == chars@.take(i as int).filter(keep).map_values(show),
        decreases chars@.len() - i,
    {
        let c = chars[i];
        proof {
            reveal(Seq::filter);
            assert(chars@.take(i + 1).drop_last() =~= chars@.take(i as int));
        }
        if !forbidden(c) {
            let ghost before = kept@;
            if is_control(c) {
                kept.push(' ');
            } else {
                kept.push(c);
            }
            assert(chars@.take(i as int).filter(keep).push(c).map_values(show) =~= before.push(
                visible(c),
            ));
        }
        i += 1;
    }
    assert(chars@.take(i as int) =~= name@);
    let parts = split_whitespace(kept.as_str());
    let spaced = join(&parts, " ");
    proof {
        reveal_strlit(" ");
        assert(" "@ =~= seq![' ']);
    }
    let undotted_text = trim_dots(spaced.as_str());
    trim_end(undotted_text.as_str())
}

/// Builds the file name from the entry title, where `matching` says which affix rules match the
/// title.
pub fn file_name_given(title: &str, names: &NameConfiguration, matching: &Vec<bool>) -> (name:
    String)
    requires
        matching@.len() == names.affixes@.len(),
    ensures
        name@ == name_given(title@, *names, matching@),
{
    let trimmed_title = trim(title);
    let undated_title = strip_date_prefix(trimmed_title.as_str());
    let mut base = take_until(undated_title.as_str(), '|');
    let ghost heading = base@;
    let mut i: usize = 0;
    while i < names.strip.len()
        invariant
            i <= names.strip@.len(),
            base@ == without_all(heading, texts(names.strip@).take(i as int)),
        decreases names.strip@.len() - i,
    {
        base = remove_all(base.as_str(), names.strip[i].as_str());
        assert(texts(names.strip@).take(i + 1).drop_last() =~= texts(names.strip@).take(i as int));
        i += 1;
    }
    assert(texts(names.strip@).take(i as int) =~= texts(names.strip@));
    let base = sanitize_file_name(base.as_str());
    if base.as_str().is_empty() {
        assert(base@ =~= Seq::<char>::empty());
        return base;
    }
    let mut front = String::new();
    let mut behind = String::new();
    let mut k: usize = 0;
    while k < names.affixes.len()
        invariant
            k <= names.affixes@.len(),
            matching@.len() == names.affixes@.len(),
            front@ == prefixes(names.affixes@.take(k as int), matching@),
            behind@ == suffixes(names.affixes@.take(k as int), matching@),
        decreases names.affixes@.len() - k,
    {
        assert(names.affixes@.take(k + 1).drop_last() =~= names.affixes@.take(k as int));
        if matching[k] {
            front.append(names.affixes[k].prefix.as_str());
            behind.append(names.affixes[k].suffix.as_str());
        } else {
            assert(front@ + Seq::<char>::empty() =~= front@);
            assert(behind@ + Seq::<char>::empty() =~= behind@);
        }
        k += 1;
    }
    assert(names.affixes@.take(k as int) =~= names.affixes@);
    let name = front.concat(base.as_str()).concat(behind.as_str());
    sanitize_file_name(name.as_str())
}

/// Builds the file name from the entry title: removes a leading `YYYY-MM-DD` (optionally followed
/// by ` - `) and everything from the first `|` on, then removes the configured terms and adds the
/// affixes of all rules matching the full title.
pub fn file_name_from_title(title: &str, names: &NameConfiguration) -> (name: String)
    ensures
        name@ == name_of(title@, *names),
{
    let full = trim(title);
    let mut matching: Vec<bool> = Vec::new();
    let mut i: usize = 0;
    while i < names.affixes.len()
        invariant
            i <= names.affixes@.len(),
            full@ == trimmed(title@),
            matching@ == matching_affixes(names.affixes@, title@).take(i as int),
        decreases names.affixes@.len() - i,
    {
        let ghost before = matching@;
        matching.push(names.affixes[i].filter.matches(full.as_str()));
        assert(matching_affixes(names.affixes@, title@).take(i + 1) =~= before.push(
            matching_affixes(names.affixes@, title@)[i as int],
        ));
        i += 1;
    }
    assert(matching@ =~= matching_affixes(names.affixes@, title@));
    file_name_given(title, names, &matching)
}

} // verus!
