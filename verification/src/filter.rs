//! Filters: terms that a text has to contain, or must not contain.
use vstd::prelude::*;

use crate::text::{contains, lower_ascii, occurs, texts};
use crate::unicode::{all_ascii, lowercase};

verus! {

/// One condition of a filter.
#[derive(Debug)]
pub enum FilterTerm {
    /// The text has to contain the term.
    Simple(String),
    /// The text has to contain the term or, with `exclude`, must not contain it.
    Full { term: String, exclude: bool },
}

impl FilterTerm {
    /// The term itself.
    pub open spec fn wanted(self) -> Seq<char> {
        match self {
            FilterTerm::Simple(term) => term@,
            FilterTerm::Full { term, exclude } => term@,
        }
    }

    /// Whether the term must not occur.
    pub open spec fn excluded(self) -> bool {
        match self {
            FilterTerm::Simple(term) => false,
            FilterTerm::Full { term, exclude } => exclude,
        }
    }

    /// The term and whether it must not occur.
    pub fn parts(&self) -> (parts: (&String, bool))
        ensures
            parts.0@ == self.wanted(),
            parts.1 == self.excluded(),
    {
        match self {
            FilterTerm::Simple(term) => (term, false),
            FilterTerm::Full { term, exclude } => (term, *exclude),
        }
    }
}

/// A list of terms that have to hold together.
#[derive(Debug)]
pub struct Filter {
    pub terms: Vec<FilterTerm>,
    pub case_sensitive: bool,
}

/// The terms hold of `text`: each one occurs in it, if and only if it is not excluded.
/// `wanted` are the terms in the spelling in which they are looked for.
pub open spec fn terms_hold(
    terms: Seq<FilterTerm>,
    wanted: Seq<Seq<char>>,
    text: Seq<char>,
) -> bool {
    forall|i: int|
        0 <= i < terms.len() ==> occurs(text, #[trigger] wanted[i]) != terms[i].excluded()
}

/// The terms as they are written.
pub open spec fn written_terms(terms: Seq<FilterTerm>) -> Seq<Seq<char>> {
    terms.map_values(|term: FilterTerm| term.wanted())
}

/// The terms in lower case.
pub open spec fn lowered_terms(terms: Seq<FilterTerm>) -> Seq<Seq<char>> {
    terms.map_values(|term: FilterTerm| lowercase(term.wanted()))
}

/// The terms with the letters `A` to `Z` replaced by `a` to `z`.
pub open spec fn ascii_lowered_terms(terms: Seq<FilterTerm>) -> Seq<Seq<char>> {
    terms.map_values(|term: FilterTerm| lower_ascii(term.wanted()))
}

/// All terms are made of ASCII characters.
pub open spec fn ascii_terms(terms: Seq<FilterTerm>) -> bool {
    forall|i: int| 0 <= i < terms.len() ==> all_ascii((#[trigger] terms[i]).wanted())
}

impl Filter {
    /// The filter accepts `text`, whose lower case is `lower_text`, where the lower case of its
    /// terms is `lower_terms`.
    pub open spec fn accepts_given(
        self,
        text: Seq<char>,
        lower_text: Seq<char>,
        lower_terms: Seq<Seq<char>>,
    ) -> bool {
        if self.case_sensitive {
            terms_hold(self.terms@, written_terms(self.terms@), text)
        } else {
            terms_hold(self.terms@, lower_terms, lower_text)
        }
    }

    /// The filter accepts `text`: all its terms hold of it, letter case counting only where the
    /// filter is case sensitive.
    pub open spec fn accepts(self, text: Seq<char>) -> bool {
        self.accepts_given(text, lowercase(text), lowered_terms(self.terms@))
    }

    /// Whether the filter accepts `text`, with the lower case of the text and of the terms given.
    pub fn matches_given(&self, text: &str, lower_text: &str, lower_terms: &Vec<String>) -> (yes:
        bool)
        requires
            lower_terms@.len() == self.terms@.len(),
        ensures
            yes == self.accepts_given(text@, lower_text@, texts(lower_terms@)),
    {
        let mut i: usize = 0;
        while i < self.terms.len()
            invariant
                i <= self.terms@.len(),
                lower_terms@.len() == self.terms@.len(),
                forall|k: int|
                    #![trigger self.terms@[k]]
                    0 <= k < i ==> self.terms@[k].excluded() != (if self.case_sensitive {
                        occurs(text@, self.terms@[k].wanted())
                    } else {
                        occurs(lower_text@, lower_terms@[k]@)
                    }),
            decreases self.terms@.len() - i,
        {
            let (term, exclude) = self.terms[i].parts();
            let found = if self.case_sensitive {
                contains(text, term.as_str())
            } else {
                contains(lower_text, lower_terms[i].as_str())
            };
            if found == exclude {
                assert(written_terms(self.terms@)[i as int] == self.terms@[i as int].wanted());
                assert(texts(lower_terms@)[i as int] == lower_terms@[i as int]@);
                return false;
            }
            i += 1;
        }
        true
    }

    /// Whether the filter accepts `text`.
    pub fn matches(&self, text: &str) -> (yes: bool)
        ensures
            yes == self.accepts(text@),
            all_ascii(text@) && ascii_terms(self.terms@) ==> yes == self.accepts_given(
                text@,
                lower_ascii(text@),
                ascii_lowered_terms(self.terms@),
            ),
    {
        let lower_text = text.to_lowercase();
        let mut lower_terms: Vec<String> = Vec::new();
        let mut i: usize = 0;
        while i < self.terms.len()
            invariant
                i <= self.terms@.len(),
                texts(lower_terms@) == lowered_terms(self.terms@).take(i as int),
                ascii_terms(self.terms@) ==> texts(lower_terms@) == ascii_lowered_terms(
                    self.terms@,
                ).take(i as int),
            decreases self.terms@.len() - i,
        {
            let ghost before = lower_terms@;
            let (term, exclude) = self.terms[i].parts();
            lower_terms.push(term.as_str().to_lowercase());
            assert(texts(lower_terms@) =~= texts(before).push(lowercase(term@)));
            assert(lowered_terms(self.terms@).take(i + 1) =~= lowered_terms(self.terms@).take(
                i as int,
            ).push(lowercase(term@)));
            proof {
                if ascii_terms(self.terms@) {
                    assert(all_ascii(self.terms@[i as int].wanted()));
                    assert(ascii_lowered_terms(self.terms@).take(i + 1) =~= ascii_lowered_terms(
                        self.terms@,
                    ).take(i as int).push(lowercase(term@)));
                }
            }
            i += 1;
        }
        assert(texts(lower_terms@) =~= lowered_terms(self.terms@));
        assert(ascii_terms(self.terms@) ==> texts(lower_terms@) =~= ascii_lowered_terms(
            self.terms@,
        ));
        assert(lower_terms@.len() == texts(lower_terms@).len());
        self.matches_given(text, lower_text.as_str(), &lower_terms)
    }
}

/// Terms are linked by "and": two lists of terms hold together if and only if each of them holds.
pub proof fn law_terms_are_linked_by_and(
    first: Seq<FilterTerm>,
    second: Seq<FilterTerm>,
    text: Seq<char>,
)
    ensures
        terms_hold(first + second, written_terms(first + second), text) <==> terms_hold(
            first,
            written_terms(first),
            text,
        ) && terms_hold(second, written_terms(second), text),
        terms_hold(first + second, lowered_terms(first + second), text) <==> terms_hold(
            first,
            lowered_terms(first),
            text,
        ) && terms_hold(second, lowered_terms(second), text),
{
    assert(written_terms(first + second) =~= written_terms(first) + written_terms(second));
    assert(lowered_terms(first + second) =~= lowered_terms(first) + lowered_terms(second));
    lemma_terms_hold_together(
        first,
        second,
        written_terms(first),
        written_terms(second),
        text,
    );
    lemma_terms_hold_together(
        first,
        second,
        lowered_terms(first),
        lowered_terms(second),
        text,
    );
}

proof fn lemma_terms_hold_together(
    first: Seq<FilterTerm>,
    second: Seq<FilterTerm>,
    first_wanted: Seq<Seq<char>>,
    second_wanted: Seq<Seq<char>>,
    text: Seq<char>,
)
    requires
        first.len() == first_wanted.len(),
        second.len() == second_wanted.len(),
    ensures
        terms_hold(first + second, first_wanted + second_wanted, text) <==> terms_hold(
            first,
            first_wanted,
            text,
        ) && terms_hold(second, second_wanted, text),
{
    let terms = first + second;
    let wanted = first_wanted + second_wanted;
    let n = first.len() as int;
    if terms_hold(terms, wanted, text) {
        assert forall|i: int| 0 <= i < first.len() implies occurs(text, #[trigger] first_wanted[i])
            != first[i].excluded() by {
            assert(wanted[i] == first_wanted[i]);
        }
        assert forall|i: int| 0 <= i < second.len() implies occurs(
            text,
            #[trigger] second_wanted[i],
        ) != second[i].excluded() by {
            assert(wanted[n + i] == second_wanted[i]);
        }
    }
    if terms_hold(first, first_wanted, text) && terms_hold(second, second_wanted, text) {
        assert forall|i: int| 0 <= i < terms.len() implies occurs(text, #[trigger] wanted[i])
            != terms[i].excluded() by {
            if i < n {
                assert(wanted[i] == first_wanted[i]);
            } else {
                assert(wanted[i] == second_wanted[i - n]);
            }
        }
    }
}

/// Where letter case does not count, a filter with ASCII terms treats texts alike that differ only
/// in the case of ASCII letters.
pub proof fn law_letter_case_does_not_count(filter: Filter, first: Seq<char>, second: Seq<char>)
    requires
        !filter.case_sensitive,
        lower_ascii(first) == lower_ascii(second),
    ensures
        filter.accepts_given(first, lower_ascii(first), ascii_lowered_terms(filter.terms@))
            == filter.accepts_given(
            second,
            lower_ascii(second),
            ascii_lowered_terms(filter.terms@),
        ),
{
}

/// Some filter of the list accepts `text`.
pub open spec fn any_accepts(filters: Seq<Filter>, text: Seq<char>) -> bool {
    exists|i: int| 0 <= i < filters.len() && (#[trigger] filters[i]).accepts(text)
}

/// Whether some filter of the list accepts `text`.
pub fn any_matches(filters: &[Filter], text: &str) -> (yes: bool)
    ensures
        yes == any_accepts(filters@, text@),
{
    let mut i: usize = 0;
    while i < filters.len()
        invariant
            i <= filters@.len(),
            forall|k: int| 0 <= k < i ==> !(#[trigger] filters@[k]).accepts(text@),
        decreases filters@.len() - i,
    {
        if filters[i].matches(text) {
            return true;
        }
        i += 1;
    }
    false
}

} // verus!
