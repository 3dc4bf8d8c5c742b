//! What holds of all filters.
use vstd::prelude::*;

use crate::filter::{
    any_accepts, ascii_lowered_terms, ascii_terms, lowered_terms, terms_hold, written_terms, Filter,
    FilterTerm,
};
use crate::text::{lower_ascii, occurs};
use crate::unicode::{all_ascii, lowercase};

verus! {

/// A plain term has to occur; a term with the mark `exclude` must not occur.
pub proof fn law_terms_say_what_has_to_occur(text: String, exclude: bool)
    ensures
        FilterTerm::Simple(text).wanted() == text@,
        !FilterTerm::Simple(text).excluded(),
        (FilterTerm::Full { term: text, exclude }).wanted() == text@,
        (FilterTerm::Full { term: text, exclude }).excluded() == exclude,
{
}

/// The terms in each spelling are as many as the terms, and in their order.
pub proof fn law_terms_keep_their_order(terms: Seq<FilterTerm>, i: int)
    requires
        0 <= i < terms.len(),
    ensures
        written_terms(terms).len() == terms.len(),
        lowered_terms(terms).len() == terms.len(),
        ascii_lowered_terms(terms).len() == terms.len(),
        written_terms(terms)[i] == terms[i].wanted(),
        lowered_terms(terms)[i] == lowercase(terms[i].wanted()),
        ascii_lowered_terms(terms)[i] == lower_ascii(terms[i].wanted()),
        ascii_terms(terms) ==> forall|k: int|
            0 <= k < terms[i].wanted().len() ==> ((#[trigger] terms[i].wanted()[k]) as u32) < 128,
{
    if ascii_terms(terms) {
        assert(all_ascii(terms[i].wanted()));
    }
}

/// Texts and terms are ASCII if and only if each of their characters is below 128.
pub proof fn law_ascii_is_below_128(s: Seq<char>, terms: Seq<FilterTerm>)
    ensures
        all_ascii(s) <==> forall|i: int| 0 <= i < s.len() ==> ((#[trigger] s[i]) as u32) < 128,
        ascii_terms(terms) <==> forall|i: int|
            0 <= i < terms.len() ==> all_ascii((#[trigger] terms[i]).wanted()),
{
}

/// A text that a filter accepts holds each of its terms that has to occur, and none of those that
/// must not occur. A text that a filter refuses lacks one of the former or holds one of the latter.
/// Where letter case does not count, this is said of the lower case of the text and the terms.
pub proof fn law_filter_accepts_what_its_terms_ask_for(filter: Filter, text: Seq<char>)
    ensures
        filter.case_sensitive ==> (filter.accepts(text) <==> forall|i: int|
            0 <= i < filter.terms@.len() ==> match #[trigger] filter.terms@[i] {
                FilterTerm::Simple(term) => occurs(text, term@),
                FilterTerm::Full { term, exclude } => if exclude {
                    !occurs(text, term@)
                } else {
                    occurs(text, term@)
                },
            }),
        !filter.case_sensitive ==> (filter.accepts(text) <==> forall|i: int|
            0 <= i < filter.terms@.len() ==> match #[trigger] filter.terms@[i] {
                FilterTerm::Simple(term) => occurs(lowercase(text), lowercase(term@)),
                FilterTerm::Full { term, exclude } => if exclude {
                    !occurs(lowercase(text), lowercase(term@))
                } else {
                    occurs(lowercase(text), lowercase(term@))
                },
            }),
{
    let terms = filter.terms@;
    let written = written_terms(terms);
    let lowered = lowered_terms(terms);
    assert forall|i: int| 0 <= i < terms.len() implies #[trigger] written[i] == terms[i].wanted()
        && lowered[i] == lowercase(terms[i].wanted()) by {}
    if filter.case_sensitive {
        if filter.accepts(text) {
            assert forall|i: int| 0 <= i < terms.len() implies match #[trigger] terms[i] {
                FilterTerm::Simple(term) => occurs(text, term@),
                FilterTerm::Full { term, exclude } => if exclude {
                    !occurs(text, term@)
                } else {
                    occurs(text, term@)
                },
            } by {
                assert(occurs(text, written[i]) != terms[i].excluded());
            }
        }
    } else if filter.accepts(text) {
        assert forall|i: int| 0 <= i < terms.len() implies match #[trigger] terms[i] {
            FilterTerm::Simple(term) => occurs(lowercase(text), lowercase(term@)),
            FilterTerm::Full { term, exclude } => if exclude {
                !occurs(lowercase(text), lowercase(term@))
            } else {
                occurs(lowercase(text), lowercase(term@))
            },
        } by {
            assert(occurs(lowercase(text), lowered[i]) != terms[i].excluded());
        }
    }
}

/// With the lower case of the text and the terms given, a filter looks for the terms as they are
/// written in the text where letter case counts, and for the given ones in the given text where it
/// does not.
pub proof fn law_filter_accepts_given_spellings(
    filter: Filter,
    text: Seq<char>,
    lower_text: Seq<char>,
    lower_terms: Seq<Seq<char>>,
)
    requires
        lower_terms.len() == filter.terms@.len(),
    ensures
        filter.accepts_given(text, lower_text, lower_terms) <==> forall|i: int|
            0 <= i < filter.terms@.len() ==> (#[trigger] filter.terms@[i]).excluded() != (
            if filter.case_sensitive {
                occurs(text, filter.terms@[i].wanted())
            } else {
                occurs(lower_text, lower_terms[i])
            }),
{
    let terms = filter.terms@;
    let written = written_terms(terms);
    assert forall|i: int| 0 <= i < terms.len() implies #[trigger] written[i]
        == terms[i].wanted() by {}
    if filter.accepts_given(text, lower_text, lower_terms) {
        assert forall|i: int| 0 <= i < terms.len() implies (#[trigger] terms[i]).excluded() != (
        if filter.case_sensitive {
            occurs(text, terms[i].wanted())
        } else {
            occurs(lower_text, lower_terms[i])
        }) by {
            if filter.case_sensitive {
                assert(occurs(text, written[i]) != terms[i].excluded());
            } else {
                assert(occurs(lower_text, lower_terms[i]) != terms[i].excluded());
            }
        }
    }
}

/// No text that a filter accepts holds one of its excluded terms.
pub proof fn law_excluded_terms_do_not_occur(filter: Filter, text: Seq<char>, i: int)
    requires
        filter.accepts(text),
        0 <= i < filter.terms@.len(),
        filter.terms@[i] is Full,
        filter.terms@[i]->exclude,
    ensures
        filter.case_sensitive ==> !occurs(text, filter.terms@[i]->term@),
        !filter.case_sensitive ==> !occurs(lowercase(text), lowercase(filter.terms@[i]->term@)),
{
    law_filter_accepts_what_its_terms_ask_for(filter, text);
}

/// A filter accepts a text if and only if each filter with one of its terms does.
pub proof fn law_filter_is_its_terms_together(filter: Filter, singles: Seq<Filter>, text: Seq<char>)
    requires
        singles.len() == filter.terms@.len(),
        forall|i: int|
            0 <= i < singles.len() ==> (#[trigger] singles[i]).terms@ == seq![filter.terms@[i]]
                && singles[i].case_sensitive == filter.case_sensitive,
    ensures
        filter.accepts(text) <==> forall|i: int|
            0 <= i < singles.len() ==> (#[trigger] singles[i]).accepts(text),
{
    law_filter_accepts_what_its_terms_ask_for(filter, text);
    assert forall|i: int| 0 <= i < singles.len() implies ((#[trigger] singles[i]).accepts(text)
        <==> match filter.terms@[i] {
        FilterTerm::Simple(term) => if filter.case_sensitive {
            occurs(text, term@)
        } else {
            occurs(lowercase(text), lowercase(term@))
        },
        FilterTerm::Full { term, exclude } => exclude != if filter.case_sensitive {
            occurs(text, term@)
        } else {
            occurs(lowercase(text), lowercase(term@))
        },
    }) by {
        law_filter_accepts_what_its_terms_ask_for(singles[i], text);
        assert(singles[i].terms@.len() == 1);
        assert(singles[i].terms@[0] == filter.terms@[i]);
    }
    if filter.accepts(text) {
        assert forall|i: int| 0 <= i < singles.len() implies (#[trigger] singles[i]).accepts(
            text,
        ) by {
            let term = filter.terms@[i];
        }
    }
    if forall|i: int| 0 <= i < singles.len() ==> (#[trigger] singles[i]).accepts(text) {
        let terms = filter.terms@;
        assert forall|i: int| 0 <= i < terms.len() implies match #[trigger] terms[i] {
            FilterTerm::Simple(term) => if filter.case_sensitive {
                occurs(text, term@)
            } else {
                occurs(lowercase(text), lowercase(term@))
            },
            FilterTerm::Full { term, exclude } => exclude != if filter.case_sensitive {
                occurs(text, term@)
            } else {
                occurs(lowercase(text), lowercase(term@))
            },
        } by {
            assert(singles[i].accepts(text));
        }
    }
}

/// A filter with the terms of two filters accepts what both of them accept.
pub proof fn law_filter_of_two_accepts_what_both_accept(
    both: Filter,
    first: Filter,
    second: Filter,
    text: Seq<char>,
)
    requires
        both.terms@ == first.terms@ + second.terms@,
        both.case_sensitive == first.case_sensitive,
        both.case_sensitive == second.case_sensitive,
    ensures
        both.accepts(text) <==> first.accepts(text) && second.accepts(text),
{
    law_filter_accepts_what_its_terms_ask_for(both, text);
    law_filter_accepts_what_its_terms_ask_for(first, text);
    law_filter_accepts_what_its_terms_ask_for(second, text);
    let n = first.terms@.len() as int;
    assert forall|i: int| 0 <= i < n implies both.terms@[i] == #[trigger] first.terms@[i] by {}
    assert forall|i: int| 0 <= i < second.terms@.len() implies both.terms@[n + i]
        == #[trigger] second.terms@[i] by {}
    if first.accepts(text) && second.accepts(text) {
        assert forall|i: int| 0 <= i < both.terms@.len() implies (#[trigger] both.terms@[i]) == if i
            < n {
            first.terms@[i]
        } else {
            second.terms@[i - n]
        } by {}
    }
}

/// The terms hold if and only if each of them, in the spelling looked for, occurs or is excluded,
/// and not both.
pub proof fn law_terms_hold_one_by_one(
    terms: Seq<FilterTerm>,
    wanted: Seq<Seq<char>>,
    text: Seq<char>,
)
    requires
        terms.len() == wanted.len(),
    ensures
        terms_hold(terms, wanted, text) <==> forall|i: int|
            0 <= i < terms.len() ==> (#[trigger] terms[i]).excluded() != occurs(text, wanted[i]),
{
    if terms_hold(terms, wanted, text) {
        assert forall|i: int| 0 <= i < terms.len() implies (#[trigger] terms[i]).excluded()
            != occurs(text, wanted[i]) by {
            assert(occurs(text, wanted[i]) != terms[i].excluded());
        }
    }
}

/// A list of filters accepts what one of them accepts: nothing if there is none, what a filter
/// accepts if it is the only one, and what one of two lists accepts if it is both of them.
pub proof fn law_one_filter_is_enough(
    filter: Filter,
    first: Seq<Filter>,
    second: Seq<Filter>,
    text: Seq<char>,
)
    ensures
        !any_accepts(Seq::empty(), text),
        any_accepts(seq![filter], text) <==> filter.accepts(text),
        any_accepts(first + second, text) <==> any_accepts(first, text) || any_accepts(
            second,
            text,
        ),
{
    let one = seq![filter];
    if filter.accepts(text) {
        assert(one[0].accepts(text));
    }
    let all = first + second;
    let n = first.len() as int;
    if any_accepts(first, text) {
        let i = choose|i: int| 0 <= i < first.len() && (#[trigger] first[i]).accepts(text);
        assert(all[i] == first[i]);
        assert(all[i].accepts(text));
    }
    if any_accepts(second, text) {
        let i = choose|i: int| 0 <= i < second.len() && (#[trigger] second[i]).accepts(text);
        assert(all[n + i] == second[i]);
        assert(all[n + i].accepts(text));
    }
    if any_accepts(all, text) {
        let i = choose|i: int| 0 <= i < all.len() && (#[trigger] all[i]).accepts(text);
        if i < n {
            assert(first[i].accepts(text));
        } else {
            assert(second[i - n].accepts(text));
        }
    }
}

} // verus!
