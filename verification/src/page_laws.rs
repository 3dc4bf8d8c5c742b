//! What holds of all pages.
use vstd::prelude::*;

use crate::filter::{any_accepts, Filter};
use crate::page::{
    entries_of, entry_of, entry_parts, first_accepted, fits, heading_parts, item_parts, link_parts,
    magnets, magnets_of, optional_parts, parsed_len, target_parts, targets, Anchor, EntryParts,
    Heading, Item, Link, LinkFilters, UrlParts, VideoEntry,
};
use crate::text::{
    begins, is_space, lemma_trimmed_end, lemma_trimmed_start, optional_text, texts, trimmed,
    trimmed_start,
};
use crate::text_laws::law_beginning_and_end;
use crate::url::{parsed_url, Url};

verus! {

/// `link` is a magnet link in the item at position `i`, which some filter accepts.
pub open spec fn is_wanted_magnet(
    items: Seq<(Seq<char>, Seq<Seq<char>>)>,
    filters: Seq<Filter>,
    i: int,
    link: Seq<char>,
) -> bool {
    &&& 0 <= i < items.len()
    &&& any_accepts(filters, items[i].0)
    &&& items[i].1.contains(link)
    &&& begins(link, "magnet:"@)
}

/// Exactly the magnet links in items that some filter accepts are found.
pub proof fn law_wanted_magnets_are_found(
    items: Seq<(Seq<char>, Seq<Seq<char>>)>,
    filters: Seq<Filter>,
    link: Seq<char>,
)
    ensures
        magnets_of(items, filters).contains(link) <==> exists|i: int|
            is_wanted_magnet(items, filters, i, link),
    decreases items.len(),
{
    let found = magnets_of(items, filters);
    if items.len() > 0 {
        let front = items.drop_last();
        let last = items.len() - 1;
        let inside = magnets_of(front, filters);
        let added = if any_accepts(filters, items.last().0) {
            magnets(items.last().1)
        } else {
            Seq::empty()
        };
        law_wanted_magnets_are_found(front, filters, link);
        lemma_magnets(items.last().1, link);
        assert(found == inside + added);
        if found.contains(link) {
            let k = choose|k: int| 0 <= k < found.len() && found[k] == link;
            if k < inside.len() {
                assert(inside[k] == link);
                let i = choose|i: int| is_wanted_magnet(front, filters, i, link);
                assert(is_wanted_magnet(items, filters, i, link));
            } else {
                assert(added[k - inside.len()] == link);
                assert(added.contains(link));
                assert(is_wanted_magnet(items, filters, last, link));
            }
        }
        if exists|i: int| is_wanted_magnet(items, filters, i, link) {
            let i = choose|i: int| is_wanted_magnet(items, filters, i, link);
            if i < last {
                assert(is_wanted_magnet(front, filters, i, link));
                let k = choose|k: int| 0 <= k < inside.len() && inside[k] == link;
                assert(found[k] == link);
            } else {
                let k = choose|k: int| 0 <= k < added.len() && added[k] == link;
                assert(found[inside.len() + k] == link);
            }
        }
    } else {
        assert(found =~= Seq::empty());
    }
}

proof fn lemma_magnets(links: Seq<Seq<char>>, link: Seq<char>)
    ensures
        magnets(links).contains(link) <==> links.contains(link) && begins(link, "magnet:"@),
    decreases links.len(),
{
    reveal(Seq::filter);
    if links.len() > 0 {
        let front = links.drop_last();
        let last = links.last();
        lemma_magnets(front, link);
        assert(front.push(last) =~= links);
        lemma_push_contains(front, last, link);
        lemma_push_contains(magnets(front), last, link);
    } else {
        assert(magnets(links) =~= Seq::empty());
    }
}

proof fn lemma_push_contains(list: Seq<Seq<char>>, item: Seq<char>, wanted: Seq<char>)
    ensures
        list.push(item).contains(wanted) <==> list.contains(wanted) || item == wanted,
{
    let longer = list.push(item);
    if list.contains(wanted) {
        let k = choose|k: int| 0 <= k < list.len() && list[k] == wanted;
        assert(longer[k] == wanted);
    }
    if item == wanted {
        assert(longer[list.len() as int] == wanted);
    }
    if longer.contains(wanted) {
        let k = choose|k: int| 0 <= k < longer.len() && longer[k] == wanted;
        if k < list.len() {
            assert(list[k] == wanted);
        }
    }
}

/// Without filters no magnet link is found.
pub proof fn law_no_filters_no_magnets(items: Seq<(Seq<char>, Seq<Seq<char>>)>)
    ensures
        magnets_of(items, Seq::empty()).len() == 0,
    decreases items.len(),
{
    if items.len() > 0 {
        law_no_filters_no_magnets(items.drop_last());
    }
}

/// The link at position `i` is the first one whose text some filter accepts.
pub open spec fn is_first_accepted(
    links: Seq<(Seq<char>, UrlParts)>,
    filters: Seq<Filter>,
    i: int,
) -> bool {
    &&& 0 <= i < links.len()
    &&& any_accepts(filters, links[i].0)
    &&& forall|k: int| 0 <= k < i ==> !any_accepts(filters, (#[trigger] links[k]).0)
}

/// The link of an entry is the first one whose text some filter accepts. An entry lacks the link
/// if and only if there is no such link.
pub proof fn law_first_matching_link_is_taken(
    links: Seq<(Seq<char>, UrlParts)>,
    filters: Seq<Filter>,
)
    ensures
        match first_accepted(links, filters) {
            Some(url) => exists|i: int|
                #[trigger] is_first_accepted(links, filters, i) && links[i].1 == url,
            None => forall|i: int|
                0 <= i < links.len() ==> !any_accepts(filters, (#[trigger] links[i]).0),
        },
    decreases links.len(),
{
    if links.len() > 0 {
        if any_accepts(filters, links[0].0) {
            assert(is_first_accepted(links, filters, 0));
        } else {
            let rest = links.skip(1);
            law_first_matching_link_is_taken(rest, filters);
            match first_accepted(rest, filters) {
                Some(url) => {
                    let i = choose|i: int|
                        #[trigger] is_first_accepted(rest, filters, i) && rest[i].1 == url;
                    assert forall|k: int| 0 <= k < i + 1 implies !any_accepts(
                        filters,
                        (#[trigger] links[k]).0,
                    ) by {
                        if k > 0 {
                            assert(links[k] == rest[k - 1]);
                        }
                    }
                    assert(links[i + 1] == rest[i]);
                    assert(is_first_accepted(links, filters, i + 1));
                },
                None => {
                    assert forall|i: int| 0 <= i < links.len() implies !any_accepts(
                        filters,
                        (#[trigger] links[i]).0,
                    ) by {
                        if i > 0 {
                            assert(links[i] == rest[i - 1]);
                        }
                    }
                },
            }
        }
    }
}

/// The title of an entry is not empty, and has no whitespace around it.
pub open spec fn has_title(entry: EntryParts) -> bool {
    &&& entry.0.len() > 0
    &&& !is_space(entry.0[0])
    &&& !is_space(entry.0.last())
}

/// Each entry has a title, without whitespace around it.
pub proof fn law_entries_have_titles(
    headings: Seq<(Seq<char>, Option<Seq<Anchor>>)>,
    filters: LinkFilters,
)
    ensures
        entries_of(headings, filters).len() <= headings.len(),
        forall|i: int|
            0 <= i < entries_of(headings, filters).len() ==> has_title(
                #[trigger] entries_of(headings, filters)[i],
            ),
    decreases headings.len(),
{
    if headings.len() > 0 {
        law_entries_have_titles(headings.drop_last(), filters);
        let text = headings.last().0;
        lemma_trimmed_start(text);
        lemma_trimmed_end(trimmed_start(text));
        let front = entries_of(headings.drop_last(), filters);
        let all = entries_of(headings, filters);
        assert forall|i: int| 0 <= i < all.len() implies has_title(#[trigger] all[i]) by {
            if i < front.len() {
                assert(all[i] == front[i]);
            } else {
                assert(all[i].0 == trimmed(text));
            }
        }
    }
}

/// What is known of an item, a link, a heading and an entry is all that they hold.
pub proof fn law_nothing_is_left_out(item: Item, link: Link, heading: Heading, entry: VideoEntry)
    ensures
        item.parts() == (item.text@, texts(item.links@)),
        link.parts() == (link.text@, optional_text(link.href)),
        heading.parts().0 == heading.text@,
        heading.links is None <==> heading.parts().1 is None,
        heading.links is Some ==> heading.parts().1 == Some(link_parts(heading.links->0@)),
        entry.parts().0 == entry.title@,
        entry.thumbnail_url is None <==> entry.parts().1 is None,
        entry.thumbnail_url is Some ==> entry.parts().1 == Some(entry.thumbnail_url->0.parts()),
        entry.video_url is None <==> entry.parts().2 is None,
        entry.video_url is Some ==> entry.parts().2 == Some(entry.video_url->0.parts()),
{
}

/// What is known of a list is what is known of each of its members, in order.
pub proof fn law_lists_are_known_by_their_members(
    items: Seq<Item>,
    links: Seq<Link>,
    headings: Seq<Heading>,
    entries: Seq<VideoEntry>,
    found: Seq<(String, Url)>,
    url: Option<Url>,
)
    ensures
        item_parts(items).len() == items.len(),
        forall|i: int|
            0 <= i < items.len() ==> (#[trigger] item_parts(items)[i]) == items[i].parts(),
        link_parts(links).len() == links.len(),
        forall|i: int|
            0 <= i < links.len() ==> (#[trigger] link_parts(links)[i]) == links[i].parts(),
        heading_parts(headings).len() == headings.len(),
        forall|i: int|
            0 <= i < headings.len() ==> (#[trigger] heading_parts(headings)[i])
                == headings[i].parts(),
        entry_parts(entries).len() == entries.len(),
        forall|i: int|
            0 <= i < entries.len() ==> (#[trigger] entry_parts(entries)[i]) == entries[i].parts(),
        target_parts(found).len() == found.len(),
        forall|i: int|
            0 <= i < found.len() ==> (#[trigger] target_parts(found)[i]) == (
                found[i].0@,
                found[i].1.parts(),
            ),
        url is None <==> optional_parts(url) is None,
        url is Some ==> optional_parts(url) == Some(url->0.parts()),
{
}

/// The magnet links of an item are the links that begin with `magnet:`, each as often as it is
/// there, and in order.
pub proof fn law_magnets_begin_with_magnet(
    link: Seq<char>,
    first: Seq<Seq<char>>,
    second: Seq<Seq<char>>,
)
    ensures
        magnets(Seq::empty()) == Seq::<Seq<char>>::empty(),
        magnets(first + second) == magnets(first) + magnets(second),
        magnets(seq!["magnet:"@ + link]) == seq!["magnet:"@ + link],
        (forall|rest: Seq<char>| link != #[trigger] ("magnet:"@ + rest)) ==> magnets(seq![link])
            == Seq::<Seq<char>>::empty(),
    decreases second.len(),
{
    reveal(Seq::filter);
    let none = Seq::<Seq<char>>::empty();
    assert(magnets(none) =~= none);
    let magnet = "magnet:"@ + link;
    law_beginning_and_end(magnet, "magnet:"@);
    law_beginning_and_end(link, "magnet:"@);
    assert(seq![magnet].drop_last() =~= none);
    assert(magnets(seq![magnet]) =~= seq![magnet]);
    assert(seq![link].drop_last() =~= none);
    if !begins(link, "magnet:"@) {
        assert(magnets(seq![link]) =~= none);
    }
    let all = first + second;
    if second.len() == 0 {
        assert(all =~= first);
        assert(magnets(first) + magnets(second) =~= magnets(first));
    } else {
        assert(all.drop_last() =~= first + second.drop_last());
        assert(all.last() == second.last());
        law_magnets_begin_with_magnet(link, first, second.drop_last());
        assert(magnets(all) =~= magnets(first) + magnets(second));
    }
}

/// The items of a page are dealt with one by one, in order: an item that some filter accepts gives
/// all its magnet links, and any other item gives none.
pub proof fn law_items_give_their_magnets(
    text: Seq<char>,
    links: Seq<Seq<char>>,
    first: Seq<(Seq<char>, Seq<Seq<char>>)>,
    second: Seq<(Seq<char>, Seq<Seq<char>>)>,
    filters: Seq<Filter>,
)
    ensures
        magnets_of(Seq::empty(), filters) == Seq::<Seq<char>>::empty(),
        any_accepts(filters, text) ==> magnets_of(seq![(text, links)], filters) == magnets(links),
        !any_accepts(filters, text) ==> magnets_of(seq![(text, links)], filters) == Seq::<
            Seq<char>,
        >::empty(),
        magnets_of(first + second, filters) == magnets_of(first, filters) + magnets_of(
            second,
            filters,
        ),
    decreases second.len(),
{
    let none = Seq::<(Seq<char>, Seq<Seq<char>>)>::empty();
    let nothing = Seq::<Seq<char>>::empty();
    let one = seq![(text, links)];
    assert(magnets_of(none, filters) == nothing);
    assert(one.drop_last() =~= none);
    assert(nothing + magnets(links) =~= magnets(links));
    assert(nothing + nothing =~= nothing);
    let all = first + second;
    if second.len() == 0 {
        assert(all =~= first);
        assert(magnets_of(first, filters) + nothing =~= magnets_of(first, filters));
    } else {
        assert(all.drop_last() =~= first + second.drop_last());
        assert(all.last() == second.last());
        law_items_give_their_magnets(text, links, first, second.drop_last(), filters);
        assert(magnets_of(all, filters) =~= magnets_of(first, filters) + magnets_of(
            second,
            filters,
        ));
    }
}

/// Each anchor whose target, without whitespace around it, is a link gives that link with the text
/// of the anchor, without whitespace around it; any other anchor gives none. The order stays.
pub proof fn law_anchors_give_their_links(
    text: Seq<char>,
    href: Seq<char>,
    first: Seq<Anchor>,
    second: Seq<Anchor>,
)
    ensures
        targets(Seq::empty()) == Seq::<(Seq<char>, UrlParts)>::empty(),
        targets(seq![(text, None)]) == Seq::<(Seq<char>, UrlParts)>::empty(),
        parsed_url(trimmed(href)) is None ==> targets(seq![(text, Some(href))]) == Seq::<
            (Seq<char>, UrlParts),
        >::empty(),
        parsed_url(trimmed(href)) is Some ==> targets(seq![(text, Some(href))]) == seq![
            (trimmed(text), parsed_url(trimmed(href))->0),
        ],
        targets(first + second) == targets(first) + targets(second),
    decreases second.len(),
{
    let none = Seq::<Anchor>::empty();
    let nothing = Seq::<(Seq<char>, UrlParts)>::empty();
    assert(targets(none) == nothing);
    let absent: Anchor = (text, None);
    let present: Anchor = (text, Some(href));
    assert(seq![absent].drop_last() =~= none);
    assert(seq![present].drop_last() =~= none);
    if parsed_url(trimmed(href)) is Some {
        assert(targets(seq![present]) =~= seq![(trimmed(text), parsed_url(trimmed(href))->0)]);
    }
    let all = first + second;
    if second.len() == 0 {
        assert(all =~= first);
        assert(targets(first) + nothing =~= targets(first));
    } else {
        assert(all.drop_last() =~= first + second.drop_last());
        assert(all.last() == second.last());
        law_anchors_give_their_links(text, href, first, second.drop_last());
        assert(targets(all) =~= targets(first) + targets(second));
    }
}

/// A link is taken if its text is accepted and that of no link in front of it is, whatever follows.
/// No link is taken if no text is accepted.
pub proof fn law_links_in_front_are_not_accepted(
    front: Seq<(Seq<char>, UrlParts)>,
    link: (Seq<char>, UrlParts),
    behind: Seq<(Seq<char>, UrlParts)>,
    filters: Seq<Filter>,
)
    requires
        forall|i: int| 0 <= i < front.len() ==> !any_accepts(filters, (#[trigger] front[i]).0),
        any_accepts(filters, link.0),
    ensures
        first_accepted(front, filters) is None,
        first_accepted(front + seq![link] + behind, filters) == Some(link.1),
    decreases front.len(),
{
    let all = front + seq![link] + behind;
    if front.len() > 0 {
        let rest = front.skip(1);
        assert forall|i: int| 0 <= i < rest.len() implies !any_accepts(
            filters,
            (#[trigger] rest[i]).0,
        ) by {
            assert(rest[i] == front[i + 1]);
        }
        assert(all[0] == front[0]);
        assert(!any_accepts(filters, front[0].0));
        assert(all.skip(1) =~= rest + seq![link] + behind);
        law_links_in_front_are_not_accepted(rest, link, behind, filters);
    } else {
        assert(all[0] == link);
    }
}

/// An entry has its title, the first link that the filters for thumbnails accept, and the first one
/// that the filters for videos accept.
pub proof fn law_entry_has_its_two_links(
    title: Seq<char>,
    links: Seq<(Seq<char>, UrlParts)>,
    filters: LinkFilters,
)
    ensures
        entry_of(title, links, filters).0 == title,
        entry_of(title, links, filters).1 == first_accepted(links, filters.thumbnail@),
        entry_of(title, links, filters).2 == first_accepted(links, filters.video@),
{
}

/// Every heading inside an element whose text is more than whitespace gives one entry, with its
/// text as title and the links beside it, however many entries there are. Any other heading gives
/// none. The order stays.
pub proof fn law_every_heading_gives_an_entry(
    text: Seq<char>,
    anchors: Seq<Anchor>,
    first: Seq<(Seq<char>, Option<Seq<Anchor>>)>,
    second: Seq<(Seq<char>, Option<Seq<Anchor>>)>,
    filters: LinkFilters,
)
    ensures
        entries_of(Seq::empty(), filters) == Seq::<EntryParts>::empty(),
        entries_of(seq![(text, None)], filters) == Seq::<EntryParts>::empty(),
        trimmed(text).len() == 0 ==> entries_of(seq![(text, Some(anchors))], filters) == Seq::<
            EntryParts,
        >::empty(),
        trimmed(text).len() > 0 ==> entries_of(seq![(text, Some(anchors))], filters) == seq![
            (
                trimmed(text),
                first_accepted(targets(anchors), filters.thumbnail@),
                first_accepted(targets(anchors), filters.video@),
            ),
        ],
        entries_of(first + second, filters) == entries_of(first, filters) + entries_of(
            second,
            filters,
        ),
    decreases second.len(),
{
    let none = Seq::<(Seq<char>, Option<Seq<Anchor>>)>::empty();
    let nothing = Seq::<EntryParts>::empty();
    assert(entries_of(none, filters) == nothing);
    let alone: (Seq<char>, Option<Seq<Anchor>>) = (text, None);
    let inside: (Seq<char>, Option<Seq<Anchor>>) = (text, Some(anchors));
    assert(seq![alone].drop_last() =~= none);
    assert(seq![inside].drop_last() =~= none);
    if trimmed(text).len() > 0 {
        assert(entries_of(seq![inside], filters) =~= seq![
            entry_of(trimmed(text), targets(anchors), filters),
        ]);
    }
    let all = first + second;
    if second.len() == 0 {
        assert(all =~= first);
        assert(entries_of(first, filters) + nothing =~= entries_of(first, filters));
    } else {
        assert(all.drop_last() =~= first + second.drop_last());
        assert(all.last() == second.last());
        law_every_heading_gives_an_entry(text, anchors, first, second.drop_last(), filters);
        assert(entries_of(all, filters) =~= entries_of(first, filters) + entries_of(
            second,
            filters,
        ));
    }
}

/// There are as many entries as headings inside an element whose text is more than whitespace.
pub proof fn law_no_heading_is_passed_over(
    headings: Seq<(Seq<char>, Option<Seq<Anchor>>)>,
    filters: LinkFilters,
)
    requires
        forall|i: int|
            0 <= i < headings.len() ==> (#[trigger] headings[i]).1 is Some && trimmed(
                headings[i].0,
            ).len() > 0,
    ensures
        entries_of(headings, filters).len() == headings.len(),
        forall|i: int|
            0 <= i < headings.len() ==> (#[trigger] entries_of(headings, filters)[i]).0 == trimmed(
                headings[i].0,
            ),
    decreases headings.len(),
{
    if headings.len() > 0 {
        let front = headings.drop_last();
        assert forall|i: int| 0 <= i < front.len() implies (#[trigger] front[i]).1 is Some
            && trimmed(front[i].0).len() > 0 by {
            assert(front[i] == headings[i]);
        }
        law_no_heading_is_passed_over(front, filters);
        let last = headings[headings.len() - 1];
        law_every_heading_gives_an_entry(last.0, last.1->0, front, seq![last], filters);
        assert(front + seq![last] =~= headings);
    }
}

/// A text is short enough for a page as long as its bytes, a NUL byte counted three times and a `&`
/// twice, are no more than two to the power of 31.
pub proof fn law_bytes_of_a_page_are_counted(byte: u8, first: Seq<u8>, second: Seq<u8>)
    ensures
        parsed_len(Seq::empty()) == 0,
        parsed_len(seq![byte]) == if byte == 0 {
            3nat
        } else if byte == 38 {
            2nat
        } else {
            1nat
        },
        parsed_len(first + second) == parsed_len(first) + parsed_len(second),
        forall|content: Seq<char>| #[trigger]
            fits(content) <==> parsed_len(vstd::utf8::encode_utf8(content)) <= 2147483648,
    decreases second.len(),
{
    assert(seq![byte].drop_last() =~= Seq::<u8>::empty());
    assert(parsed_len(Seq::<u8>::empty()) == 0);
    let all = first + second;
    if second.len() == 0 {
        assert(all =~= first);
    } else {
        assert(all.drop_last() =~= first + second.drop_last());
        assert(all.last() == second.last());
        law_bytes_of_a_page_are_counted(byte, first, second.drop_last());
    }
}

} // verus!
