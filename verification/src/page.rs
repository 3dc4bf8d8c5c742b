//! Notification pages: the magnet links and the video entries in them.
use vstd::prelude::*;
use vstd::utf8::encode_utf8;

use crate::filter::{any_accepts, any_matches, Filter};
use crate::text::{begins, optional_text, starts_with, texts, trim, trimmed};
use crate::url::{parsed_url, Url};

verus! {

/// What is known of a link: its whole text, its host and its path.
pub type UrlParts = (Seq<char>, Option<Seq<char>>, Seq<char>);

/// What is known of an anchor: its text, and its target where it has one.
pub type Anchor = (Seq<char>, Option<Seq<char>>);

/// A lower case name of an element or an attribute.
pub open spec fn is_tag_name(s: Seq<char>) -> bool {
    &&& s.len() > 0
    &&& 'a' <= s[0] <= 'z'
    &&& forall|i: int| 0 <= i < s.len() ==> 'a' <= #[trigger] s[i] <= 'z' || '0' <= s[i] <= '9'
}

/// `s` is `tag[attribute]`.
pub open spec fn is_attribute_selector(s: Seq<char>, tag: Seq<char>, attribute: Seq<char>) -> bool {
    is_tag_name(tag) && is_tag_name(attribute) && s == tag + seq!['['] + attribute + seq![']']
}

/// A selector that is a tag name, or a tag name and an attribute in brackets.
pub open spec fn is_simple_selector(s: Seq<char>) -> bool {
    is_tag_name(s) || exists|tag: Seq<char>, attribute: Seq<char>|
        is_attribute_selector(s, tag, attribute)
}

/// The length in bytes up to which a text of a page can grow in the HTML parser, which keeps it in
/// a buffer whose capacity is a power of two that fits in 32 bits.
pub const MAX_PARSED_LEN: u64 = 0x8000_0000;

/// How many bytes the HTML parser makes of a byte at most: three of a NUL byte, which it replaces
/// by U+FFFD, and one more of a character reference than it is written with.
pub open spec fn parsed_width(byte: u8) -> nat {
    if byte == 0 {
        3
    } else if byte == 0x26 {
        2
    } else {
        1
    }
}

/// How many bytes the HTML parser makes of the bytes at most.
pub open spec fn parsed_len(bytes: Seq<u8>) -> nat
    decreases bytes.len(),
{
    if bytes.len() == 0 {
        0
    } else {
        parsed_len(bytes.drop_last()) + parsed_width(bytes.last())
    }
}

/// The text is short enough for a page.
pub open spec fn fits(content: Seq<char>) -> bool {
    parsed_len(encode_utf8(content)) <= MAX_PARSED_LEN
}

proof fn lemma_parsed_len_grows(bytes: Seq<u8>, n: int)
    requires
        0 <= n <= bytes.len(),
    ensures
        parsed_len(bytes.take(n)) <= parsed_len(bytes),
    decreases bytes.len(),
{
    if n == bytes.len() {
        assert(bytes.take(n) =~= bytes);
    } else {
        lemma_parsed_len_grows(bytes.drop_last(), n);
        assert(bytes.drop_last().take(n) =~= bytes.take(n));
    }
}

/// Whether the text is short enough for a page.
pub fn is_short_enough(content: &str) -> (yes: bool)
    ensures
        yes == fits(content@),
{
    let bytes = content.as_bytes();
    let mut total: u64 = 0;
    let mut i: usize = 0;
    while i < bytes.len()
        invariant
            i <= bytes@.len(),
            bytes@ == encode_utf8(content@),
            total == parsed_len(bytes@.take(i as int)),
            total <= MAX_PARSED_LEN,
        decreases bytes@.len() - i,
    {
        let byte: u8 = bytes[i];
        let width: u64 = if byte == 0 {
            3
        } else if byte == 0x26 {
            2
        } else {
            1
        };
        total += width;
        i += 1;
        assert(bytes@.take(i as int).drop_last() =~= bytes@.take(i - 1));
        if total > MAX_PARSED_LEN {
            proof {
                lemma_parsed_len_grows(bytes@, i as int);
            }
            return false;
        }
    }
    assert(bytes@.take(i as int) =~= bytes@);
    true
}

/// The text of each element of the page that matches `outer`, with the texts of the elements
/// inside it that match `inner`.
pub uninterp spec fn selected_inside(
    content: Seq<char>,
    outer: Seq<char>,
    inner: Seq<char>,
) -> Seq<(Seq<char>, Seq<Seq<char>>)>;

/// The text of each element of the page that matches `outer`, with the text and the given
/// attribute of the elements inside its parent that match `inner`, where its parent is an element.
pub uninterp spec fn selected_beside(
    content: Seq<char>,
    outer: Seq<char>,
    inner: Seq<char>,
    attribute: Seq<char>,
) -> Seq<(Seq<char>, Option<Seq<(Seq<char>, Option<Seq<char>>)>>)>;

/// A list item: its whole text, and the texts of the links in it.
#[derive(Debug)]
pub struct Item {
    pub text: String,
    pub links: Vec<String>,
}

impl Item {
    /// The text and the texts of the links.
    pub open spec fn parts(self) -> (Seq<char>, Seq<Seq<char>>) {
        (self.text@, texts(self.links@))
    }
}

/// The parts of the items.
pub open spec fn item_parts(items: Seq<Item>) -> Seq<(Seq<char>, Seq<Seq<char>>)> {
    items.map_values(|item: Item| item.parts())
}

/// A link: its text, and its target where it has one.
#[derive(Debug)]
pub struct Link {
    pub text: String,
    pub href: Option<String>,
}

impl Link {
    /// The text and the target.
    pub open spec fn parts(self) -> Anchor {
        (self.text@, optional_text(self.href))
    }
}

/// The parts of the links.
pub open spec fn link_parts(links: Seq<Link>) -> Seq<Anchor> {
    links.map_values(|link: Link| link.parts())
}

/// A heading: its text, and the links in the element around it, where there is such an element.
#[derive(Debug)]
pub struct Heading {
    pub text: String,
    pub links: Option<Vec<Link>>,
}

impl Heading {
    /// The text and the parts of the links.
    pub open spec fn parts(self) -> (Seq<char>, Option<Seq<Anchor>>) {
        (
            self.text@,
            match self.links {
                Some(links) => Some(link_parts(links@)),
                None => None,
            },
        )
    }
}

/// The parts of the headings.
pub open spec fn heading_parts(headings: Seq<Heading>) -> Seq<(Seq<char>, Option<Seq<Anchor>>)> {
    headings.map_values(|heading: Heading| heading.parts())
}

/// `scraper::Html::parse_document`, `scraper::Html::select` and `scraper::ElementRef::select`
/// with `scraper::Selector::parse`, and `scraper::ElementRef::text`. What they give is a function
/// of the content and the two selectors. A tag name, with or without an attribute in brackets, is
/// a valid selector, so that `Selector::parse` does not fail. A content that is short enough does
/// not overflow the buffers of `parse_document`, which panics on one that does.
#[verifier::external_body]
fn select_inside(content: &str, outer: &str, inner: &str) -> (items: Vec<Item>)
    requires
        fits(content@),
        is_simple_selector(outer@),
        is_simple_selector(inner@),
    ensures
        item_parts(items@) == selected_inside(content@, outer@, inner@),
{
    let outer = scraper::Selector::parse(outer).unwrap();
    let inner = scraper::Selector::parse(inner).unwrap();
    scraper::Html::parse_document(content)
        .select(&outer)
        .map(|element| Item {
            text: element.text().collect(),
            links: element.select(&inner).map(|link| link.text().collect()).collect(),
        })
        .collect()
}

/// `scraper::Html::parse_document`, `scraper::Html::select` and `scraper::ElementRef::select`
/// with `scraper::Selector::parse`, `parent` and `scraper::ElementRef::wrap`,
/// `scraper::ElementRef::text` and `scraper::ElementRef::attr`. What they give is a function of
/// the content, the two selectors and the name of the attribute. A tag name, with or without an
/// attribute in brackets, is a valid selector, so that `Selector::parse` does not fail. A content
/// that is short enough does not overflow the buffers of `parse_document`, which panics on one
/// that does.
#[verifier::external_body]
fn select_beside(content: &str, outer: &str, inner: &str, attribute: &str) -> (headings: Vec<
    Heading,
>)
    requires
        fits(content@),
        is_simple_selector(outer@),
        is_simple_selector(inner@),
    ensures
        heading_parts(headings@) == selected_beside(content@, outer@, inner@, attribute@),
{
    let outer = scraper::Selector::parse(outer).unwrap();
    let inner = scraper::Selector::parse(inner).unwrap();
    let link = |a: scraper::ElementRef| Link {
        text: a.text().collect(),
        href: a.attr(attribute).map(str::to_string),
    };
    let links = |parent: scraper::ElementRef| parent.select(&inner).map(link).collect();
    scraper::Html::parse_document(content)
        .select(&outer)
        .map(|element| Heading {
            text: element.text().collect(),
            links: element.parent().and_then(scraper::ElementRef::wrap).map(links),
        })
        .collect()
}

/// The texts that begin with `magnet:`.
pub open spec fn magnets(links: Seq<Seq<char>>) -> Seq<Seq<char>> {
    links.filter(|link: Seq<char>| begins(link, "magnet:"@))
}

/// The magnet links of the items that some filter accepts, in order.
pub open spec fn magnets_of(
    items: Seq<(Seq<char>, Seq<Seq<char>>)>,
    filters: Seq<Filter>,
) -> Seq<Seq<char>>
    decreases items.len(),
{
    if items.len() == 0 {
        Seq::empty()
    } else {
        magnets_of(items.drop_last(), filters) + if any_accepts(filters, items.last().0) {
            magnets(items.last().1)
        } else {
            Seq::empty()
        }
    }
}

/// The magnet links of the list items that some filter accepts.
pub fn magnet_links(items: &Vec<Item>, filters: &[Filter]) -> (links: Vec<String>)
    ensures
        texts(links@) == magnets_of(item_parts(items@), filters@),
{
    let mut links: Vec<String> = Vec::new();
    let ghost all = item_parts(items@);
    let ghost magnet = |link: Seq<char>| begins(link, "magnet:"@);
    let mut i: usize = 0;
    assert(texts(links@) =~= Seq::empty());
    while i < items.len()
        invariant
            i <= items@.len(),
            all == item_parts(items@),
            magnet == (|link: Seq<char>| begins(link, "magnet:"@)),
            texts(links@) == magnets_of(all.take(i as int), filters@),
        decreases items@.len() - i,
    {
        let item = &items[i];
        let ghost before = texts(links@);
        proof {
            assert(all.take(i + 1).drop_last() =~= all.take(i as int));
            assert(all.take(i + 1).last() == item.parts());
        }
        if any_matches(filters, item.text.as_str()) {
            let ghost inside = texts(item.links@);
            let mut k: usize = 0;
            proof {
                reveal(Seq::filter);
                assert(inside.take(0).filter(magnet) =~= Seq::empty());
                assert(before + Seq::<Seq<char>>::empty() =~= before);
            }
            while k < item.links.len()
                invariant
                    k <= item.links@.len(),
                    inside == texts(item.links@),
                    magnet == (|link: Seq<char>| begins(link, "magnet:"@)),
                    texts(links@) == before + inside.take(k as int).filter(magnet),
                decreases item.links@.len() - k,
            {
                let link = &item.links[k];
                proof {
                    reveal(Seq::filter);
                    assert(inside.take(k + 1).drop_last() =~= inside.take(k as int));
                    assert(inside.take(k + 1).last() == link@);
                }
                if starts_with(link.as_str(), "magnet:") {
                    let ghost so_far = links@;
                    links.push(link.clone());
                    assert(texts(links@) =~= texts(so_far).push(link@));
                    assert((before + inside.take(k as int).filter(magnet)).push(link@) =~= before
                        + inside.take(k as int).filter(magnet).push(link@));
                }
                k += 1;
            }
            assert(inside.take(k as int) =~= inside);
        } else {
            assert(before + Seq::<Seq<char>>::empty() =~= before);
        }
        i += 1;
    }
    assert(all.take(i as int) =~= all);
    links
}

/// The texts of the magnet links in the list items of the page that some filter accepts.
pub fn extract_magnet_links(content: &str, filters: &[Filter]) -> (links: Vec<String>)
    requires
        fits(content@),
    ensures
        texts(links@) == magnets_of(selected_inside(content@, "li"@, "a"@), filters@),
{
    proof {
        reveal_strlit("li");
        reveal_strlit("a");
    }
    let items = select_inside(content, "li", "a");
    magnet_links(&items, filters)
}

/// Filters on the link text to identify the thumbnail and the video link of an entry.
#[derive(Debug)]
pub struct LinkFilters {
    pub thumbnail: Vec<Filter>,
    pub video: Vec<Filter>,
}

/// A video that a page announces.
#[derive(Debug, PartialEq)]
pub struct VideoEntry {
    pub title: String,
    pub thumbnail_url: Option<Url>,
    pub video_url: Option<Url>,
}

/// The parts of a link that may be missing.
pub open spec fn optional_parts(url: Option<Url>) -> Option<UrlParts> {
    match url {
        Some(url) => Some(url.parts()),
        None => None,
    }
}

/// What is known of an entry: its title, its thumbnail and its video.
pub type EntryParts = (Seq<char>, Option<UrlParts>, Option<UrlParts>);

impl VideoEntry {
    /// The title, the thumbnail and the video.
    pub open spec fn parts(self) -> EntryParts {
        (self.title@, optional_parts(self.thumbnail_url), optional_parts(self.video_url))
    }
}

/// The parts of the entries.
pub open spec fn entry_parts(entries: Seq<VideoEntry>) -> Seq<EntryParts> {
    entries.map_values(|entry: VideoEntry| entry.parts())
}

/// The parts of links with their texts.
pub open spec fn target_parts(links: Seq<(String, Url)>) -> Seq<(Seq<char>, UrlParts)> {
    links.map_values(|link: (String, Url)| (link.0@, link.1.parts()))
}

/// The anchors whose target is a link, each with its text.
pub open spec fn targets(anchors: Seq<Anchor>) -> Seq<(Seq<char>, UrlParts)>
    decreases anchors.len(),
{
    if anchors.len() == 0 {
        Seq::empty()
    } else {
        let rest = targets(anchors.drop_last());
        match anchors.last().1 {
            Some(href) => match parsed_url(trimmed(href)) {
                Some(url) => rest.push((trimmed(anchors.last().0), url)),
                None => rest,
            },
            None => rest,
        }
    }
}

/// The first link whose text some filter accepts.
pub open spec fn first_accepted(
    links: Seq<(Seq<char>, UrlParts)>,
    filters: Seq<Filter>,
) -> Option<UrlParts>
    decreases links.len(),
{
    if links.len() == 0 {
        None
    } else if any_accepts(filters, links[0].0) {
        Some(links[0].1)
    } else {
        first_accepted(links.skip(1), filters)
    }
}

/// The entry with the given title among the given links.
pub open spec fn entry_of(
    title: Seq<char>,
    links: Seq<(Seq<char>, UrlParts)>,
    filters: LinkFilters,
) -> EntryParts {
    (
        title,
        first_accepted(links, filters.thumbnail@),
        first_accepted(links, filters.video@),
    )
}

/// The entries of the headings that have a title and stand inside an element, in order.
pub open spec fn entries_of(
    headings: Seq<(Seq<char>, Option<Seq<Anchor>>)>,
    filters: LinkFilters,
) -> Seq<EntryParts>
    decreases headings.len(),
{
    if headings.len() == 0 {
        Seq::empty()
    } else {
        let rest = entries_of(headings.drop_last(), filters);
        let title = trimmed(headings.last().0);
        match headings.last().1 {
            Some(anchors) => if title.len() > 0 {
                rest.push(entry_of(title, targets(anchors), filters))
            } else {
                rest
            },
            None => rest,
        }
    }
}

/// The links whose target is one, with their texts.
pub fn link_targets(links: &Vec<Link>) -> (found: Vec<(String, Url)>)
    ensures
        target_parts(found@) == targets(link_parts(links@)),
{
    let mut found: Vec<(String, Url)> = Vec::new();
    let ghost all = link_parts(links@);
    let mut i: usize = 0;
    assert(target_parts(found@) =~= Seq::empty());
    while i < links.len()
        invariant
            i <= links@.len(),
            all == link_parts(links@),
            target_parts(found@) == targets(all.take(i as int)),
        decreases links@.len() - i,
    {
        let link = &links[i];
        proof {
            assert(all.take(i + 1).drop_last() =~= all.take(i as int));
            assert(all.take(i + 1).last() == link.parts());
        }
        if let Some(href) = &link.href {
            if let Some(url) = Url::parse(trim(href.as_str()).as_str()) {
                let ghost before = found@;
                let text = trim(link.text.as_str());
                found.push((text, url));
                assert(target_parts(found@) =~= target_parts(before).push((text@, url.parts())));
            }
        }
        i += 1;
    }
    assert(all.take(i as int) =~= all);
    found
}

/// The first link whose text some filter accepts.
pub fn find_url(links: &Vec<(String, Url)>, filters: &[Filter]) -> (url: Option<Url>)
    ensures
        optional_parts(url) == first_accepted(target_parts(links@), filters@),
{
    let ghost all = target_parts(links@);
    let mut i: usize = 0;
    assert(all.skip(0) =~= all);
    while i < links.len()
        invariant
            i <= links@.len(),
            all == target_parts(links@),
            first_accepted(all, filters@) == first_accepted(all.skip(i as int), filters@),
        decreases links@.len() - i,
    {
        assert(all.skip(i as int)[0] == (links@[i as int].0@, links@[i as int].1.parts()));
        if any_matches(filters, links[i].0.as_str()) {
            return Some(links[i].1.clone());
        }
        assert(all.skip(i as int).skip(1) =~= all.skip(i + 1));
        i += 1;
    }
    None
}

/// The entry with the given title among the given links.
pub fn video_entry(title: String, links: &Vec<(String, Url)>, link_filters: &LinkFilters) -> (entry:
    VideoEntry)
    ensures
        entry.parts() == entry_of(title@, target_parts(links@), *link_filters),
{
    let thumbnail_url = find_url(links, link_filters.thumbnail.as_slice());
    let video_url = find_url(links, link_filters.video.as_slice());
    VideoEntry { title, thumbnail_url, video_url }
}

/// The entries of the headings that have a title and stand inside an element.
pub fn video_entries(headings: &Vec<Heading>, link_filters: &LinkFilters) -> (entries: Vec<
    VideoEntry,
>)
    ensures
        entry_parts(entries@) == entries_of(heading_parts(headings@), *link_filters),
{
    let mut entries: Vec<VideoEntry> = Vec::new();
    let ghost all = heading_parts(headings@);
    let mut i: usize = 0;
    assert(entry_parts(entries@) =~= Seq::empty());
    while i < headings.len()
        invariant
            i <= headings@.len(),
            all == heading_parts(headings@),
            entry_parts(entries@) == entries_of(all.take(i as int), *link_filters),
        decreases headings@.len() - i,
    {
        let heading = &headings[i];
        proof {
            assert(all.take(i + 1).drop_last() =~= all.take(i as int));
            assert(all.take(i + 1).last() == heading.parts());
        }
        let title = trim(heading.text.as_str());
        if let Some(links) = &heading.links {
            if !title.as_str().is_empty() {
                let ghost before = entries@;
                let found = link_targets(links);
                let entry = video_entry(title, &found, link_filters);
                entries.push(entry);
                assert(entry_parts(entries@) =~= entry_parts(before).push(entry.parts()));
            }
        }
        i += 1;
    }
    assert(all.take(i as int) =~= all);
    entries
}

/// The video entries of the page: one for each level four heading with a text, with the first
/// links beside it that the filters accept.
pub fn extract_videos(content: &str, link_filters: &LinkFilters) -> (entries: Vec<VideoEntry>)
    requires
        fits(content@),
    ensures
        entry_parts(entries@) == entries_of(
            selected_beside(content@, "h4"@, "a[href]"@, "href"@),
            *link_filters,
        ),
{
    proof {
        reveal_strlit("h4");
        reveal_strlit("a[href]");
        let tag = seq!['a'];
        let attribute = seq!['h', 'r', 'e', 'f'];
        assert("a[href]"@ =~= tag + seq!['['] + attribute + seq![']']);
        assert(is_attribute_selector("a[href]"@, tag, attribute));
    }
    let headings = select_beside(content, "h4", "a[href]", "href");
    video_entries(&headings, link_filters)
}

} // verus!
