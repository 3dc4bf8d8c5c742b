use release_notifier::filter::{Filter, FilterTerm};
use release_notifier::page::{
    extract_magnet_links, extract_videos, find_url, is_short_enough, link_targets, magnet_links,
    video_entries, video_entry, Heading, Item, Link, LinkFilters, VideoEntry, MAX_PARSED_LEN,
};
use release_notifier::url::Url;

#[test]
fn test_filter_logic() {
    let html = r#"
            <html>
                <body>
                    <div>
                        <ul>
                            <li>
                                <div><span>Hello c376</span></div>
                                <div><div><div><a href="magnet:?xt=urn:btih:1">magnet:?xt=urn:btih:1</a></div></div></div>
                            </li>
                            <li>
                                <div><span>hello C376</span></div>
                                <div><div><div><a href="magnet:?xt=urn:btih:2">magnet:?xt=urn:btih:2</a></div></div></div>
                            </li>
                            <li>
                                <div><span>World BO0</span></div>
                                <div><div><div><a href="magnet:?xt=urn:btih:3">magnet:?xt=urn:btih:3</a></div></div></div>
                            </li>
                            <li>
                                <div><span>world bo0</span></div>
                                <div><div><div><a href="magnet:?xt=urn:btih:4">magnet:?xt=urn:btih:4</a></div></div></div>
                            </li>
                        </ul>
                    </div>
                </body>
            </html>
        "#;

    let filters = vec![
        Filter {
            terms: vec![
                FilterTerm::Simple("Hello".to_string()),
                FilterTerm::Simple("c376".to_string()),
            ],
            case_sensitive: false,
        },
        Filter {
            terms: vec![
                FilterTerm::Simple("World".to_string()),
                FilterTerm::Simple("BO0".to_string()),
            ],
            case_sensitive: true,
        },
    ];

    let magnet_links = extract_magnet_links(html, &filters);

    assert_eq!(magnet_links.len(), 3);
    assert!(magnet_links.contains(&"magnet:?xt=urn:btih:1".to_string()));
    assert!(magnet_links.contains(&"magnet:?xt=urn:btih:2".to_string()));
    assert!(magnet_links.contains(&"magnet:?xt=urn:btih:3".to_string()));
    assert!(!magnet_links.contains(&"magnet:?xt=urn:btih:4".to_string()));
}

#[test]
fn test_filter_negation() {
    let html = r#"
            <li><span>Movie 2024 x264</span><a href="magnet:?1">magnet:?1</a></li>
            <li><span>Movie 2024 x265</span><a href="magnet:?2">magnet:?2</a></li>
            <li><span>Other 2024 x264</span><a href="magnet:?3">magnet:?3</a></li>
        "#;

    let filters = vec![Filter {
        terms: vec![
            FilterTerm::Simple("Movie".to_string()),
            FilterTerm::Full {
                term: "x265".to_string(),
                exclude: true,
            },
        ],
        case_sensitive: false,
    }];

    let magnet_links = extract_magnet_links(html, &filters);
    assert_eq!(magnet_links.len(), 1);
    assert!(magnet_links.contains(&"magnet:?1".to_string()));
    assert!(!magnet_links.contains(&"magnet:?2".to_string()));
}

#[test]
fn test_extract_videos() {
    let html = r#"
            <html>
              <body>
                <div>
                  <h4>2026-09-15 - Aeldari vs Emperor’s Children | Warhammer 40k Battle Report</h4>
                  <ul>
                    <li><a href="https://tabletoptactics.tv/wp-content/uploads/2026/09/Batrep-44-Emperors-Children-vs-Aeldari-1-670x377.jpg">Thumbnail</a></li>
                    <li><a href="https://content.uplynk.com/cfe58e01a8ad4d3a9f2feb90f8b2d61e.m3u8">Video</a></li>
                  </ul>
                </div>
                <div>
                  <h4>Second</h4>
                  <ul>
                    <li><a href="https://example.com/other.jpg">Other</a></li>
                    <li><a href="https://example.com/playlist?id=1"> video </a></li>
                    <li><a href="https://example.com/second">Video</a></li>
                    <li><a href="not a url">Thumbnail</a></li>
                  </ul>
                </div>
              </body>
            </html>
        "#;

    let videos = extract_videos(html, &link_filters());

    assert_eq!(
        videos,
        vec![
            VideoEntry {
                title: "2026-09-15 - Aeldari vs Emperor’s Children | Warhammer 40k Battle Report"
                    .to_string(),
                thumbnail_url: Some(Url::parse("https://tabletoptactics.tv/wp-content/uploads/2026/09/Batrep-44-Emperors-Children-vs-Aeldari-1-670x377.jpg").unwrap()),
                video_url: Some(Url::parse("https://content.uplynk.com/cfe58e01a8ad4d3a9f2feb90f8b2d61e.m3u8").unwrap()),
            },
            VideoEntry {
                title: "Second".to_string(),
                thumbnail_url: None,
                video_url: Some(Url::parse("https://example.com/playlist?id=1").unwrap()),
            },
        ]
    );
}

#[test]
fn test_extract_videos_without_html() {
    assert!(extract_videos("no html at all", &link_filters()).is_empty());
}

fn link_filters() -> LinkFilters {
    let filter = |term: &str| Filter {
        terms: vec![FilterTerm::Simple(term.to_string())],
        case_sensitive: false,
    };
    LinkFilters {
        thumbnail: vec![filter("Thumbnail")],
        video: vec![filter("Video")],
    }
}

fn term(term: &str) -> Filter {
    Filter {
        terms: vec![FilterTerm::Simple(term.to_string())],
        case_sensitive: true,
    }
}

#[test]
fn magnets_of_given_items() {
    let items = vec![
        Item {
            text: "one".to_string(),
            links: vec!["magnet:1".to_string(), "other".to_string()],
        },
        Item {
            text: "two".to_string(),
            links: vec!["magnet:2".to_string()],
        },
        Item {
            text: "one more".to_string(),
            links: vec!["x magnet:3".to_string(), "magnet:4".to_string()],
        },
    ];
    assert_eq!(magnet_links(&items, &[term("one")]), ["magnet:1", "magnet:4"]);
    assert!(magnet_links(&items, &[]).is_empty());
}

#[test]
fn nested_items_give_a_link_twice() {
    let html = "<ul><li>a<ul><li>b<a>magnet:x</a></li></ul></li></ul>";
    assert_eq!(
        extract_magnet_links(html, &[term("b")]),
        ["magnet:x", "magnet:x"]
    );
    assert_eq!(extract_magnet_links(html, &[term("a")]), ["magnet:x", "magnet:x"]);
    assert_eq!(extract_magnet_links(html, &[term("ab")]), ["magnet:x"]);
}

#[test]
fn text_in_elements_is_joined_and_decoded() {
    let html = "<li>c&amp;d <b>e</b><a>mag<i>net:</i>1</a></li>";
    assert_eq!(extract_magnet_links(html, &[term("c&d e")]), ["magnet:1"]);
}

#[test]
fn headings_without_text_are_dropped() {
    let html = r#"<div><h4> </h4><a href="https://a.example/">Video</a></div>"#;
    assert!(extract_videos(html, &link_filters()).is_empty());
    let html = r#"<div><h4> x </h4><a>Video</a><a href=" https://a.example/ ">Video</a></div>"#;
    let videos = extract_videos(html, &link_filters());
    assert_eq!(videos.len(), 1);
    assert_eq!(videos[0].title, "x");
    assert_eq!(videos[0].thumbnail_url, None);
    assert_eq!(videos[0].video_url, Url::parse("https://a.example/"));
}

#[test]
fn entries_of_given_headings() {
    let link = |text: &str, href: Option<&str>| Link {
        text: text.to_string(),
        href: href.map(str::to_string),
    };
    let headings = vec![
        Heading {
            text: "no element around it".to_string(),
            links: None,
        },
        Heading {
            text: " T ".to_string(),
            links: Some(vec![
                link("Video", None),
                link("Video", Some("relative")),
                link(" Video 1", Some("https://a.example/1")),
                link("Video 2", Some("https://a.example/2")),
            ]),
        },
    ];
    let entries = video_entries(&headings, &link_filters());
    assert_eq!(
        entries,
        vec![VideoEntry {
            title: "T".to_string(),
            thumbnail_url: None,
            video_url: Url::parse("https://a.example/1"),
        }]
    );
}

#[test]
fn the_first_matching_link_is_taken() {
    let links = link_targets(&vec![
        Link {
            text: "a".to_string(),
            href: Some("https://a.example/1".to_string()),
        },
        Link {
            text: "b".to_string(),
            href: Some("https://a.example/2".to_string()),
        },
        Link {
            text: "ab".to_string(),
            href: Some("https://a.example/3".to_string()),
        },
    ]);
    assert_eq!(links.len(), 3);
    assert_eq!(
        find_url(&links, &[term("b")]),
        Url::parse("https://a.example/2")
    );
    assert_eq!(find_url(&links, &[term("c")]), None);
    let filters = LinkFilters {
        thumbnail: vec![term("c"), term("ab")],
        video: vec![term("a")],
    };
    let entry = video_entry("t".to_string(), &links, &filters);
    assert_eq!(entry.thumbnail_url, Url::parse("https://a.example/3"));
    assert_eq!(entry.video_url, Url::parse("https://a.example/1"));
}

#[test]
fn the_longest_page() {
    let nulls = MAX_PARSED_LEN as usize / 3;
    let mut bytes = vec![0; nulls + 3];
    bytes[nulls] = b'a';
    bytes[nulls + 1] = b'a';
    bytes[nulls + 2] = b'a';
    let text = String::from_utf8(bytes).unwrap();
    assert!(is_short_enough(&text[..nulls + 2]));
    assert!(!is_short_enough(&text));
    assert!(is_short_enough(&text[1..]));
    assert!(is_short_enough(""));

    let mut bytes = text.into_bytes();
    bytes[nulls] = b'&';
    let text = String::from_utf8(bytes).unwrap();
    assert!(is_short_enough(&text[..nulls + 1]));
    assert!(!is_short_enough(&text[..nulls + 2]));
}
