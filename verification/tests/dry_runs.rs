use release_notifier::config::{ArchiveConfiguration, Configuration, VideoConfiguration};
use release_notifier::downloaders::Downloaders;
use release_notifier::dry_run::{dry_run_path, dry_run_report, report_on, ArgumentError};
use release_notifier::duration::default_interval;
use release_notifier::filter::{Filter, FilterTerm};
use release_notifier::names::{Affix, NameConfiguration};
use release_notifier::page::{LinkFilters, VideoEntry};
use release_notifier::qbittorrent::QbittorrentConfiguration;
use release_notifier::url::Url;
use release_notifier::videos::{plan_entries, VideoTask};

#[test]
fn test_dry_run_path() {
    let path = |arguments: &[&str]| {
        dry_run_path(arguments.iter().map(|a| a.to_string()).collect::<Vec<_>>())
    };

    assert_eq!(path(&[]).unwrap(), None);
    assert_eq!(
        path(&["--dry-run", "a file"]).unwrap(),
        Some("a file".to_string())
    );
    assert!(path(&["--dry-run"]).is_err());
    assert!(path(&["--dry-run", "a file", "another"]).is_err());
    assert!(path(&["file"]).is_err());
}

#[test]
fn refused_arguments() {
    let error = |arguments: &[&str]| {
        dry_run_path(arguments.iter().map(|a| a.to_string()).collect::<Vec<_>>()).unwrap_err()
    };
    assert_eq!(error(&["x", "y"]), ArgumentError::Unknown("x".to_string()));
    assert_eq!(
        error(&["x"]).message(),
        "unknown argument 'x', expected: --dry-run <file>"
    );
    assert_eq!(error(&["--dry-run"]), ArgumentError::MissingFile);
    assert_eq!(
        error(&["--dry-run"]).message(),
        "--dry-run needs the file to read"
    );
    assert_eq!(
        error(&["--dry-run", "a", "b", "c"]).message(),
        "unexpected argument 'b' after the file"
    );
}

fn filter(term: &str) -> Filter {
    Filter {
        terms: vec![FilterTerm::Simple(term.to_string())],
        case_sensitive: false,
    }
}

fn configuration() -> Configuration {
    Configuration {
        path: "/notifications".to_string(),
        interval: default_interval(),
        archive: ArchiveConfiguration {
            path: "/archive".to_string(),
            retention_period: None,
        },
        qbittorrent: QbittorrentConfiguration {
            url: "http://localhost:8080/".to_string(),
            username: "admin".to_string(),
            password: "secret".to_string(),
        },
        logging: None,
        filters: vec![],
        videos: Some(VideoConfiguration {
            path: "/videos".to_string(),
            files: vec![filter("TabletopTactics")],
            links: LinkFilters {
                thumbnail: vec![filter("Thumbnail")],
                video: vec![filter("Video")],
            },
            names: NameConfiguration {
                strip: vec!["**NEW CODEX!!**".to_string()],
                affixes: vec![Affix {
                    filter: filter("Codex Review"),
                    prefix: "Codex Review - ".to_string(),
                    suffix: "".to_string(),
                }],
            },
            downloaders: Downloaders::default(),
        }),
        email: None,
    }
}

#[test]
fn test_dry_run_report() {
    let config = configuration();

    let html = r#"
            <html><body>
              <div>
                <h4>2026-09-19 - Space Marines | Warhammer 40k Codex Review</h4>
                <ul>
                  <li><a href="https://example.com/thumb.jpg">Thumbnail</a></li>
                  <li><a href="https://content.uplynk.com/abc.m3u8">Video</a></li>
                </ul>
              </div>
              <div>
                <h4>2026-09-19 - **NEW CODEX!!** Space Marines vs Orks | Warhammer 40k Battle Report</h4>
                <ul>
                  <li><a href="https://www.youtube.com/embed/u9d7RlroH1w">Video</a></li>
                </ul>
              </div>
            </body></html>
        "#;

    let report = dry_run_report(html, "1 new video from TabletopTactics", &config);

    assert!(
        report.contains("name:      Codex Review - Space Marines"),
        "{}",
        report
    );
    assert!(
        report.contains("name:      Space Marines vs Orks"),
        "{}",
        report
    );
    assert!(report.contains("thumbnail: <none>"), "{}", report);
    assert!(
        report.contains(r#"--save-name "Codex Review - Space Marines""#),
        "{}",
        report
    );
    assert!(report.contains("N_m3u8DL-RE"), "{}", report);
    assert!(report.contains("yt-dlp"), "{}", report);
    assert!(report.contains("video entries: 2"), "{}", report);
    assert!(
        !report.contains("does not match videos.files"),
        "{}",
        report
    );

    // A file name the real run would skip is still reported, with a note.
    let report = dry_run_report(html, "1 new video from OtherChannel", &config);
    assert!(report.contains("does not match videos.files"), "{}", report);
    assert!(report.contains("video entries: 2"), "{}", report);
}

#[test]
fn whole_report() {
    let mut config = configuration();
    config.filters = vec![filter("hello")];
    let html = r#"<ul><li>Hello <a>magnet:?1</a></li></ul>
        <div><h4>A</h4>
          <a href="https://example.com/t.jpg">Thumbnail</a>
          <a href="https://example.com/b c.m3u8">Video</a></div>
        <div><h4>|</h4></div>
        <div><h4>B</h4><a href="https://example.com/b.mp4">Video</a></div>"#;
    assert_eq!(
        dry_run_report(html, "other", &config),
        "file: other\n\
         \nmagnet links: 1\n\
         \x20 magnet:?1\n\
         \nthe file name does not match videos.files, a real run would skip it\n\
         \nvideo entries: 3\n\
         \n\
         \x20 title:     A\n\
         \x20 name:      A\n\
         \x20 thumbnail: https://example.com/t.jpg\n\
         \x20 video:     https://example.com/b%20c.m3u8\n\
         \x20 command:   N_m3u8DL-RE https://example.com/b%20c.m3u8 --save-dir /videos --save-name A --auto-select\n\
         \n\
         \x20 title:     |\n\
         \x20 name:      <none, the entry would be reported as a problem>\n\
         \x20 thumbnail: <none>\n\
         \x20 video:     <none>\n\
         \n\
         \x20 title:     B\n\
         \x20 name:      B\n\
         \x20 thumbnail: <none>\n\
         \x20 video:     https://example.com/b.mp4\n\
         \x20 command:   <no downloader handles this link>"
    );
    config.videos = None;
    assert_eq!(
        dry_run_report(html, "other", &config),
        "file: other\n\nmagnet links: 1\n  magnet:?1\n\nno video configuration"
    );
}

#[test]
fn report_on_given_entries() {
    let config = configuration();
    let links: Vec<String> = (0..12).map(|i| format!("magnet:{}", i)).collect();
    let entries = vec![VideoEntry {
        title: "T".to_string(),
        thumbnail_url: None,
        video_url: Url::parse("https://youtu.be/x"),
    }];
    let report = report_on("a TabletopTactics file", &links, &entries, &config.videos);
    assert!(report.contains("\nmagnet links: 12\n  magnet:0\n"), "{}", report);
    assert!(
        report.ends_with(
            "\nvideo entries: 1\n\n  title:     T\n  name:      T\n  thumbnail: <none>\n  video:     https://youtu.be/x\n  command:   yt-dlp https://youtu.be/x --no-playlist --no-progress --paths /videos --output T.%(ext)s"
        ),
        "{}",
        report
    );
}

#[test]
fn the_report_shows_what_a_run_does() {
    let videos = configuration().videos;
    let entries = vec![VideoEntry {
        title: "2026-09-19 - Space Marines | Codex Review".to_string(),
        thumbnail_url: None,
        video_url: Url::parse("https://a.example/b.m3u8"),
    }];
    let report = report_on("f", &vec![], &entries, &videos);
    let tasks = plan_entries(&entries, videos.as_ref().unwrap());
    match &tasks[0] {
        VideoTask::Video {
            name,
            executable,
            arguments,
            ..
        } => {
            assert_eq!(name, "Codex Review - Space Marines");
            assert_eq!(arguments[4], *name);
            assert!(report.contains(&format!("  name:      {}\n", name)), "{}", report);
            assert!(
                report.ends_with(&format!(
                    "  command:   {} {} --save-dir /videos --save-name \"{}\" --auto-select",
                    executable, arguments[0], name
                )),
                "{}",
                report
            );
        }
        _ => panic!("expected a video"),
    }
}
