use release_notifier::config::VideoConfiguration;
use release_notifier::downloaders::Downloaders;
use release_notifier::duration::Duration;
use release_notifier::files::{
    plan_steps, DirectoryAction, DirectoryEvent, DirectoryRun, FileRun, FileStep, ReadOutcome,
};
use release_notifier::filter::{Filter, FilterTerm};
use release_notifier::maintenance::{is_expired, needs_creation, start_update, update_due};
use release_notifier::names::NameConfiguration;
use release_notifier::page::{LinkFilters, VideoEntry};
use release_notifier::qbittorrent::{
    login_request, session_id, Exchange, QbittorrentClient, QbittorrentConfiguration, SendAction,
};
use release_notifier::report::{
    cleanup_failed, delivery_after_email, email_body, first_delivery, limit_failed, run_failed,
    update_failed, Delivery, Level, Problem,
};
use release_notifier::url::Url;
use release_notifier::videos::{plan_entries, plan_videos, VideoRun, VideoTask};

fn filter(term: &str) -> Filter {
    Filter {
        terms: vec![FilterTerm::Simple(term.to_string())],
        case_sensitive: false,
    }
}

fn videos() -> VideoConfiguration {
    VideoConfiguration {
        path: "/videos".to_string(),
        files: vec![filter("channel")],
        links: LinkFilters {
            thumbnail: vec![filter("thumbnail")],
            video: vec![filter("video")],
        },
        names: NameConfiguration::default(),
        downloaders: Downloaders::default(),
    }
}

fn entry(title: &str, thumbnail: Option<&str>, video: Option<&str>) -> VideoEntry {
    VideoEntry {
        title: title.to_string(),
        thumbnail_url: thumbnail.map(|url| Url::parse(url).unwrap()),
        video_url: video.map(|url| Url::parse(url).unwrap()),
    }
}

#[test]
fn entries_become_tasks() {
    let entries = vec![
        entry("|", None, Some("https://youtu.be/1")),
        entry("A", Some("https://e.example/a.jpg"), None),
        entry(
            "B",
            Some("https://e.example/b.jpg"),
            Some("https://e.example/b.mp4"),
        ),
        entry(
            "C",
            Some("https://e.example/c.jpg"),
            Some("https://youtu.be/c"),
        ),
        entry("D", None, Some("https://e.example/d.m3u8")),
    ];
    let tasks = plan_entries(&entries, &videos());
    assert_eq!(tasks.len(), 6);
    let warning = |task: &VideoTask| match task {
        VideoTask::Report(problem) => {
            assert_eq!(problem.level, Level::Warn);
            problem.message.clone()
        }
        _ => panic!("expected a report"),
    };
    assert_eq!(warning(&tasks[0]), "no usable file name for '|'");
    assert_eq!(warning(&tasks[1]), "no video link found for 'A'");
    assert_eq!(
        warning(&tasks[2]),
        "no downloader for video https://e.example/b.mp4 of 'B'"
    );
    match &tasks[3] {
        VideoTask::Thumbnail { title, url, name } => {
            assert_eq!(title, "C");
            assert_eq!(url.text, "https://e.example/c.jpg");
            assert_eq!(name, "C");
        }
        _ => panic!("expected a thumbnail"),
    }
    match &tasks[4] {
        VideoTask::Video {
            title,
            executable,
            arguments,
            ..
        } => {
            assert_eq!(title, "C");
            assert_eq!(executable, "yt-dlp");
            assert_eq!(arguments[0], "https://youtu.be/c");
        }
        _ => panic!("expected a video"),
    }

    let mut run = VideoRun::new(&tasks);
    let errors = [
        None,
        None,
        None,
        Some("e1".to_string()),
        Some("e2".to_string()),
        None,
    ];
    for error in errors {
        assert!(run.next().is_some());
        run.complete(error);
    }
    assert!(run.next().is_none());
    run.complete(Some("ignored".to_string()));
    let messages: Vec<&str> = run.problems.iter().map(|p| p.message.as_str()).collect();
    assert_eq!(
        messages,
        [
            "no usable file name for '|'",
            "no video link found for 'A'",
            "no downloader for video https://e.example/b.mp4 of 'B'",
            "could not download thumbnail https://e.example/c.jpg for 'C': e1",
            "could not download video https://youtu.be/c for 'C': e2",
        ]
    );
    assert_eq!(run.problems[3].level, Level::Error);
}

#[test]
fn pages_become_tasks() {
    let html = r#"<div><h4>T</h4><a href="https://youtu.be/x">Video</a></div>"#;
    let tasks = plan_videos(html, &videos());
    assert_eq!(tasks.len(), 1);
    assert!(matches!(tasks[0], VideoTask::Video { .. }));
    assert!(tasks[0].problem(None).is_none());
    assert_eq!(
        tasks[0].problem(Some("x".to_string())).unwrap().message,
        "could not download video https://youtu.be/x for 'T': x"
    );
}

const PAGE: &str = r#"<ul><li>hello <a>magnet:1</a></li><li>hello <a>magnet:2</a></li></ul>
    <div><h4>T</h4><a href="https://youtu.be/x">Video</a></div>"#;

fn start(outcome: ReadOutcome, name: &str) -> FileRun {
    FileRun::start("/in/f", name, outcome, &[filter("hello")], &Some(videos()))
}

#[test]
fn files_with_everything() {
    let mut run = start(ReadOutcome::Text(PAGE.to_string()), "a channel file");
    match run.next() {
        Some(FileStep::AddMagnets(urls)) => assert_eq!(urls, "magnet:1\r\nmagnet:2"),
        _ => panic!("expected magnet links"),
    }
    run.complete(None);
    match run.next() {
        Some(FileStep::Videos { subject, tasks }) => {
            assert_eq!(subject, "Video problems in a channel file");
            assert_eq!(tasks.len(), 1);
        }
        _ => panic!("expected videos"),
    }
    // Problems with the videos do not keep the file from being archived.
    run.complete(Some("ignored".to_string()));
    assert!(matches!(run.next(), Some(FileStep::Archive)));
    run.complete(None);
    assert!(run.next().is_none());
    assert_eq!(run.failure, None);
}

#[test]
fn failed_magnets_keep_the_file() {
    let mut run = start(ReadOutcome::Text(PAGE.to_string()), "another file");
    assert_eq!(run.steps.len(), 2);
    run.complete(Some("no connection".to_string()));
    assert!(run.next().is_none());
    assert_eq!(run.failure.as_deref(), Some("no connection"));
    run.complete(None);
    assert_eq!(run.done, 0);
}

#[test]
fn files_without_text_are_archived() {
    let mut run = start(ReadOutcome::NotText("bad bytes".to_string()), "f");
    match run.next() {
        Some(FileStep::Report(report)) => {
            assert_eq!(report.subject, "Could not read f");
            assert_eq!(report.problems.len(), 1);
            assert_eq!(report.problems[0].level, Level::Warn);
            assert_eq!(
                report.problems[0].message,
                "could not read /in/f as text: bad bytes"
            );
        }
        _ => panic!("expected a report"),
    }
    run.complete(None);
    assert!(matches!(run.next(), Some(FileStep::Archive)));
    run.complete(Some("in the way".to_string()));
    assert_eq!(run.failure.as_deref(), Some("in the way"));
    assert_eq!(run.done, 1);
}

#[test]
fn unreadable_files_are_given_up() {
    let run = start(ReadOutcome::Failed("gone".to_string()), "f");
    assert!(run.next().is_none());
    assert_eq!(run.failure.as_deref(), Some("gone"));
}

#[test]
fn given_links_and_tasks() {
    let steps = plan_steps("p", "n", None, &vec![], Some(vec![]));
    assert_eq!(steps.len(), 2);
    assert!(matches!(steps[0], FileStep::Videos { .. }));
    assert!(matches!(steps[1], FileStep::Archive));
    assert!(!steps[0].vital());
    assert!(steps[1].vital());
}

#[test]
fn a_failing_file_does_not_stop_the_run() {
    let mut run = DirectoryRun::new("/in".to_string());
    assert_eq!(
        run.receive(DirectoryEvent::Entry { is_file: true }),
        DirectoryAction::Process
    );
    run.file_done("/in/a", None);
    assert_eq!(
        run.receive(DirectoryEvent::Entry { is_file: false }),
        DirectoryAction::Skip
    );
    assert_eq!(
        run.receive(DirectoryEvent::Entry { is_file: true }),
        DirectoryAction::Process
    );
    run.file_done("/in/b", Some("in the way".to_string()));
    assert_eq!(
        run.receive(DirectoryEvent::Entry { is_file: true }),
        DirectoryAction::Process
    );
    run.file_done("/in/c", Some("too".to_string()));
    assert_eq!(run.receive(DirectoryEvent::End), DirectoryAction::Finish);
    let report = run.report();
    assert_eq!(report.subject, "Problems in /in");
    assert_eq!(report.problems.len(), 2);
    assert_eq!(
        report.problems[0].message,
        "could not process /in/b: in the way"
    );
    assert_eq!(report.problems[1].message, "could not process /in/c: too");
    assert_eq!(report.problems[1].level, Level::Error);

    let mut run = DirectoryRun::new("/in".to_string());
    assert_eq!(
        run.receive(DirectoryEvent::Unreadable("x".to_string())),
        DirectoryAction::Finish
    );
    assert_eq!(
        run.report().problems[0].message,
        "could not read the entries of /in: x"
    );
}

#[test]
fn deliveries() {
    let problems = vec![
        Problem::warning("a".to_string()),
        Problem::error("b".to_string()),
    ];
    assert_eq!(email_body(&problems), "WARN: a\nERROR: b");
    match first_delivery(&problems, true) {
        Delivery::Email(body) => assert_eq!(body, "WARN: a\nERROR: b"),
        _ => panic!("expected an email"),
    }
    assert!(matches!(first_delivery(&problems, false), Delivery::Log));
    assert!(matches!(first_delivery(&vec![], true), Delivery::Done));
    assert!(matches!(first_delivery(&vec![], false), Delivery::Done));
    assert!(matches!(delivery_after_email(true), Delivery::Done));
    assert!(matches!(delivery_after_email(false), Delivery::Log));
    let copy = problems[1].clone();
    assert_eq!(copy.message, "b");
    assert_eq!(copy.level, Level::Error);
}

#[test]
fn reports_of_the_main_loop() {
    let report = run_failed("/in", "e");
    assert_eq!(report.subject, "Could not process /in");
    assert_eq!(report.problems[0].message, "could not process /in: e");
    let report = cleanup_failed("/a", "e");
    assert_eq!(report.subject, "Could not clean up /a");
    assert_eq!(
        report.problems[0].message,
        "could not delete old files in /a: e"
    );
    let report = limit_failed("e");
    assert_eq!(report.subject, "Could not increase open file limit");
    assert_eq!(
        report.problems[0].message,
        "could not increase open file limit: e"
    );
    assert_eq!(report.problems[0].level, Level::Warn);
    let report = update_failed("yt-dlp", "e");
    assert_eq!(report.subject, "Could not update yt-dlp");
    assert_eq!(report.problems[0].message, "could not update yt-dlp: e");
    assert_eq!(report.problems[0].level, Level::Error);
}

#[test]
fn updates() {
    let day = Duration::from_secs(86_400);
    let less = Duration {
        nanos: day.nanos - 1,
    };
    assert!(!update_due(None, None));
    assert!(!update_due(None, Some(day)));
    assert!(update_due(Some(day), None));
    assert!(update_due(Some(day), Some(day)));
    assert!(!update_due(Some(day), Some(less)));
}

#[test]
fn updates_keep_their_distance() {
    let at = |secs: u64| Duration::from_secs(secs);
    let mut last = None;
    assert!(!start_update(&mut last, None, at(5)));
    assert_eq!(last, None);
    assert!(start_update(&mut last, Some(at(10)), at(5)));
    assert_eq!(last, Some(at(5)));
    assert!(!start_update(&mut last, Some(at(10)), at(5)));
    assert!(!start_update(&mut last, Some(at(10)), at(14)));
    assert_eq!(last, Some(at(5)));
    assert!(!start_update(&mut last, Some(at(1)), at(4)));
    assert!(start_update(&mut last, Some(at(10)), at(15)));
    assert_eq!(last, Some(at(15)));
    assert!(!start_update(&mut last, None, at(99)));
    assert_eq!(last, Some(at(15)));
}

#[test]
fn old_files() {
    let day = Duration::from_secs(86_400);
    let more = Duration {
        nanos: day.nanos + 1,
    };
    assert!(!is_expired(true, Some(day), day));
    assert!(is_expired(true, Some(more), day));
    assert!(!is_expired(false, Some(more), day));
    assert!(!is_expired(true, None, Duration { nanos: 0 }));
}

#[test]
fn directories() {
    assert_eq!(needs_creation("/d", false, true), Ok(false));
    assert_eq!(needs_creation("/d", false, false), Ok(true));
    assert_eq!(
        needs_creation("/d", true, true),
        Err("/d is not a directory".to_string())
    );
}

fn client(url: &str) -> QbittorrentClient {
    QbittorrentClient {
        sid: "s1".to_string(),
        configuration: QbittorrentConfiguration {
            url: url.to_string(),
            username: "u".to_string(),
            password: "p".to_string(),
        },
    }
}

#[test]
fn addresses() {
    let expected = "http://h:8080/api/x";
    assert_eq!(client("http://h:8080/").to_url("api/x"), expected);
    assert_eq!(client("http://h:8080").to_url("api/x"), expected);
    assert_eq!(client("http://h:8080/").to_url("/api/x"), expected);
    assert_eq!(client("http://h:8080").to_url("/api/x"), expected);
    assert_eq!(client("").to_url(""), "/");
    assert_eq!(client("a//").to_url("//b"), "a///b");
}

#[test]
fn requests() {
    let client = client("http://h/");
    let add = client.add_torrents("magnet:1\r\nmagnet:2");
    assert_eq!(add.request.url, "http://h/api/v2/torrents/add");
    assert_eq!(add.request.cookie, "SID=s1");
    assert_eq!(add.request.referer, "http://h/");
    assert_eq!(add.field, "urls");
    assert_eq!(add.value, "magnet:1\r\nmagnet:2");
    let login = login_request(&client.configuration);
    assert_eq!(login.url, "http://h/api/v2/auth/login");
    assert_eq!(login.content_type, "application/x-www-form-urlencoded");
    assert_eq!(login.referer, "http://h/");
    assert_eq!(login.body, "username=u&password=p");
}

#[test]
fn logins() {
    let cookie = |name: &str, value: &str| (name.to_string(), value.to_string());
    let mut client = client("http://h/");
    assert_eq!(
        client.log_in(&vec![cookie("a", "1")]),
        Err("No SID cookie found".to_string())
    );
    assert_eq!(client.add_torrents("").request.cookie, "SID=s1");
    assert_eq!(
        client.log_in(&vec![cookie("a", "1"), cookie("SID", "2"), cookie("SID", "3")]),
        Ok(())
    );
    let add = client.add_torrents("");
    assert_eq!(add.request.cookie, "SID=2");
    assert_eq!(add.request.url, "http://h/api/v2/torrents/add");
    assert_eq!(client.configuration.username, "u");
}

#[test]
fn sessions() {
    let cookie = |name: &str, value: &str| (name.to_string(), value.to_string());
    assert_eq!(
        session_id(&vec![cookie("a", "1"), cookie("SID", "2"), cookie("SID", "3")]),
        Ok("2".to_string())
    );
    assert_eq!(
        session_id(&vec![cookie("sid", "1")]),
        Err("No SID cookie found".to_string())
    );
    let mut exchange = Exchange::new();
    assert_eq!(exchange.receive(403), SendAction::LogInAndRepeat);
    assert_eq!(exchange.receive(403), SendAction::Return);
    let mut exchange = Exchange::new();
    assert_eq!(exchange.receive(200), SendAction::Return);
    let mut exchange = Exchange::new();
    assert_eq!(exchange.receive(500), SendAction::Return);
}
