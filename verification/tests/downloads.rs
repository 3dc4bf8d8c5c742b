use release_notifier::commands::{
    command_result, failure_of, last_lines, last_lines_of, AttemptAction, DownloadRun,
};
use release_notifier::downloaders::{
    is_in_domain, Downloaders, HlsDownloader, YoutubeDownloader,
};
use release_notifier::duration::{default_interval, Duration};
use release_notifier::url::Url;

#[test]
fn test_youtube_downloader_handles() {
    let youtube = YoutubeDownloader::default();
    let handles = |url: &str| youtube.handles(&Url::parse(url).unwrap());

    assert!(handles("https://www.youtube.com/watch?v=abc"));
    assert!(handles("https://m.youtube.com/watch?v=abc"));
    assert!(handles("https://youtu.be/abc"));
    assert!(handles("https://WWW.YouTube.com/watch?v=abc"));
    assert!(handles("https://www.youtube-nocookie.com/embed/abc"));
    assert!(!handles("https://notyoutube.com/watch?v=abc"));
    assert!(!handles("https://youtube.com.example.com/watch?v=abc"));
    assert!(!handles("https://content.uplynk.com/abc.m3u8"));
}

#[test]
fn test_downloader_selection() {
    let downloaders = Downloaders::default();
    let executable = |url: &str| {
        downloaders
            .command(&Url::parse(url).unwrap(), "/videos", "name")
            .map(|(executable, _)| executable.to_string())
    };

    assert_eq!(
        executable("https://www.youtube.com/watch?v=abc").as_deref(),
        Some("yt-dlp")
    );
    assert_eq!(
        executable("https://content.uplynk.com/abc.m3u8").as_deref(),
        Some("N_m3u8DL-RE")
    );
    assert_eq!(
        executable("https://content.uplynk.com/abc.M3U8?token=1").as_deref(),
        Some("N_m3u8DL-RE")
    );
    assert_eq!(executable("https://example.com/playlist?id=1"), None);
    assert_eq!(executable("https://example.com/video.mp4"), None);
}

#[test]
fn test_downloader_arguments() {
    let url = Url::parse("https://youtu.be/abc").unwrap();

    let hls = HlsDownloader {
        arguments: vec!["-M".to_string(), "format=mp4".to_string()],
        ..HlsDownloader::default()
    };
    assert_eq!(
        hls.command_arguments(&url, "/videos", "100% Review"),
        [
            "https://youtu.be/abc",
            "--save-dir",
            "/videos",
            "--save-name",
            "100% Review",
            "--auto-select",
            "-M",
            "format=mp4",
        ]
    );

    let youtube = YoutubeDownloader {
        arguments: vec!["--cookies".to_string(), "cookies.txt".to_string()],
        ..YoutubeDownloader::default()
    };
    assert_eq!(
        youtube.command_arguments(&url, "/videos", "100% Review"),
        [
            "https://youtu.be/abc",
            "--no-playlist",
            "--no-progress",
            "--paths",
            "/videos",
            "--output",
            "100%% Review.%(ext)s",
            "--cookies",
            "cookies.txt",
        ]
    );
}

#[test]
fn defaults() {
    let downloaders = Downloaders::default();
    assert_eq!(downloaders.hls.executable, "N_m3u8DL-RE");
    assert!(downloaders.hls.arguments.is_empty());
    assert_eq!(downloaders.youtube.executable, "yt-dlp");
    assert!(downloaders.youtube.arguments.is_empty());
    assert_eq!(
        downloaders.youtube.hosts,
        ["youtube.com", "youtu.be", "youtube-nocookie.com"]
    );
    assert_eq!(downloaders.youtube.update_interval, None);
    assert_eq!(downloaders.retries, 2);
    assert_eq!(downloaders.retry_delay, Duration::from_secs(30));
    assert_eq!(default_interval(), Duration::from_secs(60));
    assert_eq!(default_interval().nanos, 60_000_000_000);
}

#[test]
fn domains() {
    assert!(is_in_domain("a.example", "a.example"));
    assert!(is_in_domain("x.y.a.example", "a.example"));
    assert!(is_in_domain(".a.example", "a.example"));
    assert!(!is_in_domain("xa.example", "a.example"));
    assert!(!is_in_domain("example", "a.example"));
    assert!(!is_in_domain("a.example.x", "a.example"));
}

#[test]
fn youtube_comes_first() {
    let url = Url::parse("https://youtu.be/a.m3u8").unwrap();
    let downloaders = Downloaders::default();
    assert!(downloaders.hls.handles(&url));
    assert_eq!(downloaders.command(&url, "d", "n").unwrap().0, "yt-dlp");
    let hosts = YoutubeDownloader {
        hosts: vec!["Example.COM".to_string()],
        ..YoutubeDownloader::default()
    };
    assert!(hosts.handles(&Url::parse("http://sub.example.com/").unwrap()));
    assert!(!hosts.handles(&Url::parse("mailto:a@example.com").unwrap()));
}

#[test]
fn playlists_with_unusual_paths() {
    let hls = HlsDownloader::default();
    let handles = |url: &str| hls.handles(&Url::parse(url).unwrap());
    assert!(handles("https://a.example/.m3u8"));
    assert!(handles("https://a.example/b/a.b.M3u8#f"));
    assert!(!handles("https://a.example/a.m3u8/"));
    assert!(!handles("https://a.example/am3u8"));
    assert!(!handles("https://a.example/?a=b.m3u8"));
    assert!(!handles("https://a.example/a.m3u8/b"));
}

#[test]
fn last_filled_lines() {
    assert_eq!(last_lines(b"a\n\n b \r\nc\n", 2), "b\nc");
    assert_eq!(last_lines(b"a\n\n b \r\nc\n", 5), "a\nb\nc");
    assert_eq!(last_lines(b"a\nb", 0), "");
    assert_eq!(last_lines(b"", 3), "");
    assert_eq!(last_lines(b"x\xffy", 1), "x\u{fffd}y");
    assert_eq!(last_lines_of("  \n\t\n", 1), "");
    assert_eq!(last_lines_of("a\rb\nc", 2), "a\rb\nc");
}

#[test]
fn results_of_programs() {
    assert_eq!(
        command_result("p", true, "exit status: 0", b"out\n", b"err"),
        Ok("out\n".to_string())
    );
    assert_eq!(
        command_result("p", false, "exit status: 1", b"out\n", b"err"),
        Err("p exited with exit status: 1: out\nerr".to_string())
    );
    assert_eq!(
        failure_of("p", "s", "1\n2\n3\n4\n5\n6\n7\n8\n9\n10\n11"),
        "p exited with s: 2\n3\n4\n5\n6\n7\n8\n9\n10\n11"
    );
}

#[test]
fn failed_downloads_are_repeated() {
    let mut run = DownloadRun::new(2);
    assert_eq!(run.finish_attempt(false), AttemptAction::Retry);
    assert_eq!(run.finish_attempt(false), AttemptAction::Retry);
    assert_eq!(run.attempt, 3);
    assert_eq!(run.finish_attempt(false), AttemptAction::Finish);

    let mut run = DownloadRun::new(0);
    assert_eq!(run.finish_attempt(false), AttemptAction::Finish);

    let mut run = DownloadRun::new(2);
    assert_eq!(run.finish_attempt(false), AttemptAction::Retry);
    assert_eq!(run.finish_attempt(true), AttemptAction::Finish);

    let mut run = DownloadRun::new(u32::MAX);
    assert_eq!(run.finish_attempt(false), AttemptAction::Retry);
}

#[test]
fn the_update_is_a_command() {
    let youtube = YoutubeDownloader {
        executable: "/opt/yt-dlp".to_string(),
        arguments: vec!["--cookies".to_string()],
        ..YoutubeDownloader::default()
    };
    let (executable, arguments) = youtube.update_command();
    assert_eq!(executable, "/opt/yt-dlp");
    assert_eq!(arguments, ["--update"]);
}

#[test]
fn last_lines_of_last_lines() {
    let outputs: [&[u8]; 5] = [b"", b" \n\r\n", b"a", b"a\n b \n\n c\r\nd\xff\n", b"\xf0\n\xc3\xa4 \n"];
    let counts = [0, 1, 2, 3, 4, 5, usize::MAX];
    for output in outputs {
        assert_eq!(last_lines(output, 0), "");
        for n in counts {
            for m in counts {
                assert_eq!(
                    last_lines(last_lines(output, n).as_bytes(), m),
                    last_lines(output, m.min(n))
                );
            }
        }
    }
    assert_eq!(last_lines(outputs[3], usize::MAX), "a\nb\nc\nd\u{fffd}");
}
