//! The programs that download videos, and how they are called.
use vstd::prelude::*;
use vstd::string::StringExecFns;

use crate::duration::{seconds, Duration};
use crate::page::UrlParts;
use crate::text::{chars_of, ends, ends_with, lower_ascii, lowered, same_text, texts};
use crate::unicode::{all_ascii, lowercase};
use crate::url::Url;

verus! {

/// Downloads HLS playlists (links whose path ends with ".m3u8") with N_m3u8DL-RE.
#[derive(Debug)]
pub struct HlsDownloader {
    pub executable: String,
    /// Added to the arguments of each call.
    pub arguments: Vec<String>,
}

impl Default for HlsDownloader {
    /// The program by its name, without further arguments.
    fn default() -> (hls: Self)
        ensures
            hls.executable@ == "N_m3u8DL-RE"@,
            hls.arguments@.len() == 0,
    {
        HlsDownloader { executable: "N_m3u8DL-RE".to_string(), arguments: Vec::new() }
    }
}

/// The link leads to an HLS playlist: its path ends with ".m3u8", in whatever letter case.
pub open spec fn is_playlist(url: UrlParts) -> bool {
    ends(lower_ascii(url.2), ".m3u8"@)
}

/// The arguments, followed by copies of the configured ones.
fn with_arguments(fixed: Vec<String>, more: &Vec<String>) -> (all: Vec<String>)
    ensures
        texts(all@) == texts(fixed@) + texts(more@),
{
    let mut all = fixed;
    let mut i: usize = 0;
    assert(texts(fixed@) + texts(more@).take(0) =~= texts(fixed@));
    while i < more.len()
        invariant
            i <= more@.len(),
            texts(all@) == texts(fixed@) + texts(more@).take(i as int),
        decreases more@.len() - i,
    {
        let ghost before = all@;
        all.push(more[i].clone());
        assert(texts(all@) =~= texts(before).push(more@[i as int]@));
        assert(texts(fixed@) + texts(more@).take(i + 1) =~= (texts(fixed@) + texts(more@).take(
            i as int,
        )).push(more@[i as int]@));
        i += 1;
    }
    assert(texts(more@).take(i as int) =~= texts(more@));
    all
}

impl HlsDownloader {
    /// The arguments of a call.
    pub open spec fn call(self, url: UrlParts, directory: Seq<char>, name: Seq<char>) -> Seq<
        Seq<char>,
    > {
        seq![
            url.0,
            "--save-dir"@,
            directory,
            "--save-name"@,
            name,
            "--auto-select"@,
        ] + texts(self.arguments@)
    }

    /// Whether this program downloads the link.
    pub fn handles(&self, url: &Url) -> (yes: bool)
        ensures
            yes == is_playlist(url.parts()),
    {
        ends_with(lowered(url.path.as_str()).as_str(), ".m3u8")
    }

    /// The arguments for downloading the link into the directory under the name.
    pub fn command_arguments(&self, url: &Url, directory: &str, name: &str) -> (arguments: Vec<
        String,
    >)
        ensures
            texts(arguments@) == self.call(url.parts(), directory@, name@),
    {
        let mut fixed: Vec<String> = Vec::new();
        fixed.push(url.text.clone());
        fixed.push("--save-dir".to_string());
        fixed.push(directory.to_string());
        fixed.push("--save-name".to_string());
        fixed.push(name.to_string());
        fixed.push("--auto-select".to_string());
        assert(texts(fixed@) =~= seq![
            url.text@,
            "--save-dir"@,
            directory@,
            "--save-name"@,
            name@,
            "--auto-select"@,
        ]);
        with_arguments(fixed, &self.arguments)
    }
}

/// Downloads links to the configured hosts (and their subdomains) with yt-dlp.
#[derive(Debug)]
pub struct YoutubeDownloader {
    pub executable: String,
    /// Added to the arguments of each call.
    pub arguments: Vec<String>,
    pub hosts: Vec<String>,
    /// Runs "yt-dlp --update" at startup and then after each interval; no updates if not set.
    pub update_interval: Option<Duration>,
}

impl Default for YoutubeDownloader {
    /// The program by its name, for the hosts of YouTube, without updates.
    fn default() -> (youtube: Self)
        ensures
            youtube.executable@ == "yt-dlp"@,
            youtube.arguments@.len() == 0,
            texts(youtube.hosts@) == seq!["youtube.com"@, "youtu.be"@, "youtube-nocookie.com"@],
            youtube.update_interval is None,
    {
        let mut hosts: Vec<String> = Vec::new();
        hosts.push("youtube.com".to_string());
        hosts.push("youtu.be".to_string());
        hosts.push("youtube-nocookie.com".to_string());
        assert(texts(hosts@) =~= seq!["youtube.com"@, "youtu.be"@, "youtube-nocookie.com"@]);
        YoutubeDownloader {
            executable: "yt-dlp".to_string(),
            arguments: Vec::new(),
            hosts,
            update_interval: None,
        }
    }
}

/// `host` is `domain` or one of its subdomains.
pub open spec fn in_domain(host: Seq<char>, domain: Seq<char>) -> bool {
    host == domain || ends(host, seq!['.'] + domain)
}

/// Whether `host` is `domain` or one of its subdomains.
pub fn is_in_domain(host: &str, domain: &str) -> (yes: bool)
    ensures
        yes == in_domain(host@, domain@),
{
    proof {
        reveal_strlit(".");
        assert("."@ =~= seq!['.']);
    }
    same_text(host, domain) || ends_with(host, ".".to_string().concat(domain).as_str())
}

/// `s` with each `%` doubled.
pub open spec fn doubled_percent(s: Seq<char>) -> Seq<char>
    decreases s.len(),
{
    if s.len() == 0 {
        Seq::empty()
    } else if s[0] == '%' {
        seq!['%', '%'] + doubled_percent(s.skip(1))
    } else {
        seq![s[0]] + doubled_percent(s.skip(1))
    }
}

/// The output template under which a name is stored.
pub open spec fn output_template(name: Seq<char>) -> Seq<char> {
    doubled_percent(name) + ".%(ext)s"@
}

/// The text with each `%` doubled.
fn escape_percent(text: &str) -> (escaped: String)
    ensures
        escaped@ == doubled_percent(text@),
{
    let chars = chars_of(text);
    let mut escaped = String::new();
    let mut i: usize = 0;
    assert(chars@.skip(0) =~= text@);
    assert(escaped@ + doubled_percent(text@) =~= doubled_percent(text@));
    while i < chars.len()
        invariant
            i <= chars@.len(),
            doubled_percent(text@) == escaped@ + doubled_percent(chars@.skip(i as int)),
        decreases chars@.len() - i,
    {
        let c = chars[i];
        let ghost before = escaped@;
        let ghost rest = doubled_percent(chars@.skip(i + 1));
        assert(chars@.skip(i as int)[0] == c);
        assert(chars@.skip(i as int).skip(1) =~= chars@.skip(i + 1));
        if c == '%' {
            escaped.push('%');
            escaped.push('%');
            assert(before + (seq!['%', '%'] + rest) =~= escaped@ + rest);
        } else {
            escaped.push(c);
            assert(before + (seq![c] + rest) =~= escaped@ + rest);
        }
        i += 1;
    }
    assert(escaped@ + Seq::<char>::empty() =~= escaped@);
    escaped
}

impl YoutubeDownloader {
    /// The program downloads links to this host.
    pub open spec fn serves(self, url: UrlParts) -> bool {
        match url.1 {
            Some(host) => exists|i: int|
                0 <= i < self.hosts@.len() && in_domain(
                    lowercase(host),
                    lowercase((#[trigger] self.hosts@[i])@),
                ),
            None => false,
        }
    }

    /// The arguments of a call.
    pub open spec fn call(self, url: UrlParts, directory: Seq<char>, name: Seq<char>) -> Seq<
        Seq<char>,
    > {
        seq![
            url.0,
            "--no-playlist"@,
            "--no-progress"@,
            "--paths"@,
            directory,
            "--output"@,
            output_template(name),
        ] + texts(self.arguments@)
    }

    /// The host is one of the configured ones, or a subdomain of one, where letter case is that of
    /// ASCII.
    pub open spec fn serves_ascii(self, host: Seq<char>) -> bool {
        exists|i: int|
            0 <= i < self.hosts@.len() && in_domain(
                lower_ascii(host),
                lower_ascii((#[trigger] self.hosts@[i])@),
            )
    }

    /// Whether this program downloads the link.
    pub fn handles(&self, url: &Url) -> (yes: bool)
        ensures
            yes == self.serves(url.parts()),
            url.host matches Some(host) ==> all_ascii(host@) && (forall|i: int|
                0 <= i < self.hosts@.len() ==> all_ascii((#[trigger] self.hosts@[i])@)) ==> yes
                == self.serves_ascii(host@),
    {
        match &url.host {
            Some(host) => {
                let lower_host = host.as_str().to_lowercase();
                let mut i: usize = 0;
                while i < self.hosts.len()
                    invariant
                        i <= self.hosts@.len(),
                        url.host == Some(*host),
                        lower_host@ == lowercase(host@),
                        all_ascii(host@) ==> lower_host@ == lower_ascii(host@),
                        all_ascii(host@) && (forall|k: int|
                            0 <= k < self.hosts@.len() ==> all_ascii((#[trigger] self.hosts@[k])@))
                            ==> forall|k: int|
                            0 <= k < i ==> !in_domain(
                                lower_ascii(host@),
                                lower_ascii((#[trigger] self.hosts@[k])@),
                            ),
                        forall|k: int|
                            0 <= k < i ==> !in_domain(
                                lowercase(host@),
                                lowercase((#[trigger] self.hosts@[k])@),
                            ),
                    decreases self.hosts@.len() - i,
                {
                    let domain = self.hosts[i].as_str().to_lowercase();
                    if is_in_domain(lower_host.as_str(), domain.as_str()) {
                        return true;
                    }
                    i += 1;
                }
                false
            },
            None => false,
        }
    }

    /// The arguments for downloading the link into the directory under the name.
    pub fn command_arguments(&self, url: &Url, directory: &str, name: &str) -> (arguments: Vec<
        String,
    >)
        ensures
            texts(arguments@) == self.call(url.parts(), directory@, name@),
    {
        // The output is a template, so a literal "%" has to be escaped.
        let output = escape_percent(name).concat(".%(ext)s");
        let mut fixed: Vec<String> = Vec::new();
        fixed.push(url.text.clone());
        fixed.push("--no-playlist".to_string());
        fixed.push("--no-progress".to_string());
        fixed.push("--paths".to_string());
        fixed.push(directory.to_string());
        fixed.push("--output".to_string());
        fixed.push(output);
        assert(texts(fixed@) =~= seq![
            url.text@,
            "--no-playlist"@,
            "--no-progress"@,
            "--paths"@,
            directory@,
            "--output"@,
            output_template(name@),
        ]);
        with_arguments(fixed, &self.arguments)
    }
}

impl YoutubeDownloader {
    /// Returns the executable and its arguments for an update of the program.
    pub fn update_command(&self) -> (command: (&str, Vec<String>))
        ensures
            command.0@ == self.executable@,
            texts(command.1@) == seq!["--update"@],
    {
        let mut arguments: Vec<String> = Vec::new();
        arguments.push("--update".to_string());
        assert(texts(arguments@) =~= seq!["--update"@]);
        (self.executable.as_str(), arguments)
    }
}

/// The programs that download videos.
#[derive(Debug)]
pub struct Downloaders {
    pub hls: HlsDownloader,
    pub youtube: YoutubeDownloader,
    /// Number of additional attempts if a download fails.
    pub retries: u32,
    /// Waited before each additional attempt.
    pub retry_delay: Duration,
}

impl Default for Downloaders {
    /// Both programs by their names, two additional attempts, half a minute between them.
    fn default() -> (downloaders: Self)
        ensures
            downloaders.hls.executable@ == "N_m3u8DL-RE"@,
            downloaders.hls.arguments@.len() == 0,
            downloaders.youtube.executable@ == "yt-dlp"@,
            downloaders.youtube.arguments@.len() == 0,
            texts(downloaders.youtube.hosts@) == seq![
                "youtube.com"@,
                "youtu.be"@,
                "youtube-nocookie.com"@,
            ],
            downloaders.youtube.update_interval is None,
            downloaders.retries == 2,
            downloaders.retry_delay.nanos == seconds(30),
    {
        Downloaders {
            hls: HlsDownloader::default(),
            youtube: YoutubeDownloader::default(),
            retries: 2,
            retry_delay: Duration::from_secs(30),
        }
    }
}

/// A program and its arguments.
pub type CommandParts = (Seq<char>, Seq<Seq<char>>);

/// The texts of a program and its arguments.
pub open spec fn command_parts(command: Option<(&str, Vec<String>)>) -> Option<CommandParts> {
    match command {
        Some((executable, arguments)) => Some((executable@, texts(arguments@))),
        None => None,
    }
}

impl Downloaders {
    /// The program and its arguments for the link: yt-dlp for its hosts, else N_m3u8DL-RE for
    /// playlists, else none.
    pub open spec fn call(self, url: UrlParts, directory: Seq<char>, name: Seq<char>) -> Option<
        CommandParts,
    > {
        if self.youtube.serves(url) {
            Some((self.youtube.executable@, self.youtube.call(url, directory, name)))
        } else if is_playlist(url) {
            Some((self.hls.executable@, self.hls.call(url, directory, name)))
        } else {
            None
        }
    }

    /// Returns the executable and its arguments for the downloader handling the url, if any.
    pub fn command(&self, url: &Url, directory: &str, name: &str) -> (command: Option<
        (&str, Vec<String>),
    >)
        ensures
            command_parts(command) == self.call(url.parts(), directory@, name@),
    {
        if self.youtube.handles(url) {
            Some(
                (
                    self.youtube.executable.as_str(),
                    self.youtube.command_arguments(url, directory, name),
                ),
            )
        } else if self.hls.handles(url) {
            Some(
                (self.hls.executable.as_str(), self.hls.command_arguments(url, directory, name)),
            )
        } else {
            None
        }
    }
}

/// What a template with doubled `%` stands for: each `%%` is one `%`.
pub open spec fn halved_percent(s: Seq<char>) -> Seq<char>
    decreases s.len(),
{
    if s.len() == 0 {
        Seq::empty()
    } else if s.len() > 1 && s[0] == '%' && s[1] == '%' {
        seq!['%'] + halved_percent(s.skip(2))
    } else {
        seq![s[0]] + halved_percent(s.skip(1))
    }
}

/// A name in an output template stands for itself, whatever `%` it holds.
pub proof fn law_escaped_percent_is_literal(name: Seq<char>)
    ensures
        halved_percent(doubled_percent(name)) == name,
    decreases name.len(),
{
    if name.len() == 0 {
        assert(name =~= Seq::<char>::empty());
    } else {
        let rest = name.skip(1);
        let escaped = doubled_percent(name);
        law_escaped_percent_is_literal(rest);
        assert(seq![name[0]] + rest =~= name);
        if name[0] == '%' {
            assert(escaped.skip(2) =~= doubled_percent(rest));
        } else {
            assert(escaped.skip(1) =~= doubled_percent(rest));
        }
    }
}

/// The subdomains of a configured host are downloaded like the host itself.
pub proof fn law_subdomains_are_served(subdomain: Seq<char>, domain: Seq<char>)
    ensures
        in_domain(domain, domain),
        in_domain(subdomain + seq!['.'] + domain, domain),
{
    let host = subdomain + seq!['.'] + domain;
    let end = seq!['.'] + domain;
    assert(host.subrange(host.len() - end.len(), host.len() as int) =~= end);
}

/// A host that merely ends with the name of a configured host is another host.
pub proof fn law_similar_hosts_are_not_served(front: Seq<char>, domain: Seq<char>)
    requires
        front.len() > 0,
        front.last() != '.',
    ensures
        !in_domain(front + domain, domain),
{
    let host = front + domain;
    let end = seq!['.'] + domain;
    assert(host.len() != domain.len());
    if ends(host, end) {
        let tail = host.subrange(host.len() - end.len(), host.len() as int);
        assert(tail[0] == '.');
        assert(tail[0] == front.last());
    }
}

/// A link is handed to one program at most: to yt-dlp wherever that serves its host, even if the
/// link leads to a playlist.
pub proof fn law_youtube_comes_first(
    downloaders: Downloaders,
    url: UrlParts,
    directory: Seq<char>,
    name: Seq<char>,
)
    ensures
        downloaders.youtube.serves(url) ==> downloaders.call(url, directory, name) == Some(
            (downloaders.youtube.executable@, downloaders.youtube.call(url, directory, name)),
        ),
        downloaders.call(url, directory, name) is Some <==> downloaders.youtube.serves(url)
            || is_playlist(url),
{
}

} // verus!
