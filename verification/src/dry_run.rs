//! What a file would result in.
use vstd::prelude::*;
use vstd::string::StringExecFns;

use crate::config::{Configuration, VideoConfiguration};
use crate::downloaders::{command_parts, CommandParts};
use crate::filter::{any_accepts, any_matches};
use crate::names::{file_name_from_title, name_of};
use crate::page::{
    entries_of, entry_parts, extract_magnet_links, extract_videos, fits, magnets_of,
    selected_beside, selected_inside, EntryParts, UrlParts, VideoEntry,
};
use crate::text::{contains, decimal, join, joined, number_text, occurs, same_text, texts};
use crate::videos::tasks_of;

verus! {

/// Why the arguments of the program are refused.
#[derive(Debug, PartialEq)]
pub enum ArgumentError {
    /// The first argument is not `--dry-run`.
    Unknown(String),
    /// No file follows.
    MissingFile,
    /// Another argument follows the file.
    Unexpected(String),
}

impl ArgumentError {
    /// What is wrong, in words.
    pub open spec fn words(self) -> Seq<char> {
        match self {
            ArgumentError::Unknown(argument) => "unknown argument '"@ + argument@
                + "', expected: --dry-run <file>"@,
            ArgumentError::MissingFile => "--dry-run needs the file to read"@,
            ArgumentError::Unexpected(argument) => "unexpected argument '"@ + argument@
                + "' after the file"@,
        }
    }

    /// What is wrong, in words.
    pub fn message(&self) -> (message: String)
        ensures
            message@ == self.words(),
    {
        match self {
            ArgumentError::Unknown(argument) => "unknown argument '".to_string().concat(
                argument.as_str(),
            ).concat("', expected: --dry-run <file>"),
            ArgumentError::MissingFile => "--dry-run needs the file to read".to_string(),
            ArgumentError::Unexpected(argument) => "unexpected argument '".to_string().concat(
                argument.as_str(),
            ).concat("' after the file"),
        }
    }
}

/// Returns the file of a "--dry-run <file>" invocation.
pub fn dry_run_path(arguments: Vec<String>) -> (path: Result<Option<String>, ArgumentError>)
    ensures
        match path {
            Ok(None) => arguments@.len() == 0,
            Ok(Some(path)) => arguments@.len() == 2 && arguments@[0]@ == "--dry-run"@
                && arguments@[1]@ == path@,
            Err(ArgumentError::Unknown(argument)) => arguments@.len() > 0 && arguments@[0]@
                != "--dry-run"@ && arguments@[0]@ == argument@,
            Err(ArgumentError::MissingFile) => arguments@.len() == 1 && arguments@[0]@
                == "--dry-run"@,
            Err(ArgumentError::Unexpected(argument)) => arguments@.len() > 2 && arguments@[0]@
                == "--dry-run"@ && arguments@[2]@ == argument@,
        },
{
    if arguments.len() == 0 {
        return Ok(None);
    }
    if !same_text(arguments[0].as_str(), "--dry-run") {
        return Err(ArgumentError::Unknown(arguments[0].clone()));
    }
    if arguments.len() == 1 {
        return Err(ArgumentError::MissingFile);
    }
    if arguments.len() > 2 {
        return Err(ArgumentError::Unexpected(arguments[2].clone()));
    }
    Ok(Some(arguments[1].clone()))
}

/// An argument as it is shown: in quotes, so that one containing spaces stays recognizable as one.
pub open spec fn shown_argument(argument: Seq<char>) -> Seq<char> {
    if occurs(argument, " "@) {
        "\""@ + argument + "\""@
    } else {
        argument
    }
}

/// The arguments as they are shown.
pub open spec fn shown_arguments(arguments: Seq<Seq<char>>) -> Seq<Seq<char>> {
    arguments.map_values(|argument: Seq<char>| shown_argument(argument))
}

/// The line on the command that would download a link.
pub open spec fn command_line(command: Option<CommandParts>) -> Seq<char> {
    match command {
        Some((executable, arguments)) => "  command:   "@ + executable + " "@ + joined(
            shown_arguments(arguments),
            " "@,
        ),
        None => "  command:   <no downloader handles this link>"@,
    }
}

/// The line on the name of an entry.
pub open spec fn name_line(name: Seq<char>) -> Seq<char> {
    if name.len() == 0 {
        "  name:      <none, the entry would be reported as a problem>"@
    } else {
        "  name:      "@ + name
    }
}

/// The line on the thumbnail of an entry.
pub open spec fn thumbnail_line(url: Option<UrlParts>) -> Seq<char> {
    match url {
        Some(url) => "  thumbnail: "@ + url.0,
        None => "  thumbnail: <none>"@,
    }
}

/// The lines on an entry.
pub open spec fn entry_lines(entry: EntryParts, videos: VideoConfiguration) -> Seq<Seq<char>> {
    let name = name_of(entry.0, videos.names);
    let front = seq!["\n  title:     "@ + entry.0, name_line(name), thumbnail_line(entry.1)];
    match entry.2 {
        Some(url) => front.push("  video:     "@ + url.0).push(
            command_line(videos.downloaders.call(url, videos.path@, name)),
        ),
        None => front.push("  video:     <none>"@),
    }
}

/// The lines on all entries.
pub open spec fn all_entry_lines(entries: Seq<EntryParts>, videos: VideoConfiguration) -> Seq<
    Seq<char>,
>
    decreases entries.len(),
{
    if entries.len() == 0 {
        Seq::empty()
    } else {
        all_entry_lines(entries.drop_last(), videos) + entry_lines(entries.last(), videos)
    }
}

/// The links, indented.
pub open spec fn link_lines(links: Seq<Seq<char>>) -> Seq<Seq<char>> {
    links.map_values(|link: Seq<char>| "  "@ + link)
}

/// The lines on the file and its magnet links.
pub open spec fn magnet_lines(file_name: Seq<char>, links: Seq<Seq<char>>) -> Seq<Seq<char>> {
    seq!["file: "@ + file_name, "\nmagnet links: "@ + decimal(links.len())] + link_lines(links)
}

/// The note on a file that a real run would skip.
pub open spec fn skip_lines(file_name: Seq<char>, videos: VideoConfiguration) -> Seq<Seq<char>> {
    if any_accepts(videos.files@, file_name) {
        Seq::empty()
    } else {
        seq!["\nthe file name does not match videos.files, a real run would skip it"@]
    }
}

/// The lines on the video entries.
pub open spec fn video_lines(entries: Seq<EntryParts>, videos: VideoConfiguration) -> Seq<
    Seq<char>,
> {
    seq!["\nvideo entries: "@ + decimal(entries.len())] + all_entry_lines(entries, videos)
}

/// The whole report on a file with the given magnet links and entries.
pub open spec fn report_lines(
    file_name: Seq<char>,
    links: Seq<Seq<char>>,
    entries: Seq<EntryParts>,
    videos: Option<VideoConfiguration>,
) -> Seq<Seq<char>> {
    match videos {
        None => magnet_lines(file_name, links).push("\nno video configuration"@),
        Some(videos) => magnet_lines(file_name, links) + skip_lines(file_name, videos)
            + video_lines(entries, videos),
    }
}

/// Adds a line.
fn add_line(lines: &mut Vec<String>, line: String)
    ensures
        texts(final(lines)@) == texts(old(lines)@).push(line@),
{
    let ghost before = lines@;
    lines.push(line);
    assert(texts(lines@) =~= texts(before).push(line@));
}

/// An argument as it is shown.
fn show_argument(argument: &str) -> (shown: String)
    ensures
        shown@ == shown_argument(argument@),
{
    if contains(argument, " ") {
        "\"".to_string().concat(argument).concat("\"")
    } else {
        argument.to_string()
    }
}

/// The line on the command that would download the entry under the name.
fn show_command(command: Option<(&str, Vec<String>)>) -> (line: String)
    ensures
        line@ == command_line(command_parts(command)),
{
    match command {
        Some((executable, arguments)) => {
            let mut shown: Vec<String> = Vec::new();
            let ghost all = shown_arguments(texts(arguments@));
            let mut i: usize = 0;
            assert(texts(shown@) =~= all.take(0));
            while i < arguments.len()
                invariant
                    i <= arguments@.len(),
                    all == shown_arguments(texts(arguments@)),
                    texts(shown@) == all.take(i as int),
                decreases arguments@.len() - i,
            {
                add_line(&mut shown, show_argument(arguments[i].as_str()));
                assert(all.take(i + 1) =~= all.take(i as int).push(all[i as int]));
                i += 1;
            }
            assert(all.take(i as int) =~= all);
            "  command:   ".to_string().concat(executable).concat(" ").concat(
                join(&shown, " ").as_str(),
            )
        },
        None => "  command:   <no downloader handles this link>".to_string(),
    }
}

/// Adds the lines on an entry.
fn add_entry(lines: &mut Vec<String>, entry: &VideoEntry, videos: &VideoConfiguration)
    ensures
        texts(final(lines)@) == texts(old(lines)@) + entry_lines(entry.parts(), *videos),
{
    let ghost before = texts(lines@);
    let name = file_name_from_title(entry.title.as_str(), &videos.names);
    add_line(lines, "\n  title:     ".to_string().concat(entry.title.as_str()));
    if name.as_str().is_empty() {
        add_line(
            lines,
            "  name:      <none, the entry would be reported as a problem>".to_string(),
        );
    } else {
        add_line(lines, "  name:      ".to_string().concat(name.as_str()));
    }
    match &entry.thumbnail_url {
        Some(url) => add_line(lines, "  thumbnail: ".to_string().concat(url.text.as_str())),
        None => add_line(lines, "  thumbnail: <none>".to_string()),
    }
    match &entry.video_url {
        Some(url) => {
            add_line(lines, "  video:     ".to_string().concat(url.text.as_str()));
            let command = videos.downloaders.command(url, videos.path.as_str(), name.as_str());
            add_line(lines, show_command(command));
        },
        None => add_line(lines, "  video:     <none>".to_string()),
    }
    assert(texts(lines@) =~= before + entry_lines(entry.parts(), *videos));
}

/// Describes the given magnet links and entries of a file and what the entries would be named.
pub fn report_on(
    file_name: &str,
    links: &Vec<String>,
    entries: &Vec<VideoEntry>,
    videos: &Option<VideoConfiguration>,
) -> (report: String)
    ensures
        report@ == joined(
            report_lines(file_name@, texts(links@), entry_parts(entries@), *videos),
            "\n"@,
        ),
{
    let mut lines: Vec<String> = Vec::new();
    assert(texts(lines@) =~= Seq::empty());
    add_line(&mut lines, "file: ".to_string().concat(file_name));
    add_line(
        &mut lines,
        "\nmagnet links: ".to_string().concat(number_text(links.len()).as_str()),
    );
    let ghost head = texts(lines@);
    let ghost indented = link_lines(texts(links@));
    assert(head =~= seq!["file: "@ + file_name@, "\nmagnet links: "@ + decimal(links@.len())]);
    let mut i: usize = 0;
    assert(head + indented.take(0) =~= head);
    while i < links.len()
        invariant
            i <= links@.len(),
            indented == link_lines(texts(links@)),
            texts(lines@) == head + indented.take(i as int),
        decreases links@.len() - i,
    {
        add_line(&mut lines, "  ".to_string().concat(links[i].as_str()));
        assert(head + indented.take(i + 1) =~= (head + indented.take(i as int)).push(
            indented[i as int],
        ));
        i += 1;
    }
    assert(indented.take(i as int) =~= indented);
    assert(texts(lines@) == magnet_lines(file_name@, texts(links@)));
    match videos {
        None => {
            add_line(&mut lines, "\nno video configuration".to_string());
        },
        Some(videos) => {
            let ghost front = texts(lines@);
            if !any_matches(videos.files.as_slice(), file_name) {
                // Shown but not obeyed, so that the entries of a renamed or copied file can be
                // checked.
                let note = "\nthe file name does not match videos.files, a real run would skip it";
                add_line(&mut lines, note.to_string());
            }
            assert(texts(lines@) =~= front + skip_lines(file_name@, *videos));
            let ghost noted = texts(lines@);
            let count = "\nvideo entries: ".to_string().concat(
                number_text(entries.len()).as_str(),
            );
            add_line(&mut lines, count);
            let ghost all = entry_parts(entries@);
            let mut k: usize = 0;
            assert(texts(lines@) =~= noted + (seq![count@] + all_entry_lines(
                all.take(0),
                *videos,
            )));
            while k < entries.len()
                invariant
                    k <= entries@.len(),
                    all == entry_parts(entries@),
                    texts(lines@) == noted + (seq![count@] + all_entry_lines(
                        all.take(k as int),
                        *videos,
                    )),
                decreases entries@.len() - k,
            {
                add_entry(&mut lines, &entries[k], videos);
                proof {
                    assert(all.take(k + 1).drop_last() =~= all.take(k as int));
                    assert(all.take(k + 1).last() == entries@[k as int].parts());
                    let before = all_entry_lines(all.take(k as int), *videos);
                    let added = entry_lines(entries@[k as int].parts(), *videos);
                    assert(noted + (seq![count@] + before) + added =~= noted + (seq![count@] + (
                    before + added)));
                }
                k += 1;
            }
            assert(all.take(k as int) =~= all);
        },
    }
    join(&lines, "\n")
}

/// The entries that a page has for a configuration: none without a video configuration.
pub open spec fn page_entries(content: Seq<char>, videos: Option<VideoConfiguration>) -> Seq<
    EntryParts,
> {
    match videos {
        Some(videos) => entries_of(
            selected_beside(content, "h4"@, "a[href]"@, "href"@),
            videos.links,
        ),
        None => Seq::empty(),
    }
}

/// Describes the entries of the file and what they would be named, for developing the filters.
pub fn dry_run_report(content: &str, file_name: &str, config: &Configuration) -> (report: String)
    requires
        fits(content@),
    ensures
        report@ == joined(
            report_lines(
                file_name@,
                magnets_of(selected_inside(content@, "li"@, "a"@), config.filters@),
                page_entries(content@, config.videos),
                config.videos,
            ),
            "\n"@,
        ),
{
    let links = extract_magnet_links(content, config.filters.as_slice());
    let entries = match &config.videos {
        Some(videos) => extract_videos(content, &videos.links),
        None => Vec::new(),
    };
    assert(config.videos is None ==> entry_parts(entries@) =~= Seq::empty());
    report_on(file_name, &links, &entries, &config.videos)
}

/// The filter on file names is reported but not obeyed: whatever the file is called, the report
/// ends with what is to say of the video entries, and only a note is added where no filter accepts
/// the name.
pub proof fn law_file_filter_is_not_obeyed(
    file_name: Seq<char>,
    links: Seq<Seq<char>>,
    entries: Seq<EntryParts>,
    videos: VideoConfiguration,
)
    ensures
        ({
            let report = report_lines(file_name, links, entries, Some(videos));
            let on_videos = video_lines(entries, videos);
            let note: nat = if any_accepts(videos.files@, file_name) {
                0
            } else {
                1
            };
            &&& report.len() == magnet_lines(file_name, links).len() + note + on_videos.len()
            &&& report.skip(report.len() - on_videos.len()) == on_videos
        }),
{
    let report = report_lines(file_name, links, entries, Some(videos));
    let on_videos = video_lines(entries, videos);
    assert(report.skip(report.len() - on_videos.len()) =~= on_videos);
}

/// What is shown of an entry is what a real run does: the name and the command are those under
/// which and with which the video is downloaded, and an entry whose video is not downloaded shows
/// why.
pub proof fn law_report_shows_what_a_run_does(entry: EntryParts, videos: VideoConfiguration)
    ensures
        ({
            let lines = entry_lines(entry, videos);
            let task = tasks_of(entry, videos).last();
            &&& task is Video ==> {
                &&& lines.contains(name_line(task->Video_name))
                &&& lines.last() == command_line(
                    Some((task->Video_executable, task->Video_arguments)),
                )
            }
            &&& task is Report ==> lines.contains(name_line(Seq::empty())) || lines.last()
                == "  video:     <none>"@ || lines.last() == command_line(None)
        }),
{
    let lines = entry_lines(entry, videos);
    let name = name_of(entry.0, videos.names);
    assert(lines[1] == name_line(name));
    if name.len() == 0 {
        assert(name =~= Seq::<char>::empty());
    }
}

} // verus!
