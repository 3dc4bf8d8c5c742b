//! What the description of a file says, for all files.
use vstd::prelude::*;

use crate::config::VideoConfiguration;
use crate::dry_run::{
    all_entry_lines, command_line, entry_lines, link_lines, magnet_lines, name_line, page_entries,
    report_lines, shown_argument, shown_arguments, skip_lines, thumbnail_line, video_lines,
    ArgumentError,
};
use crate::filter::any_accepts;
use crate::names::name_of;
use crate::page::{entries_of, selected_beside, EntryParts, UrlParts};
use crate::text::{decimal, joined, occurs};

verus! {

/// What is wrong with the arguments names the argument.
pub proof fn law_argument_errors_name_the_argument(argument: String)
    ensures
        ArgumentError::Unknown(argument).words() == "unknown argument '"@ + argument@
            + "', expected: --dry-run <file>"@,
        ArgumentError::MissingFile.words() == "--dry-run needs the file to read"@,
        ArgumentError::Unexpected(argument).words() == "unexpected argument '"@ + argument@
            + "' after the file"@,
{
}

/// An argument that holds a space is shown in quotes, and any other one as it is. The command is
/// shown with its program and all its arguments, in order.
pub proof fn law_command_is_shown_in_full(
    argument: Seq<char>,
    arguments: Seq<Seq<char>>,
    executable: Seq<char>,
)
    ensures
        argument.contains(' ') ==> shown_argument(argument) == "\""@ + argument + "\""@,
        !argument.contains(' ') ==> shown_argument(argument) == argument,
        shown_arguments(arguments).len() == arguments.len(),
        forall|i: int|
            0 <= i < arguments.len() ==> (#[trigger] shown_arguments(arguments)[i])
                == shown_argument(arguments[i]),
        command_line(Some((executable, arguments))) == "  command:   "@ + executable + " "@
            + joined(shown_arguments(arguments), " "@),
        command_line(None) == "  command:   <no downloader handles this link>"@,
{
    reveal_strlit(" ");
    let space = " "@;
    assert(space =~= seq![' ']);
    if argument.contains(' ') {
        let i = choose|i: int| 0 <= i < argument.len() && argument[i] == ' ';
        assert(argument.subrange(i, i + 1) =~= space);
        assert(crate::text::occurs_at(argument, space, i));
    }
    if occurs(argument, space) {
        let i = choose|i: int| crate::text::occurs_at(argument, space, i);
        let found = argument.subrange(i, i + 1);
        assert(found == space);
        assert(found[0] == argument[i]);
        assert(argument[i] == ' ');
    }
}

/// The lines on an entry show its title, its name, its thumbnail and its video, and the command for
/// the video, where there is one.
pub proof fn law_entry_is_shown_in_full(
    title: Seq<char>,
    image: UrlParts,
    url: UrlParts,
    thumbnail: Option<UrlParts>,
    video: Option<UrlParts>,
    videos: VideoConfiguration,
)
    ensures
        ({
            let name = name_of(title, videos.names);
            let lines = entry_lines((title, thumbnail, video), videos);
            let with_video = entry_lines((title, thumbnail, Some(url)), videos);
            let without_video = entry_lines((title, thumbnail, None), videos);
            &&& lines[0] == "\n  title:     "@ + title
            &&& lines[1] == name_line(name)
            &&& lines[2] == thumbnail_line(thumbnail)
            &&& without_video.len() == 4
            &&& without_video[3] == "  video:     <none>"@
            &&& with_video.len() == 5
            &&& with_video[3] == "  video:     "@ + url.0
            &&& with_video[4] == command_line(videos.downloaders.call(url, videos.path@, name))
        }),
        title.len() == 0 ==> name_line(title)
            == "  name:      <none, the entry would be reported as a problem>"@,
        title.len() > 0 ==> name_line(title) == "  name:      "@ + title,
        thumbnail_line(None) == "  thumbnail: <none>"@,
        thumbnail_line(Some(image)) == "  thumbnail: "@ + image.0,
{
}

/// The entries are shown one by one, in order, and none is left out.
pub proof fn law_every_entry_is_shown(
    entry: EntryParts,
    first: Seq<EntryParts>,
    second: Seq<EntryParts>,
    videos: VideoConfiguration,
)
    ensures
        all_entry_lines(Seq::empty(), videos) == Seq::<Seq<char>>::empty(),
        all_entry_lines(seq![entry], videos) == entry_lines(entry, videos),
        all_entry_lines(first + second, videos) == all_entry_lines(first, videos)
            + all_entry_lines(second, videos),
        video_lines(first, videos) == seq!["\nvideo entries: "@ + decimal(first.len())]
            + all_entry_lines(first, videos),
    decreases second.len(),
{
    let none = Seq::<EntryParts>::empty();
    let nothing = Seq::<Seq<char>>::empty();
    assert(all_entry_lines(none, videos) == nothing);
    assert(seq![entry].drop_last() =~= none);
    assert(nothing + entry_lines(entry, videos) =~= entry_lines(entry, videos));
    let all = first + second;
    if second.len() == 0 {
        assert(all =~= first);
        assert(all_entry_lines(first, videos) + nothing =~= all_entry_lines(first, videos));
    } else {
        assert(all.drop_last() =~= first + second.drop_last());
        assert(all.last() == second.last());
        law_every_entry_is_shown(entry, first, second.drop_last(), videos);
        assert(all_entry_lines(all, videos) =~= all_entry_lines(first, videos) + all_entry_lines(
            second,
            videos,
        ));
    }
}

/// The name of the file, the number of its magnet links and each of these links are shown.
pub proof fn law_every_magnet_link_is_shown(file_name: Seq<char>, links: Seq<Seq<char>>)
    ensures
        magnet_lines(file_name, links).len() == 2 + links.len(),
        magnet_lines(file_name, links)[0] == "file: "@ + file_name,
        magnet_lines(file_name, links)[1] == "\nmagnet links: "@ + decimal(links.len()),
        forall|i: int|
            0 <= i < links.len() ==> magnet_lines(file_name, links)[2 + i] == "  "@ + (
            #[trigger] links[i]),
        link_lines(links).len() == links.len(),
{
    assert forall|i: int| 0 <= i < links.len() implies magnet_lines(file_name, links)[2 + i]
        == "  "@ + (#[trigger] links[i]) by {
        assert(link_lines(links)[i] == "  "@ + links[i]);
    }
}

/// The whole description is what is said of the magnet links, the note on a name that no filter
/// accepts, and what is said of the videos; or that videos are not configured.
pub proof fn law_description_is_complete(
    file_name: Seq<char>,
    links: Seq<Seq<char>>,
    entries: Seq<EntryParts>,
    videos: VideoConfiguration,
)
    ensures
        report_lines(file_name, links, entries, None) == magnet_lines(file_name, links) + seq![
            "\nno video configuration"@,
        ],
        any_accepts(videos.files@, file_name) ==> report_lines(
            file_name,
            links,
            entries,
            Some(videos),
        ) == magnet_lines(file_name, links) + video_lines(entries, videos),
        !any_accepts(videos.files@, file_name) ==> report_lines(
            file_name,
            links,
            entries,
            Some(videos),
        ) == magnet_lines(file_name, links) + seq![
            "\nthe file name does not match videos.files, a real run would skip it"@,
        ] + video_lines(entries, videos),
        any_accepts(videos.files@, file_name) <==> skip_lines(file_name, videos).len() == 0,
{
    assert(report_lines(file_name, links, entries, None) =~= magnet_lines(file_name, links) + seq![
        "\nno video configuration"@,
    ]);
    if any_accepts(videos.files@, file_name) {
        assert(magnet_lines(file_name, links) + Seq::<Seq<char>>::empty() =~= magnet_lines(
            file_name,
            links,
        ));
    }
}

/// The entries that are shown are those of the level four headings of the page, with the links
/// beside them that have a target.
pub proof fn law_shown_entries_are_those_of_the_page(
    content: Seq<char>,
    videos: VideoConfiguration,
)
    ensures
        page_entries(content, None) == Seq::<EntryParts>::empty(),
        page_entries(content, Some(videos)) == entries_of(
            selected_beside(content, "h4"@, "a[href]"@, "href"@),
            videos.links,
        ),
{
}

} // verus!
