//! Which program downloads a link, and how it is called, for all links.
use vstd::prelude::*;

use crate::downloaders::{
    command_parts, doubled_percent, in_domain, is_playlist, output_template, Downloaders,
    HlsDownloader, YoutubeDownloader,
};
use crate::duration::seconds;
use crate::page::UrlParts;
use crate::text::{lower_ascii, texts};
use crate::text_laws::law_beginning_and_end;
use crate::unicode::lowercase;

verus! {

/// A link leads to a playlist if and only if its path ends with a dot, an `m`, a `3`, a `u` and an
/// `8`, where the letters may be large. Its host and the rest of its text do not matter.
pub proof fn law_playlists_end_with_m3u8(url: UrlParts, front: Seq<char>, end: Seq<char>)
    requires
        url.2 == front + end,
        end.len() == 5,
    ensures
        is_playlist(url) <==> end[0] == '.' && (end[1] == 'm' || end[1] == 'M') && end[2] == '3'
            && (end[3] == 'u' || end[3] == 'U') && end[4] == '8',
{
    reveal_strlit(".m3u8");
    let lower = lower_ascii(url.2);
    let tail = lower.subrange(lower.len() - 5, lower.len() as int);
    assert(tail =~= lower_ascii(end));
    assert(".m3u8"@ =~= seq!['.', 'm', '3', 'u', '8']);
    let low = lower_ascii(end);
    assert(low[0] == low[0] && low[1] == low[1] && low[2] == low[2] && low[3] == low[3] && low[4]
        == low[4]);
    if is_playlist(url) {
        assert(tail == ".m3u8"@);
        assert(low[0] == '.' && low[1] == 'm' && low[2] == '3' && low[3] == 'u' && low[4] == '8');
    }
    if end[0] == '.' && (end[1] == 'm' || end[1] == 'M') && end[2] == '3' && (end[3] == 'u'
        || end[3] == 'U') && end[4] == '8' {
        assert(low =~= ".m3u8"@);
    }
}

/// A path of fewer than five characters does not lead to a playlist.
pub proof fn law_short_paths_are_no_playlists(url: UrlParts)
    requires
        url.2.len() < 5,
    ensures
        !is_playlist(url),
{
    reveal_strlit(".m3u8");
}

/// The arguments of N_m3u8DL-RE are the link, the directory, the name and the fixed options, and
/// then all configured arguments, in order.
pub proof fn law_playlist_arguments(
    hls: HlsDownloader,
    url: UrlParts,
    directory: Seq<char>,
    name: Seq<char>,
)
    ensures
        ({
            let call = hls.call(url, directory, name);
            &&& call.len() == 6 + hls.arguments@.len()
            &&& call[0] == url.0
            &&& call[1] == "--save-dir"@
            &&& call[2] == directory
            &&& call[3] == "--save-name"@
            &&& call[4] == name
            &&& call[5] == "--auto-select"@
            &&& forall|i: int|
                0 <= i < hls.arguments@.len() ==> call[6 + i] == (#[trigger] hls.arguments@[i])@
        }),
{
    let call = hls.call(url, directory, name);
    assert forall|i: int| 0 <= i < hls.arguments@.len() implies call[6 + i] == (
    #[trigger] hls.arguments@[i])@ by {
        assert(texts(hls.arguments@)[i] == hls.arguments@[i]@);
    }
}

/// The arguments of yt-dlp are the link, the directory, the template for the name and the fixed
/// options, and then all configured arguments, in order.
pub proof fn law_youtube_arguments(
    youtube: YoutubeDownloader,
    url: UrlParts,
    directory: Seq<char>,
    name: Seq<char>,
)
    ensures
        ({
            let call = youtube.call(url, directory, name);
            &&& call.len() == 7 + youtube.arguments@.len()
            &&& call[0] == url.0
            &&& call[1] == "--no-playlist"@
            &&& call[2] == "--no-progress"@
            &&& call[3] == "--paths"@
            &&& call[4] == directory
            &&& call[5] == "--output"@
            &&& call[6] == doubled_percent(name) + ".%(ext)s"@
            &&& forall|i: int|
                0 <= i < youtube.arguments@.len() ==> call[7 + i] == (
                #[trigger] youtube.arguments@[i])@
        }),
        output_template(name) == doubled_percent(name) + ".%(ext)s"@,
{
    let call = youtube.call(url, directory, name);
    assert forall|i: int| 0 <= i < youtube.arguments@.len() implies call[7 + i] == (
    #[trigger] youtube.arguments@[i])@ by {
        assert(texts(youtube.arguments@)[i] == youtube.arguments@[i]@);
    }
}

/// In a template each `%` is doubled, and each other character stands for itself.
pub proof fn law_percent_is_doubled(c: char, first: Seq<char>, second: Seq<char>)
    ensures
        doubled_percent(Seq::empty()) == Seq::<char>::empty(),
        doubled_percent(seq!['%']) == seq!['%', '%'],
        c != '%' ==> doubled_percent(seq![c]) == seq![c],
        doubled_percent(first + second) == doubled_percent(first) + doubled_percent(second),
    decreases first.len(),
{
    let nothing = Seq::<char>::empty();
    assert(doubled_percent(nothing) == nothing);
    assert(seq!['%'].skip(1) =~= nothing);
    assert(seq![c].skip(1) =~= nothing);
    assert(seq!['%', '%'] + nothing =~= seq!['%', '%']);
    assert(seq![c] + nothing =~= seq![c]);
    let all = first + second;
    if first.len() == 0 {
        assert(all =~= second);
        assert(nothing + doubled_percent(second) =~= doubled_percent(second));
    } else {
        assert(all[0] == first[0]);
        assert(all.skip(1) =~= first.skip(1) + second);
        law_percent_is_doubled(c, first.skip(1), second);
        assert(doubled_percent(all) =~= doubled_percent(first) + doubled_percent(second));
    }
}

/// A host is in a domain if and only if it is the domain, or something, a dot, and the domain.
pub proof fn law_domain_is_host_or_subdomain(host: Seq<char>, domain: Seq<char>)
    ensures
        in_domain(host, domain) <==> host == domain || exists|sub: Seq<char>|
            host == #[trigger] (sub + (seq!['.'] + domain)),
{
    law_beginning_and_end(host, seq!['.'] + domain);
}

/// A link is served if and only if its host is in one of the configured domains, all in lower case:
/// without a host or without domains it is not, and two lists of domains serve what one of them
/// serves.
pub proof fn law_hosts_are_served(
    youtube: YoutubeDownloader,
    first: YoutubeDownloader,
    second: YoutubeDownloader,
    host: Seq<char>,
    text: Seq<char>,
    path: Seq<char>,
)
    requires
        youtube.hosts@ == first.hosts@ + second.hosts@,
    ensures
        !youtube.serves((text, None, path)),
        youtube.hosts@.len() == 0 ==> !youtube.serves((text, Some(host), path)),
        youtube.hosts@.len() == 1 ==> (youtube.serves((text, Some(host), path)) <==> in_domain(
            lowercase(host),
            lowercase(youtube.hosts@[0]@),
        )),
        youtube.serves((text, Some(host), path)) <==> first.serves((text, Some(host), path))
            || second.serves((text, Some(host), path)),
        youtube.hosts@.len() == 1 ==> (youtube.serves_ascii(host) <==> in_domain(
            lower_ascii(host),
            lower_ascii(youtube.hosts@[0]@),
        )),
        youtube.serves_ascii(host) <==> first.serves_ascii(host) || second.serves_ascii(host),
        youtube.hosts@.len() == 0 ==> !youtube.serves_ascii(host),
{
    let n = first.hosts@.len() as int;
    assert forall|i: int| 0 <= i < n implies youtube.hosts@[i] == #[trigger] first.hosts@[i] by {}
    assert forall|i: int| 0 <= i < second.hosts@.len() implies youtube.hosts@[n + i]
        == #[trigger] second.hosts@[i] by {}
    if youtube.serves((text, Some(host), path)) {
        let i = choose|i: int|
            0 <= i < youtube.hosts@.len() && in_domain(
                lowercase(host),
                lowercase((#[trigger] youtube.hosts@[i])@),
            );
        if i < n {
            assert(first.hosts@[i] == youtube.hosts@[i]);
        } else {
            assert(second.hosts@[i - n] == youtube.hosts@[i]);
        }
    }
    if youtube.serves_ascii(host) {
        let i = choose|i: int|
            0 <= i < youtube.hosts@.len() && in_domain(
                lower_ascii(host),
                lower_ascii((#[trigger] youtube.hosts@[i])@),
            );
        if i < n {
            assert(first.hosts@[i] == youtube.hosts@[i]);
        } else {
            assert(second.hosts@[i - n] == youtube.hosts@[i]);
        }
    }
}

/// A link to a served host is downloaded with yt-dlp, any other playlist with N_m3u8DL-RE, each
/// with its executable and all its arguments. Any other link is not downloaded.
pub proof fn law_links_go_to_their_program(
    downloaders: Downloaders,
    url: UrlParts,
    directory: Seq<char>,
    name: Seq<char>,
)
    ensures
        downloaders.youtube.serves(url) ==> downloaders.call(url, directory, name) == Some(
            (
                downloaders.youtube.executable@,
                seq![
                    url.0,
                    "--no-playlist"@,
                    "--no-progress"@,
                    "--paths"@,
                    directory,
                    "--output"@,
                    doubled_percent(name) + ".%(ext)s"@,
                ] + texts(downloaders.youtube.arguments@),
            ),
        ),
        !downloaders.youtube.serves(url) && is_playlist(url) ==> downloaders.call(
            url,
            directory,
            name,
        ) == Some(
            (
                downloaders.hls.executable@,
                seq![
                    url.0,
                    "--save-dir"@,
                    directory,
                    "--save-name"@,
                    name,
                    "--auto-select"@,
                ] + texts(downloaders.hls.arguments@),
            ),
        ),
        !downloaders.youtube.serves(url) && !is_playlist(url) ==> downloaders.call(
            url,
            directory,
            name,
        ) is None,
{
}

/// What is known of a command is its program and all its arguments.
pub proof fn law_command_is_program_and_arguments(executable: &str, arguments: Vec<String>)
    ensures
        command_parts(Some((executable, arguments))) == Some((executable@, texts(arguments@))),
        command_parts(None) is None,
{
}

/// A second is a billion billionths of a second, and spans of seconds add up.
pub proof fn law_seconds_add_up(a: int, b: int)
    ensures
        seconds(0) == 0,
        seconds(1) == 1_000_000_000,
        seconds(a + b) == seconds(a) + seconds(b),
{
}

} // verus!
