//! Links, and the file extensions that they and their content have.
use vstd::prelude::*;
use vstd::string::StringExecFns;

use crate::text::{
    begins, chars_of, find, lacks, lemma_find, lemma_trimmed_end, lemma_trimmed_start, lower_ascii,
    optional_text, pieces, same_text, split, starts_with, take_until, text_of, texts, trim, trimmed,
    trimmed_start, until,
};
use crate::unicode::{all_ascii, lowercase};

verus! {

/// The whole text, the host and the path of the link that a text is, as `reqwest::Url` reads it,
/// or nothing where the text is no absolute link.
pub uninterp spec fn parsed_url(text: Seq<char>) -> Option<
    (Seq<char>, Option<Seq<char>>, Seq<char>),
>;

/// An absolute link.
#[derive(Debug, PartialEq)]
pub struct Url {
    /// The whole link.
    pub text: String,
    /// The host, where the link has one.
    pub host: Option<String>,
    /// The path, without the query and the fragment.
    pub path: String,
}

/// `reqwest::Url::parse`, with what `as_str`, `host_str` and `path` give of the link. All of it
/// is a function of the text.
#[verifier::external_body]
fn url_parts(text: &str) -> (parts: Option<(String, Option<String>, String)>)
    ensures
        match parts {
            Some((whole, host, path)) => parsed_url(text@) == Some(
                (whole@, optional_text(host), path@),
            ),
            None => parsed_url(text@) is None,
        },
{
    match reqwest::Url::parse(text) {
        Ok(url) => Some((
            url.as_str().to_string(),
            url.host_str().map(str::to_string),
            url.path().to_string(),
        )),
        Err(_) => None,
    }
}

impl Url {
    /// The whole text, the host and the path.
    pub open spec fn parts(self) -> (Seq<char>, Option<Seq<char>>, Seq<char>) {
        (self.text@, optional_text(self.host), self.path@)
    }

    /// The link that `text` is, if it is one.
    pub fn parse(text: &str) -> (url: Option<Url>)
        ensures
            url is Some <==> parsed_url(text@) is Some,
            url matches Some(url) ==> parsed_url(text@) == Some(url.parts()),
    {
        match url_parts(text) {
            Some((whole, host, path)) => Some(Url { text: whole, host, path }),
            None => None,
        }
    }
}

impl Clone for Url {
    /// The same link.
    fn clone(&self) -> (url: Self)
        ensures
            url == *self,
    {
        let host = match &self.host {
            Some(host) => Some(host.clone()),
            None => None,
        };
        Url { text: self.text.clone(), host, path: self.path.clone() }
    }
}

/// The last name among the parts of a path: empty parts and `.` do not count, and a path that
/// ends with `..` has none.
pub open spec fn last_name(parts: Seq<Seq<char>>) -> Option<Seq<char>>
    decreases parts.len(),
{
    if parts.len() == 0 {
        None
    } else if parts.last().len() == 0 || parts.last() == seq!['.'] {
        last_name(parts.drop_last())
    } else if parts.last() == seq!['.', '.'] {
        None
    } else {
        Some(parts.last())
    }
}

/// The position of the last dot, or -1 where there is none.
pub open spec fn last_dot(name: Seq<char>) -> int
    decreases name.len(),
{
    if name.len() == 0 {
        -1
    } else if name.last() == '.' {
        name.len() - 1
    } else {
        last_dot(name.drop_last())
    }
}

/// What follows the last dot of a file name, unless that dot is its first character.
pub open spec fn name_extension(name: Seq<char>) -> Option<Seq<char>> {
    if last_dot(name) <= 0 {
        None
    } else {
        Some(name.skip(last_dot(name) + 1))
    }
}

/// The extension of the file that a path ends with.
pub open spec fn path_extension(path: Seq<char>) -> Option<Seq<char>> {
    match last_name(pieces(path, '/')) {
        Some(name) => name_extension(name),
        None => None,
    }
}

/// The extension of the file that a link leads to, in lower case.
pub open spec fn extension_of(path: Seq<char>) -> Option<Seq<char>> {
    match path_extension(path) {
        Some(extension) => Some(lowercase(extension)),
        None => None,
    }
}

/// The file extension for an image type without parameters, in lower case.
pub open spec fn image_extension(mime_type: Seq<char>) -> Option<Seq<char>> {
    let subtype = mime_type.skip(6);
    if !begins(mime_type, "image/"@) || subtype.len() == 0 {
        None
    } else if subtype == "jpeg"@ || subtype == "pjpeg"@ {
        Some("jpg"@)
    } else if subtype == "svg+xml"@ {
        Some("svg"@)
    } else if subtype == "x-icon"@ || subtype == "vnd.microsoft.icon"@ {
        Some("ico"@)
    } else {
        Some(subtype)
    }
}

/// The type that a content type header names, without its parameters.
pub open spec fn bare_type(content_type: Seq<char>) -> Seq<char> {
    trimmed(until(content_type, ';'))
}

/// The position of the last dot in the name.
fn find_last_dot(name: &Vec<char>) -> (position: Option<usize>)
    ensures
        match position {
            Some(n) => n == last_dot(name@) && n < name@.len(),
            None => last_dot(name@) == -1,
        },
{
    let mut n: usize = name.len();
    assert(name@.take(n as int) =~= name@);
    while 0 < n
        invariant
            n <= name@.len(),
            last_dot(name@) == last_dot(name@.take(n as int)),
        decreases n,
    {
        if name[n - 1] == '.' {
            return Some(n - 1);
        }
        assert(name@.take(n as int).drop_last() =~= name@.take(n - 1));
        n -= 1;
    }
    None
}

/// The extension of the file that `path` ends with: what follows the last dot of its name, unless
/// the name has no other dot and begins with it.
pub fn file_extension(path: &str) -> (extension: Option<String>)
    ensures
        optional_text(extension) == path_extension(path@),
{
    let parts = split(path, '/');
    let mut n: usize = parts.len();
    assert(texts(parts@).take(n as int) =~= texts(parts@));
    while 0 < n
        invariant
            n <= parts@.len(),
            texts(parts@) == pieces(path@, '/'),
            last_name(texts(parts@).take(n as int)) == last_name(pieces(path@, '/')),
        decreases n,
    {
        let part = chars_of(parts[n - 1].as_str());
        let ghost list = texts(parts@).take(n as int);
        assert(list.last() == part@);
        assert(list.drop_last() =~= texts(parts@).take(n - 1));
        let here = part.len() == 1 && part[0] == '.';
        let up = part.len() == 2 && part[0] == '.' && part[1] == '.';
        assert(here <==> part@ =~= seq!['.']);
        assert(up <==> part@ =~= seq!['.', '.']);
        if part.len() == 0 || here {
            n -= 1;
        } else if up {
            return None;
        } else {
            return match find_last_dot(&part) {
                Some(dot) if dot > 0 => {
                    assert(part@.subrange(dot + 1, part@.len() as int) =~= part@.skip(dot + 1));
                    Some(text_of(&part, dot + 1, part.len()))
                },
                _ => None,
            };
        }
    }
    None
}

/// The extension of the file that the link leads to, in lower case.
pub fn url_extension(url: &Url) -> (extension: Option<String>)
    ensures
        optional_text(extension) == extension_of(url.path@),
        match path_extension(url.path@) {
            Some(plain) => all_ascii(plain) ==> optional_text(extension) == Some(
                lower_ascii(plain),
            ),
            None => extension is None,
        },
{
    match file_extension(url.path.as_str()) {
        Some(extension) => Some(extension.as_str().to_lowercase()),
        None => None,
    }
}

/// The file extension for an image type without parameters, in lower case.
pub fn extension_of_image_type(mime_type: &str) -> (extension: Option<String>)
    ensures
        optional_text(extension) == image_extension(mime_type@),
{
    proof {
        reveal_strlit("image/");
    }
    if !starts_with(mime_type, "image/") {
        return None;
    }
    let chars = chars_of(mime_type);
    let subtype = text_of(&chars, 6, chars.len());
    assert(subtype@ =~= mime_type@.skip(6));
    let kind = subtype.as_str();
    if kind.is_empty() {
        None
    } else if same_text(kind, "jpeg") || same_text(kind, "pjpeg") {
        Some("jpg".to_string())
    } else if same_text(kind, "svg+xml") {
        Some("svg".to_string())
    } else if same_text(kind, "x-icon") || same_text(kind, "vnd.microsoft.icon") {
        Some("ico".to_string())
    } else {
        Some(subtype)
    }
}

/// The file extension for the content type of an image.
pub fn extension_from_content_type(content_type: &str) -> (extension: Option<String>)
    ensures
        optional_text(extension) == image_extension(lowercase(bare_type(content_type@))),
        all_ascii(content_type@) ==> optional_text(extension) == image_extension(
            lower_ascii(bare_type(content_type@)),
        ),
{
    proof {
        if all_ascii(content_type@) {
            lemma_bare_type_is_ascii(content_type@);
        }
    }
    let mime_type = trim(take_until(content_type, ';').as_str()).as_str().to_lowercase();
    extension_of_image_type(mime_type.as_str())
}

proof fn lemma_bare_type_is_ascii(content_type: Seq<char>)
    requires
        all_ascii(content_type),
    ensures
        all_ascii(bare_type(content_type)),
{
    let front = until(content_type, ';');
    lemma_find(content_type, ';');
    lemma_trimmed_start(front);
    let middle = trimmed_start(front);
    lemma_trimmed_end(middle);
    let bare = bare_type(content_type);
    let cut = front.len() - middle.len();
    assert forall|i: int| 0 <= i < bare.len() implies (#[trigger] bare[i]) as u32 <= 0x7f by {
        assert(bare[i] == middle[i]);
        assert(middle[i] == front[cut + i]);
        assert(front[cut + i] == content_type[cut + i]);
    }
}

/// The extension for a downloaded image: that of the link, or else that of its content type.
pub open spec fn image_file_extension(url: Url, content_type: Option<Seq<char>>) -> Option<
    Seq<char>,
> {
    match (extension_of(url.path@), content_type) {
        (Some(extension), _) => Some(extension),
        (None, Some(content_type)) => image_extension(lowercase(bare_type(content_type))),
        (None, None) => None,
    }
}

/// The file name for a downloaded image: `name` with the extension of the link, or else with the
/// extension of the content type. The error says that neither has one.
pub fn image_file_name(url: &Url, content_type: Option<String>, name: &str) -> (file: Result<
    String,
    String,
>)
    ensures
        match (file, image_file_extension(*url, optional_text(content_type))) {
            (Ok(file), Some(extension)) => file@ == name@ + "."@ + extension,
            (Err(message), None) => message@ == "No file extension found for "@ + url.text@,
            _ => false,
        },
{
    let extension = match (url_extension(url), content_type) {
        (Some(extension), _) => Some(extension),
        (None, Some(content_type)) => extension_from_content_type(content_type.as_str()),
        (None, None) => None,
    };
    match extension {
        Some(extension) => Ok(name.to_string().concat(".").concat(extension.as_str())),
        None => Err("No file extension found for ".to_string().concat(url.text.as_str())),
    }
}

/// A path that ends with `/stem.extension` has that extension, where neither part holds a `/`, the
/// stem is not empty, the extension holds no dot, and the name is not `..`.
pub proof fn law_extension_of_plain_path(dir: Seq<char>, stem: Seq<char>, extension: Seq<char>)
    requires
        stem.len() > 0,
        lacks(stem, '/'),
        lacks(extension, '/'),
        lacks(extension, '.'),
        stem == seq!['.'] ==> extension.len() > 0,
    ensures
        path_extension(dir + seq!['/'] + stem + seq!['.'] + extension) == Some(extension),
{
    let name = stem + seq!['.'] + extension;
    let path = dir + seq!['/'] + stem + seq!['.'] + extension;
    assert(path =~= dir + seq!['/'] + name);
    assert(lacks(name, '/'));
    lemma_last_piece(dir, name);
    let parts = pieces(path, '/');
    assert(parts.last() == name);
    assert(name[stem.len() as int] == '.');
    assert(name != seq!['.']) by {
        assert(name.len() >= 2);
    }
    assert(name != seq!['.', '.']) by {
        if name == seq!['.', '.'] {
            assert(name.len() == 2);
            if extension.len() == 0 {
                assert(stem.len() == 1);
                assert(stem[0] == name[0]);
                assert(stem =~= seq!['.']);
            }
        }
    }
    lemma_last_dot(stem, extension);
    assert(name.skip(stem.len() as int + 1) =~= extension);
}

pub proof fn lemma_last_dot(stem: Seq<char>, extension: Seq<char>)
    requires
        lacks(extension, '.'),
    ensures
        last_dot(stem + seq!['.'] + extension) == stem.len(),
    decreases extension.len(),
{
    let name = stem + seq!['.'] + extension;
    if extension.len() > 0 {
        assert(name.last() == extension[extension.len() - 1]);
        assert(name.drop_last() =~= stem + seq!['.'] + extension.drop_last());
        lemma_last_dot(stem, extension.drop_last());
    } else {
        assert(name.last() == '.');
    }
}

proof fn lemma_find_absent(s: Seq<char>, c: char)
    requires
        lacks(s, c),
    ensures
        find(s, c) == s.len(),
{
    lemma_find(s, c);
}

/// The last part of a path is what follows its last separator.
proof fn lemma_last_piece(dir: Seq<char>, name: Seq<char>)
    requires
        lacks(name, '/'),
    ensures
        pieces(dir + seq!['/'] + name, '/').len() > 0,
        pieces(dir + seq!['/'] + name, '/').last() == name,
    decreases dir.len(),
{
    let path = dir + seq!['/'] + name;
    lemma_find(path, '/');
    let n = find(path, '/') as int;
    assert(path[dir.len() as int] == '/');
    assert(n <= dir.len());
    let rest = path.skip(n + 1);
    if n == dir.len() {
        assert(rest =~= name);
        lemma_find_absent(name, '/');
        assert(pieces(rest, '/') == seq![name]);
    } else {
        let inner = dir.skip(n + 1);
        assert(rest =~= inner + seq!['/'] + name);
        lemma_last_piece(inner, name);
    }
    let tail = pieces(rest, '/');
    let all = seq![path.take(n)] + tail;
    assert(pieces(path, '/') == all);
    assert(all[all.len() - 1] == tail[tail.len() - 1]);
}

} // verus!
