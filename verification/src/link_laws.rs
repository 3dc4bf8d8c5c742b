//! What holds of all links and of the file extensions that they have.
use vstd::prelude::*;

use crate::text::{lacks, optional_text, pieces, trimmed};
use crate::text_laws::{law_beginning_and_end, law_first_occurrence_is_found};
use crate::unicode::lowercase;
use crate::url::{
    bare_type, extension_of, image_extension, image_file_extension, last_dot, last_name,
    lemma_last_dot, name_extension, path_extension, Url,
};

verus! {

/// What is known of a link is its text, its host and its path.
pub proof fn law_link_is_its_text_host_and_path(url: Url)
    ensures
        url.parts().0 == url.text@,
        url.parts().1 == optional_text(url.host),
        url.parts().2 == url.path@,
{
}

/// The name of a path is its last part, where empty parts and `.` at its end do not count. A path
/// that ends with `..`, or has no other parts, has no name.
pub proof fn law_name_is_the_last_part(
    front: Seq<Seq<char>>,
    name: Seq<char>,
    skipped: Seq<Seq<char>>,
)
    requires
        forall|i: int|
            0 <= i < skipped.len() ==> (#[trigger] skipped[i]).len() == 0 || skipped[i] == seq![
                '.',
            ],
        name.len() > 0,
        name != seq!['.'],
    ensures
        last_name(skipped) is None,
        name == seq!['.', '.'] ==> last_name(front + seq![name] + skipped) is None,
        name != seq!['.', '.'] ==> last_name(front + seq![name] + skipped) == Some(name),
    decreases skipped.len(),
{
    let all = front + seq![name] + skipped;
    if skipped.len() > 0 {
        let shorter = skipped.drop_last();
        assert(all.last() == skipped[skipped.len() - 1]);
        assert(all.drop_last() =~= front + seq![name] + shorter);
        assert forall|i: int| 0 <= i < shorter.len() implies (#[trigger] shorter[i]).len() == 0
            || shorter[i] == seq!['.'] by {
            assert(shorter[i] == skipped[i]);
        }
        law_name_is_the_last_part(front, name, shorter);
    } else {
        assert(all.last() == name);
    }
}

/// The extension of a name is what follows its last dot, unless that dot is its first character. A
/// name without a dot has no extension.
pub proof fn law_extension_follows_the_last_dot(stem: Seq<char>, extension: Seq<char>)
    requires
        lacks(extension, '.'),
    ensures
        stem.len() > 0 ==> name_extension(stem + seq!['.'] + extension) == Some(extension),
        name_extension(seq!['.'] + extension) is None,
        name_extension(extension) is None,
{
    lemma_last_dot(stem, extension);
    lemma_last_dot(Seq::empty(), extension);
    assert(Seq::<char>::empty() + seq!['.'] + extension =~= seq!['.'] + extension);
    lemma_no_dot(extension);
    assert((stem + seq!['.'] + extension).skip(stem.len() as int + 1) =~= extension);
}

proof fn lemma_no_dot(name: Seq<char>)
    requires
        lacks(name, '.'),
    ensures
        last_dot(name) == -1,
    decreases name.len(),
{
    if name.len() > 0 {
        assert(name.last() == name[name.len() - 1]);
        lemma_no_dot(name.drop_last());
    }
}

/// The extension of a path is that of its name, and the extension of a link is that of its path, in
/// lower case.
pub proof fn law_extension_is_that_of_the_name(
    path: Seq<char>,
    front: Seq<Seq<char>>,
    name: Seq<char>,
    skipped: Seq<Seq<char>>,
)
    requires
        pieces(path, '/') == front + seq![name] + skipped,
        forall|i: int|
            0 <= i < skipped.len() ==> (#[trigger] skipped[i]).len() == 0 || skipped[i] == seq![
                '.',
            ],
        name.len() > 0,
        name != seq!['.'],
        name != seq!['.', '.'],
    ensures
        path_extension(path) == name_extension(name),
        extension_of(path) is Some <==> name_extension(name) is Some,
        extension_of(path) is Some ==> extension_of(path) == Some(
            lowercase(name_extension(name)->0),
        ),
{
    law_name_is_the_last_part(front, name, skipped);
}

/// A path without a name has no extension.
pub proof fn law_no_name_no_extension(
    path: Seq<char>,
    front: Seq<Seq<char>>,
    skipped: Seq<Seq<char>>,
)
    requires
        pieces(path, '/') == skipped || pieces(path, '/') == front + seq![seq!['.', '.']] + skipped,
        forall|i: int|
            0 <= i < skipped.len() ==> (#[trigger] skipped[i]).len() == 0 || skipped[i] == seq![
                '.',
            ],
    ensures
        path_extension(path) is None,
        extension_of(path) is None,
{
    law_name_is_the_last_part(front, seq!['.', '.'], skipped);
}

/// The extension of an image type is what follows `image/`, but `jpg` for `jpeg` and `pjpeg`, `svg`
/// for `svg+xml`, and `ico` for the two types of icons.
pub proof fn law_image_types_have_extensions(subtype: Seq<char>)
    ensures
        image_extension("image/"@ + subtype) is Some <==> subtype.len() > 0,
        subtype == "jpeg"@ ==> image_extension("image/"@ + subtype) == Some("jpg"@),
        subtype == "pjpeg"@ ==> image_extension("image/"@ + subtype) == Some("jpg"@),
        subtype == "svg+xml"@ ==> image_extension("image/"@ + subtype) == Some("svg"@),
        subtype == "x-icon"@ ==> image_extension("image/"@ + subtype) == Some("ico"@),
        subtype == "vnd.microsoft.icon"@ ==> image_extension("image/"@ + subtype) == Some("ico"@),
        subtype.len() > 0 && subtype != "jpeg"@ && subtype != "pjpeg"@ && subtype != "svg+xml"@
            && subtype != "x-icon"@ && subtype != "vnd.microsoft.icon"@ ==> image_extension(
            "image/"@ + subtype,
        ) == Some(subtype),
{
    reveal_strlit("image/");
    reveal_strlit("jpeg");
    reveal_strlit("pjpeg");
    reveal_strlit("svg+xml");
    reveal_strlit("x-icon");
    reveal_strlit("vnd.microsoft.icon");
    let whole = "image/"@ + subtype;
    assert(whole.subrange(0, 6) =~= "image/"@);
    assert(whole.skip(6) =~= subtype);
    assert("jpeg"@[0] == 'j' && "pjpeg"@[0] == 'p' && "svg+xml"@[0] == 's' && "x-icon"@[0] == 'x'
        && "vnd.microsoft.icon"@[0] == 'v');
}

/// A type that does not begin with `image/` has no extension.
pub proof fn law_other_types_have_no_extension(mime_type: Seq<char>)
    requires
        forall|subtype: Seq<char>| mime_type != #[trigger] ("image/"@ + subtype),
    ensures
        image_extension(mime_type) is None,
{
    law_beginning_and_end(mime_type, "image/"@);
}

/// The type in a content type is what stands in front of the first `;`, without whitespace around
/// it.
pub proof fn law_type_stands_in_front_of_parameters(front: Seq<char>, parameters: Seq<char>)
    requires
        lacks(front, ';'),
    ensures
        bare_type(front) == trimmed(front),
        bare_type(front + seq![';'] + parameters) == trimmed(front),
{
    law_first_occurrence_is_found(front, ';', parameters);
}

/// The extension of an image is that of its link. That of its content type counts only where the
/// link has none, and there is none where neither has one.
pub proof fn law_extension_of_the_link_comes_first(url: Url, content_type: Seq<char>)
    ensures
        extension_of(url.path@) is Some ==> image_file_extension(url, Some(content_type))
            == extension_of(url.path@) && image_file_extension(url, None) == extension_of(
            url.path@,
        ),
        extension_of(url.path@) is None ==> image_file_extension(url, Some(content_type))
            == image_extension(lowercase(bare_type(content_type))),
        extension_of(url.path@) is None ==> image_file_extension(url, None) is None,
{
}

} // verus!
