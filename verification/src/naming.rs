//! Output file names rendered from a template.

use vstd::prelude::*;
use crate::model::ResolvedTags;
use crate::text::{
    ascii_lowercase, ascii_lowercase_chars, chars_of, ends_with, ends_with_chars, replace_all,
    replace_chars, string_of,
};

verus! {

/// Characters `sanitize_filename::sanitize` always removes: path
/// separators, the characters Windows reserves, and control characters.
pub open spec fn unsafe_file_name_char(c: char) -> bool {
    let u = c as u32;
    ||| c == '/'
    ||| c == '?'
    ||| c == '<'
    ||| c == '>'
    ||| c == '\\'
    ||| c == ':'
    ||| c == '*'
    ||| c == '|'
    ||| c == '"'
    ||| u <= 0x1f
    ||| 0x80 <= u <= 0x9f
}

/// `a` is `b` with some of its characters deleted.
pub open spec fn is_subsequence(a: Seq<char>, b: Seq<char>) -> bool
    decreases b.len(),
{
    if a.len() == 0 {
        true
    } else if b.len() == 0 {
        false
    } else if a.last() == b.last() {
        is_subsequence(a.drop_last(), b.drop_last())
    } else {
        is_subsequence(a, b.drop_last())
    }
}

/// What `sanitize_filename::sanitize` makes of a name, for the platform it
/// was built for.
pub uninterp spec fn sanitized(name: Seq<char>) -> Seq<char>;

/// `sanitize_filename::sanitize` with its default options. As its source
/// shows, every step only deletes characters (the default replacement is
/// empty, and truncation keeps a prefix): the illegal and control
/// characters are removed and nothing adds them back. Which other
/// characters go (names made only of dots, everything past 255 bytes, and
/// on Windows reserved names and trailing dots and spaces) depends on the
/// platform it was built for; the result is named, as a function of the
/// name for that platform, but not restated.
#[verifier::external_body]
pub(crate) fn sanitize(name: &str) -> (r: String)
    ensures
        r@ == sanitized(name@),
        is_subsequence(r@, name@),
        forall|i: int| 0 <= i < r@.len() ==> !unsafe_file_name_char(#[trigger] r@[i]),
{
    sanitize_filename::sanitize(name)
}

/// The template with `{artist}`, `{title}` and `{album}` filled in (a
/// missing album as nothing).
pub open spec fn filled_template(template: Seq<char>, tags: ResolvedTags) -> Seq<char> {
    replace_all(
        replace_all(replace_all(template, "{artist}"@, tags.artist@), "{title}"@, tags.title@),
        "{album}"@,
        match tags.album {
            Some(a) => a@,
            None => Seq::<char>::empty(),
        },
    )
}

/// A file name with ".mp3" appended unless it already ends so (in any
/// ASCII case).
pub open spec fn mp3_named(name: Seq<char>) -> Seq<char> {
    if ends_with(ascii_lowercase(name), ".mp3"@) {
        name
    } else {
        name + ".mp3"@
    }
}

/// A text free of the characters a sanitized file name never holds.
pub open spec fn safe_file_name(name: Seq<char>) -> bool {
    forall|i: int| 0 <= i < name.len() ==> !unsafe_file_name_char(#[trigger] name[i])
}

/// Gives a file name the ".mp3" extension unless it already has it.
pub fn with_mp3_extension(name: String) -> (r: String)
    ensures
        r@ == mp3_named(name@),
        ends_with(ascii_lowercase(r@), ".mp3"@),
{
    let mut name = name;
    let nc = chars_of(name.as_str());
    let lower = ascii_lowercase_chars(&nc);
    let ext = chars_of(".mp3");
    if !ends_with_chars(&lower, &ext) {
        let ghost before = name@;
        name.append(".mp3");
        proof {
            reveal_strlit(".mp3");
            let l = ascii_lowercase(name@);
            assert(l =~= ascii_lowercase(before) + ascii_lowercase(".mp3"@));
            assert(ascii_lowercase(".mp3"@) =~= ".mp3"@);
            assert(l.subrange(l.len() - 4, l.len() as int) =~= ".mp3"@);
        }
    }
    name
}

/// Renders an output file name from a template such as
/// `{artist} - {title}.mp3`: `{artist}`, `{title}` and `{album}` are filled
/// in (a missing album as nothing), the result is sanitized when asked, and
/// ".mp3" is appended unless it already ends so.
pub fn render_filename(template: &str, tags: &ResolvedTags, sanitize_output: bool) -> (r: String)
    ensures
        !sanitize_output ==> r@ == mp3_named(filled_template(template@, *tags)),
        sanitize_output ==> r@ == mp3_named(sanitized(filled_template(template@, *tags))),
        sanitize_output ==> is_subsequence(
            sanitized(filled_template(template@, *tags)),
            filled_template(template@, *tags),
        ) && safe_file_name(sanitized(filled_template(template@, *tags))),
        ends_with(ascii_lowercase(r@), ".mp3"@),
{
    let t = chars_of(template);
    let pa = chars_of("{artist}");
    let pt = chars_of("{title}");
    let pb = chars_of("{album}");
    proof {
        reveal_strlit("{artist}");
        reveal_strlit("{title}");
        reveal_strlit("{album}");
    }
    let artist = chars_of(tags.artist.as_str());
    let title = chars_of(tags.title.as_str());
    let album: Vec<char> = match &tags.album {
        Some(a) => chars_of(a.as_str()),
        None => Vec::new(),
    };
    let n1 = replace_chars(&t, &pa, &artist);
    let n2 = replace_chars(&n1, &pt, &title);
    let n3 = replace_chars(&n2, &pb, &album);
    let filled = string_of(&n3);
    if sanitize_output {
        let clean = sanitize(filled.as_str());
        with_mp3_extension(clean)
    } else {
        with_mp3_extension(filled)
    }
}

} // verus!
