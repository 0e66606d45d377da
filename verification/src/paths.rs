//! File-system paths, held as text. The path arithmetic itself is std's
//! (`std::path`), reached through the wrappers below; the rules built on it
//! are verified here.

use vstd::prelude::*;
use crate::text::{opt_text, chars_of, chars_eq_str, starts_with, string_of, ascii_lowercase,
    ascii_lowercase_chars, starts_with_chars};

verus! {

/// `base` joined with `rest` by `Path::join`, for the platform built for.
pub uninterp spec fn joined_path(base: Seq<char>, rest: Seq<char>) -> Seq<char>;

/// The final component of a path (`Path::file_name`), if it has one.
pub uninterp spec fn file_name_of(path: Seq<char>) -> Option<Seq<char>>;

/// The extension of a path's file name (`Path::extension`), if it has one.
pub uninterp spec fn extension_of(path: Seq<char>) -> Option<Seq<char>>;

/// A path with its extension set (`PathBuf::set_extension`).
pub uninterp spec fn with_extension(path: Seq<char>, extension: Seq<char>) -> Seq<char>;

/// Whether two paths are equal component by component (`Path == Path`).
pub uninterp spec fn same_path(a: Seq<char>, b: Seq<char>) -> bool;

/// Whether `path` begins with the whole components of `base`
/// (`Path::starts_with`).
pub uninterp spec fn path_has_prefix(path: Seq<char>, base: Seq<char>) -> bool;

/// The parent of a path (`Path::parent`), if it has one.
pub uninterp spec fn parent_of(path: Seq<char>) -> Option<Seq<char>>;

/// What remains of `path` after its leading components `base`
/// (`Path::strip_prefix`), if `base` is a prefix of it.
pub uninterp spec fn stripped_of(path: Seq<char>, base: Seq<char>) -> Option<Seq<char>>;

/// Whether `a` comes before `b` in std's order of paths (`Path < Path`,
/// component by component).
pub uninterp spec fn path_precedes(a: Seq<char>, b: Seq<char>) -> bool;

/// `Path < Path`. As `PartialOrd` requires of every implementation, `<` is
/// asymmetric; beyond that the result is only claimed to be a function of
/// the two paths.
#[verifier::external_body]
pub(crate) fn path_lt(a: &str, b: &str) -> (r: bool)
    ensures
        r == path_precedes(a@, b@),
        r ==> !path_precedes(b@, a@),
{
    std::path::Path::new(a) < std::path::Path::new(b)
}

/// `Path::join`. Claims only that the result is a function of the two
/// texts; the platform's separator rules are not restated.
#[verifier::external_body]
pub(crate) fn path_join(base: &str, rest: &str) -> (r: String)
    ensures
        r@ == joined_path(base@, rest@),
{
    std::path::Path::new(base).join(rest).to_string_lossy().into_owned()
}

/// `Path::file_name`, as text. Claims only that the result is a function
/// of the path.
#[verifier::external_body]
pub(crate) fn path_file_name(path: &str) -> (r: Option<String>)
    ensures
        r matches Some(n) ==> file_name_of(path@) == Some(n@),
        r is None ==> file_name_of(path@) is None,
{
    match std::path::Path::new(path).file_name() {
        Some(name) => Some(name.to_string_lossy().into_owned()),
        None => None,
    }
}

/// `Path::extension`, as text. Claims only that the result is a function
/// of the path.
#[verifier::external_body]
pub(crate) fn path_extension(path: &str) -> (r: Option<String>)
    ensures
        r matches Some(e) ==> extension_of(path@) == Some(e@),
        r is None ==> extension_of(path@) is None,
{
    match std::path::Path::new(path).extension() {
        Some(ext) => Some(ext.to_string_lossy().into_owned()),
        None => None,
    }
}

/// `PathBuf::set_extension`. As its documentation says, a path without a
/// file name is left as it is; otherwise the result is only claimed to be
/// a function of the path and the extension. Recent std panics on an
/// extension holding a path separator, so none is allowed.
#[verifier::external_body]
pub(crate) fn path_set_extension(path: &str, extension: &str) -> (r: String)
    requires
        forall|i: int| 0 <= i < extension@.len() ==> #[trigger] extension@[i] != '/' && extension@[i] != '\\',
    ensures
        r@ == with_extension(path@, extension@),
        file_name_of(path@) is None ==> r@ == path@,
{
    let mut buf = std::path::PathBuf::from(path);
    buf.set_extension(extension);
    buf.to_string_lossy().into_owned()
}

/// `Path == Path`. Equality is reflexive (`Eq`); beyond that the result is
/// only claimed to be a function of the two paths.
#[verifier::external_body]
pub(crate) fn paths_equal(a: &str, b: &str) -> (r: bool)
    ensures
        r == same_path(a@, b@),
        a@ == b@ ==> r,
{
    std::path::Path::new(a) == std::path::Path::new(b)
}

/// `Path::starts_with`. A path begins with itself; beyond that the result
/// is only claimed to be a function of the two paths.
#[verifier::external_body]
pub(crate) fn path_starts_with(path: &str, base: &str) -> (r: bool)
    ensures
        r == path_has_prefix(path@, base@),
        path@ == base@ ==> r,
{
    std::path::Path::new(path).starts_with(base)
}

/// `Path::parent`, as text. Claims only that the result is a function of
/// the path.
#[verifier::external_body]
pub(crate) fn path_parent(path: &str) -> (r: Option<String>)
    ensures
        r matches Some(p) ==> parent_of(path@) == Some(p@),
        r is None ==> parent_of(path@) is None,
{
    match std::path::Path::new(path).parent() {
        Some(p) => Some(p.to_string_lossy().into_owned()),
        None => None,
    }
}

/// `Path::strip_prefix`, as text. As its documentation says, it fails
/// exactly when `base` is not a prefix of `path` (`Path::starts_with` is
/// false); what remains is only claimed to be a function of the two paths.
#[verifier::external_body]
pub(crate) fn path_strip_prefix(path: &str, base: &str) -> (r: Option<String>)
    ensures
        r matches Some(x) ==> stripped_of(path@, base@) == Some(x@),
        r is None ==> stripped_of(path@, base@) is None,
        r is Some <==> path_has_prefix(path@, base@),
{
    match std::path::Path::new(path).strip_prefix(base) {
        Ok(rest) => Some(rest.to_string_lossy().into_owned()),
        Err(_) => None,
    }
}

/// How a path is shown in a report about the folder `input`: relative to
/// the folder that contains `input`, so that the input folder's own name
/// stays in front, or as it is when it lies elsewhere.
pub open spec fn shown_path(path: Seq<char>, input: Seq<char>) -> Seq<char> {
    match parent_of(input) {
        Some(base) => match stripped_of(path, base) {
            Some(rel) => rel,
            None => path,
        },
        None => path,
    }
}

/// The folder that report paths are shown relative to.
pub fn report_base(input: &str) -> (r: Option<String>)
    ensures
        opt_text(r) == parent_of(input@),
{
    path_parent(input)
}

/// Shows a path relative to `base`, the folder returned by `report_base`
/// for the report's input folder.
pub fn show_path(path: &str, base: &Option<String>) -> (r: String)
    ensures
        forall|input: Seq<char>|
            parent_of(input) == opt_text(*base) ==> r@ == #[trigger] shown_path(path@, input),
{
    match base {
        Some(b) => match path_strip_prefix(path, b.as_str()) {
            Some(rel) => rel,
            None => path.to_string(),
        },
        None => path.to_string(),
    }
}

/// Where a file lands in the output directory: the output directory
/// joined with the file's name (nothing when it has none).
pub open spec fn destination_path_of(output: Seq<char>, source: Seq<char>) -> Seq<char> {
    match file_name_of(source) {
        Some(name) => joined_path(output, name),
        None => joined_path(output, Seq::<char>::empty()),
    }
}

/// The destination of `source` inside the output directory `output`.
pub fn destination_path(output: &str, source: &str) -> (r: String)
    ensures
        r@ == destination_path_of(output@, source@),
{
    let name = path_file_name(source);
    match name {
        Some(n) => {
            let r = path_join(output, n.as_str());
            assert(file_name_of(source@) == Some(n@));
            r
        },
        None => {
            proof {
                reveal_strlit("");
            }
            let r = path_join(output, "");
            assert(""@ == Seq::<char>::empty());
            r
        },
    }
}

/// The audit sidecar that belongs to an input file: the same path with the
/// extension `tunetagger.json`.
pub fn sidecar_path_for(input: &str) -> (r: String)
    ensures
        r@ == with_extension(input@, "tunetagger.json"@),
{
    proof {
        reveal_strlit("tunetagger.json");
    }
    path_set_extension(input, "tunetagger.json")
}

/// A path names an MP3 file: its extension is "mp3" in any ASCII case.
pub open spec fn is_mp3_path(path: Seq<char>) -> bool {
    match extension_of(path) {
        Some(e) => ascii_lowercase(e) == "mp3"@,
        None => false,
    }
}

/// Whether `path` names an MP3 file.
pub fn is_mp3(path: &str) -> (r: bool)
    ensures
        r == is_mp3_path(path@),
{
    match path_extension(path) {
        Some(e) => {
            let c = chars_of(e.as_str());
            let lower = ascii_lowercase_chars(&c);
            chars_eq_str(&lower, "mp3")
        },
        None => false,
    }
}

/// A typed path with a leading `~` expanded against the home directory:
/// `~` alone is the home directory, `~/rest` is `rest` under it, and every
/// other path (or any path when no home directory is known) is unchanged.
pub open spec fn expand_tilde_of(value: Seq<char>, home: Option<Seq<char>>) -> Seq<char> {
    if value == "~"@ {
        match home {
            Some(h) => h,
            None => value,
        }
    } else if starts_with(value, "~/"@) && home is Some {
        joined_path(home->0, value.skip(2))
    } else {
        value
    }
}

/// Expands a leading `~` in a typed path.
pub fn expand_tilde(value: &str, home: &Option<String>) -> (r: String)
    ensures
        r@ == expand_tilde_of(value@, opt_text(*home)),
{
    let v = chars_of(value);
    if chars_eq_str(&v, "~") {
        return match home {
            Some(h) => h.clone(),
            None => string_of(&v),
        };
    }
    let prefix = chars_of("~/");
    proof {
        reveal_strlit("~/");
    }
    if starts_with_chars(&v, &prefix) {
        if let Some(h) = home {
            let mut rest: Vec<char> = Vec::new();
            let mut i: usize = 2;
            while i < v.len()
                invariant
                    2 <= i <= v.len(),
                    rest@ == v@.subrange(2, i as int),
                decreases v.len() - i,
            {
                rest.push(v[i]);
                i = i + 1;
            }
            assert(rest@ =~= v@.skip(2));
            let rest_s = string_of(&rest);
            return path_join(h.as_str(), rest_s.as_str());
        }
    }
    string_of(&v)
}

} // verus!
