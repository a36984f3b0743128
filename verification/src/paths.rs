//! File-name parts of path strings, as `std::path::Path` reads them.
use vstd::prelude::*;

verus! {

/// What `Path::file_name` gives for a path string: its final component, `None` when
/// there is none or it is `..`. Component splitting follows the build target's path
/// rules (`/` on Unix).
pub uninterp spec fn path_file_name(p: Seq<char>) -> Option<Seq<char>>;

/// `Path::file_name` (std) on a `&str` path, as a `String`.
/// The contract names the result `path_file_name` of the path's characters; how the
/// path is split into components is not stated.
#[verifier::external_body]
pub(crate) fn file_name_of(p: &str) -> (r: Option<String>)
    ensures
        match r {
            Some(s) => path_file_name(p@) == Some(s@),
            None => path_file_name(p@) == None::<Seq<char>>,
        },
{
    std::path::Path::new(p).file_name().and_then(|s| s.to_str()).map(|s| s.to_string())
}

/// Index of the last `.` in `f`, or `-1`.
pub open spec fn last_dot(f: Seq<char>) -> int
    decreases f.len(),
{
    if f.len() == 0 {
        -1
    } else if f.last() == '.' {
        f.len() - 1
    } else {
        last_dot(f.drop_last())
    }
}

/// Stem of a file name, as `Path::file_stem` documents it: the whole name when it has
/// no `.` or its only `.` is the first character, else the part before the final `.`.
pub open spec fn stem_of_name(f: Seq<char>) -> Seq<char> {
    let k = last_dot(f);
    if k <= 0 {
        f
    } else {
        f.subrange(0, k)
    }
}

/// Extension of a file name, as `Path::extension` documents it: none when the name has
/// no `.` or its only `.` is the first character, else the part after the final `.`.
pub open spec fn extension_of_name(f: Seq<char>) -> Option<Seq<char>> {
    let k = last_dot(f);
    if k <= 0 {
        None
    } else {
        Some(f.subrange(k + 1, f.len() as int))
    }
}

/// What `Path::file_stem` gives for a path string.
pub open spec fn path_file_stem(p: Seq<char>) -> Option<Seq<char>> {
    match path_file_name(p) {
        Some(f) => Some(stem_of_name(f)),
        None => None,
    }
}

/// What `Path::extension` gives for a path string.
pub open spec fn path_extension(p: Seq<char>) -> Option<Seq<char>> {
    match path_file_name(p) {
        Some(f) => extension_of_name(f),
        None => None,
    }
}

/// `Path::file_stem` (std) on a `&str` path, as a `String`.
/// Claims the documented rule: the stem of the file name (see [`stem_of_name`]), none
/// without a file name.
#[verifier::external_body]
pub(crate) fn file_stem_of(p: &str) -> (r: Option<String>)
    ensures
        match r {
            Some(s) => path_file_stem(p@) == Some(s@),
            None => path_file_stem(p@) == None::<Seq<char>>,
        },
{
    std::path::Path::new(p).file_stem().and_then(|s| s.to_str()).map(|s| s.to_string())
}

/// `Path::extension` (std) on a `&str` path, as a `String`.
/// Claims the documented rule: the extension of the file name (see
/// [`extension_of_name`]), none without a file name.
#[verifier::external_body]
pub(crate) fn extension_of(p: &str) -> (r: Option<String>)
    ensures
        match r {
            Some(s) => path_extension(p@) == Some(s@),
            None => path_extension(p@) == None::<Seq<char>>,
        },
{
    std::path::Path::new(p).extension().and_then(|s| s.to_str()).map(|s| s.to_string())
}

} // verus!
