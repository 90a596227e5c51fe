//! Names and extensions of paths, as the `camino` crate takes them apart.

use vstd::prelude::*;
use crate::text::rfind_before;

verus! {

/// The final component of `path` as `camino::Utf8Path::file_name` gives it.
pub uninterp spec fn camino_file_name(path: Seq<char>) -> Option<Seq<char>>;

/// The extension of a file name: the text after its final `.`, unless the
/// name has no `.` or its only `.` is the first character.
pub open spec fn extension_of_name(name: Option<Seq<char>>) -> Option<Seq<char>> {
    match name {
        None => None,
        Some(n) => match rfind_before(n, '.', n.len() as int) {
            None => None,
            Some(i) => if i == 0 {
                None
            } else {
                Some(n.subrange(i + 1, n.len() as int))
            },
        },
    }
}

/// Calls `camino::Utf8Path::file_name`. Its result is named
/// `camino_file_name` of the path; nothing else about it is claimed.
#[verifier::external_body]
pub(crate) fn file_name_of(path: &str) -> (r: Option<String>)
    ensures
        r.deep_view() == camino_file_name(path@),
{
    camino::Utf8Path::new(path).file_name().map(|s| s.to_string())
}

/// Calls `camino::Utf8Path::extension`, which the crate documents as the
/// text after the final `.` of the file name, with no extension for a name
/// without `.` or whose only `.` comes first.
#[verifier::external_body]
pub(crate) fn extension_of(path: &str) -> (r: Option<String>)
    ensures
        r.deep_view() == extension_of_name(camino_file_name(path@)),
{
    camino::Utf8Path::new(path).extension().map(|s| s.to_string())
}

/// The final component of `path` as `std::path::Path::file_name` gives it.
pub uninterp spec fn std_file_name(path: Seq<char>) -> Option<Seq<char>>;

/// Calls `std::path::Path::extension`, which std documents as the text after
/// the final `.` of the file name, with no extension for a name without `.`
/// or whose only `.` comes first.
#[verifier::external_body]
pub(crate) fn std_extension_of(path: &str) -> (r: Option<String>)
    ensures
        r.deep_view() == extension_of_name(std_file_name(path@)),
{
    std::path::Path::new(path).extension().map(|e| e.to_string_lossy().to_string())
}

} // verus!
