//! Unix path components as `std::path` computes them, for paths held as text.

use vstd::prelude::*;

verus! {

/// The text view of an optional string.
pub open spec fn opt_view(o: Option<String>) -> Option<Seq<char>> {
    match o {
        Some(s) => Some(s@),
        None => None,
    }
}

/// The final component of `path` (as `Path::file_name`).
pub uninterp spec fn path_file_name(path: Seq<char>) -> Option<Seq<char>>;

/// The file name without its extension (as `Path::file_stem`).
pub uninterp spec fn path_file_stem(path: Seq<char>) -> Option<Seq<char>>;

/// The extension of the file name (as `Path::extension`).
pub uninterp spec fn path_extension(path: Seq<char>) -> Option<Seq<char>>;

/// `path` with its file name replaced (as `Path::with_file_name`).
pub uninterp spec fn path_with_file_name(path: Seq<char>, name: Seq<char>) -> Seq<char>;

/// `path` with its extension replaced (as `Path::with_extension`).
pub uninterp spec fn path_with_extension(path: Seq<char>, extension: Seq<char>) -> Seq<char>;

/// Whether `path` starts with every component of `base` (as
/// `Path::starts_with`, which compares whole components).
pub uninterp spec fn path_starts_with(path: Seq<char>, base: Seq<char>) -> bool;

/// Whether two paths have the same components (as `Path`'s `==`, which
/// compares components, so `/a/b/` equals `/a/b`).
pub uninterp spec fn path_equals(a: Seq<char>, b: Seq<char>) -> bool;

/// Compares two paths with `std::path::Path`'s `==`; the result is named,
/// not described.
#[verifier::external_body]
pub(crate) fn paths_equal(a: &str, b: &str) -> (equal: bool)
    ensures
        equal == path_equals(a@, b@),
{
    std::path::Path::new(a) == std::path::Path::new(b)
}

/// Calls `std::path::Path::file_name`; the result is named, not described.
#[verifier::external_body]
pub(crate) fn file_name(path: &str) -> (name: Option<String>)
    ensures
        opt_view(name) == path_file_name(path@),
{
    std::path::Path::new(path).file_name().and_then(|n| n.to_str()).map(|n| n.to_owned())
}

/// Calls `std::path::Path::file_stem`; the result is named, not described.
#[verifier::external_body]
pub(crate) fn file_stem(path: &str) -> (stem: Option<String>)
    ensures
        opt_view(stem) == path_file_stem(path@),
{
    std::path::Path::new(path).file_stem().and_then(|n| n.to_str()).map(|n| n.to_owned())
}

/// Calls `std::path::Path::extension`; the result is named, not described.
#[verifier::external_body]
pub(crate) fn extension(path: &str) -> (ext: Option<String>)
    ensures
        opt_view(ext) == path_extension(path@),
{
    std::path::Path::new(path).extension().and_then(|n| n.to_str()).map(|n| n.to_owned())
}

/// Calls `std::path::Path::with_file_name`; the result is named, not
/// described.
#[verifier::external_body]
pub(crate) fn with_file_name(path: &str, name: &str) -> (result: String)
    ensures
        result@ == path_with_file_name(path@, name@),
{
    std::path::Path::new(path).with_file_name(name).to_string_lossy().into_owned()
}

/// A text holds no path separator (`/`, or `\\` on Windows).
pub open spec fn has_no_separator(text: Seq<char>) -> bool {
    !text.contains('/') && !text.contains('\\')
}

/// Calls `std::path::Path::with_extension`; the result is named, not
/// described. That call panics on an extension holding a path separator,
/// so such extensions are left out.
#[verifier::external_body]
pub(crate) fn with_extension(path: &str, extension: &str) -> (result: String)
    requires
        has_no_separator(extension@),
    ensures
        result@ == path_with_extension(path@, extension@),
{
    std::path::Path::new(path).with_extension(extension).to_string_lossy().into_owned()
}

/// Calls `std::path::Path::starts_with`; the result is named, not
/// described.
#[verifier::external_body]
pub(crate) fn starts_with(path: &str, base: &str) -> (result: bool)
    ensures
        result == path_starts_with(path@, base@),
{
    std::path::Path::new(path).starts_with(base)
}

} // verus!
