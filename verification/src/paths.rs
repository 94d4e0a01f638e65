//! Paths of files, taken apart as `std::path::Path` does.
use vstd::prelude::*;

verus! {

/// The path `path` with its extension removed, as `Path::with_extension("")` makes it.
pub uninterp spec fn path_without_extension(path: Seq<char>) -> Seq<char>;

/// The final component of `path`, as `Path::file_name` gives it.
pub uninterp spec fn path_file_name(path: Seq<char>) -> Option<Seq<char>>;

/// The path without its final component, as `Path::parent` gives it.
pub uninterp spec fn path_parent(path: Seq<char>) -> Option<Seq<char>>;

/// Calls `Path::with_extension` with an empty extension; the result is named,
/// not stated.
#[verifier::external_body]
pub(crate) fn without_extension(path: &str) -> (r: String)
    ensures
        r@ == path_without_extension(path@),
{
    std::path::Path::new(path).with_extension("").to_string_lossy().to_string()
}

/// Calls `Path::file_name`; the result is named, not stated.
#[verifier::external_body]
pub(crate) fn file_name(path: &str) -> (r: Option<String>)
    ensures
        match r {
            Some(n) => path_file_name(path@) == Some(n@),
            None => path_file_name(path@) is None,
        },
{
    std::path::Path::new(path).file_name().map(|n| n.to_string_lossy().to_string())
}

/// Calls `Path::parent`; the result is named. Its documentation makes the
/// parent the path without its final component, so shorter than the path.
#[verifier::external_body]
pub(crate) fn parent(path: &str) -> (r: Option<String>)
    ensures
        match r {
            Some(p) => path_parent(path@) == Some(p@) && p@.len() < path@.len(),
            None => path_parent(path@) is None,
        },
{
    std::path::Path::new(path).parent().map(|p| p.to_string_lossy().to_string())
}

} // verus!
