//! Path operations of `std::path`, on paths held as text.
use vstd::prelude::*;

verus! {

/// What `Path::parent` gives for a path.
pub uninterp spec fn path_parent(p: Seq<char>) -> Option<Seq<char>>;

/// What `Path::file_stem` gives for a path.
pub uninterp spec fn path_file_stem(p: Seq<char>) -> Option<Seq<char>>;

/// What `Path::file_name` gives for a path.
pub uninterp spec fn path_file_name(p: Seq<char>) -> Option<Seq<char>>;

/// What `Path::join` gives for a base path and a relative tail.
pub uninterp spec fn path_join(base: Seq<char>, tail: Seq<char>) -> Seq<char>;

/// The view of an optional string.
pub open spec fn opt_view(s: Option<String>) -> Option<Seq<char>> {
    match s {
        Some(s) => Some(s@),
        None => None,
    }
}

/// `Path::parent` of a path written as text. A parent of a text path is
/// text too, so the lossless conversion back to a `String` keeps it.
#[verifier::external_body]
pub(crate) fn parent_of(p: &str) -> (r: Option<String>)
    ensures
        opt_view(r) == path_parent(p@),
{
    std::path::Path::new(p).parent().map(|q| q.to_string_lossy().into_owned())
}

/// `Path::file_stem` of a path written as text.
#[verifier::external_body]
pub(crate) fn file_stem_of(p: &str) -> (r: Option<String>)
    ensures
        opt_view(r) == path_file_stem(p@),
{
    std::path::Path::new(p).file_stem().map(|q| q.to_string_lossy().into_owned())
}

/// `Path::file_name` of a path written as text.
#[verifier::external_body]
pub(crate) fn file_name_of(p: &str) -> (r: Option<String>)
    ensures
        opt_view(r) == path_file_name(p@),
{
    std::path::Path::new(p).file_name().map(|q| q.to_string_lossy().into_owned())
}

/// `Path::join` of two paths written as text, displayed back as text.
#[verifier::external_body]
pub(crate) fn join_paths(base: &str, tail: &str) -> (r: String)
    ensures
        r@ == path_join(base@, tail@),
{
    std::path::Path::new(base).join(tail).display().to_string()
}

} // verus!
