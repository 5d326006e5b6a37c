//! Path arithmetic, done by the standard library.
//!
//! Nothing here touches the file system. The functions below hand a text to
//! `std::path::Path` and take a text back. What the standard library
//! computes is not restated, since it depends on the platform's rules for
//! paths; each result is only given a name, so that two calls on the same
//! texts are known to agree.
use std::path::Path;
use vstd::prelude::*;

verus! {

/// What `Path::parent` gives for a path: the path without its last
/// component, or `None` for a root or an empty path.
pub uninterp spec fn parent_of(path: Seq<char>) -> Option<Seq<char>>;

/// What `Path::file_name` gives for a path: its last component, or `None`
/// where the path ends in `..` or is a root.
pub uninterp spec fn file_name_of(path: Seq<char>) -> Option<Seq<char>>;

/// What `Path::join` gives for a directory and an entry, or `None` where the
/// joined path is no text.
pub uninterp spec fn joined(dir: Seq<char>, entry: Seq<char>) -> Option<Seq<char>>;

/// What `str::trim_end` leaves of a text: the text without its trailing
/// whitespace.
pub uninterp spec fn trimmed_end(text: Seq<char>) -> Seq<char>;

/// Calls `Path::parent`. Trusted: the result is `parent_of` of the path,
/// which says no more than that it depends on the path's text alone.
#[verifier::external_body]
pub(crate) fn parent(path: &str) -> (dir: Option<String>)
    ensures
        dir.deep_view() == parent_of(path@),
{
    Some(Path::new(path).parent()?.to_str()?.to_owned())
}

/// Calls `Path::file_name`. Trusted: the result is `file_name_of` of the
/// path, which says no more than that it depends on the path's text alone.
#[verifier::external_body]
pub(crate) fn file_name(path: &str) -> (name: Option<String>)
    ensures
        name.deep_view() == file_name_of(path@),
{
    Some(Path::new(path).file_name()?.to_str()?.to_owned())
}

/// Calls `Path::join`. Trusted: the result is `joined` of the two texts,
/// which says no more than that it depends on them alone.
#[verifier::external_body]
pub(crate) fn join(dir: &str, entry: &str) -> (path: Option<String>)
    ensures
        path.deep_view() == joined(dir@, entry@),
{
    Some(Path::new(dir).join(entry).to_str()?.to_owned())
}

/// Calls `str::trim_end`. Trusted: the result is `trimmed_end` of the text,
/// which says no more than that it depends on the text alone.
#[verifier::external_body]
pub(crate) fn trim_end(text: &str) -> (trimmed: String)
    ensures
        trimmed@ == trimmed_end(text@),
{
    text.trim_end().to_owned()
}

} // verus!
