//! File-system paths, held as strings. Joining, splitting and naming paths is
//! done by `std::path::Path`; whether a path exists is asked of the disk.

use vstd::prelude::*;

verus! {

/// What `Path::join` gives for the base path `base` and the part `part`.
pub uninterp spec fn joined_path(base: Seq<char>, part: Seq<char>) -> Seq<char>;

/// What `Path::parent` gives for `p`: `None` for a path that ends in a root or
/// prefix, and for the empty path.
pub uninterp spec fn parent_path(p: Seq<char>) -> Option<Seq<char>>;

/// What `Path::file_name` gives for `p`: its final component, `None` when the
/// path ends in `..` or a root.
pub uninterp spec fn path_file_name(p: Seq<char>) -> Option<Seq<char>>;

/// Calls `Path::join`: `part` appended to `base` with a separator (or `part`
/// alone when it is absolute). The result is named `joined_path` of the two
/// arguments; nothing more is stated of it.
#[verifier::external_body]
pub fn join_path(base: &str, part: &str) -> (r: String)
    ensures
        r@ == joined_path(base@, part@),
{
    std::path::Path::new(base).join(part).to_string_lossy().into_owned()
}

/// Calls `Path::parent`: the path without its final component. The result is
/// named `parent_path` of the argument.
#[verifier::external_body]
pub fn parent_of(p: &str) -> (r: Option<String>)
    ensures
        r matches Some(q) ==> parent_path(p@) == Some(q@),
        r is None ==> parent_path(p@) is None,
{
    std::path::Path::new(p).parent().map(|q| q.to_string_lossy().into_owned())
}

/// Calls `Path::file_name`: the final component of the path. The result is
/// named `path_file_name` of the argument.
#[verifier::external_body]
pub fn get_path_file_name(p: &str) -> (r: Option<String>)
    ensures
        r matches Some(n) ==> path_file_name(p@) == Some(n@),
        r is None ==> path_file_name(p@) is None,
{
    std::path::Path::new(p).file_name().map(|n| n.to_string_lossy().into_owned())
}

/// Calls `Path::exists`, which asks the file system whether something is found
/// at the path. The answer depends on the disk at the time of the call, so
/// nothing is stated of it.
#[verifier::external_body]
pub fn path_exists(p: &str) -> (r: bool) {
    std::path::Path::new(p).exists()
}

/// The final component of `p`, or the empty string where it has none
/// (`file_name(...).unwrap_or("")`).
pub open spec fn name_or_empty(p: Seq<char>) -> Seq<char> {
    match path_file_name(p) {
        Some(n) => n,
        None => Seq::empty(),
    }
}

/// The final component of `p`, or the empty string where it has none.
pub fn file_name_or_empty(p: &str) -> (r: String)
    ensures
        r@ == name_or_empty(p@),
{
    match get_path_file_name(p) {
        Some(n) => n,
        None => String::new(),
    }
}

} // verus!
