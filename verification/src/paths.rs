//! Paths as text, joined and split by the standard library's rules.

use vstd::prelude::*;

verus! {

/// The text of `base` with `name` adjoined by `std::path::Path::join` on the target
/// the crate is built for.
pub uninterp spec fn path_join(base: Seq<char>, name: Seq<char>) -> Seq<char>;

/// The text of the parent of `p` by `std::path::Path::parent`, if `p` has one.
pub uninterp spec fn path_parent(p: Seq<char>) -> Option<Seq<char>>;

/// `std::path::Path::join`: claimed to give the text `path_join(base, name)`. Both
/// arguments are valid UTF-8 and `join` only adds separators, so converting the result
/// back to text loses nothing.
#[verifier::external_body]
pub(crate) fn join_path(base: &str, name: &str) -> (r: String)
    ensures
        r@ == path_join(base@, name@),
{
    std::path::Path::new(base).join(name).to_string_lossy().into_owned()
}

/// `std::path::Path::parent`: claimed to give the parent `path_parent(p)` as text, or
/// none when that has none.
#[verifier::external_body]
pub(crate) fn parent_path(p: &str) -> (r: Option<String>)
    ensures
        r is Some <==> path_parent(p@) is Some,
        r matches Some(x) ==> path_parent(p@) == Some(x@),
{
    match std::path::Path::new(p).parent() {
        Some(q) => Some(q.to_string_lossy().into_owned()),
        None => None,
    }
}

} // verus!
