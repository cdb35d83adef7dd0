//! File-system paths. A path is an opaque value of the platform's path type;
//! what the program reads of one (its text, its name) and how it builds
//! one go through the items of this file.

use crate::text::text_of;
use std::path::PathBuf;
use vstd::prelude::*;

verus! {

/// `std::path::PathBuf`, the platform's owned path.
#[verifier::external_type_specification]
#[verifier::external_body]
pub struct ExPathBuf(PathBuf);

/// The path that `PathBuf::from` makes of a text.
pub uninterp spec fn path_from(text: Seq<char>) -> PathBuf;

/// The path that `Path::join` makes of a path and a relative or absolute part.
pub uninterp spec fn joined_path(base: PathBuf, part: Seq<char>) -> PathBuf;

/// The text that `Path::display` shows for a path.
pub uninterp spec fn path_text(path: PathBuf) -> Seq<char>;

/// The components that `Path::components` finds in a path, each as a key: two
/// components have the same key exactly if they are equal.
pub uninterp spec fn path_components(path: PathBuf) -> Seq<Seq<u8>>;

/// The name of the file or directory that a path ends in, which is what
/// `Path::file_name` returns, if there is one and it is Unicode.
pub uninterp spec fn path_name(path: PathBuf) -> Option<Seq<char>>;

/// The path `path` lies under `base` or is `base`: its components begin with
/// those of `base`.
pub open spec fn lies_under(path: PathBuf, base: PathBuf) -> bool {
    path_components(base).is_prefix_of(path_components(path))
}

/// The two paths have the same components.
pub open spec fn same_place(a: PathBuf, b: PathBuf) -> bool {
    path_components(a) == path_components(b)
}

/// `<PathBuf as Clone>::clone`: the copy is the same path.
pub assume_specification[ <PathBuf as Clone>::clone ](path: &PathBuf) -> (copy: PathBuf)
    ensures
        copy == *path,
;

/// `PathBuf::from` on a text: the path depends on the text alone.
#[verifier::external_body]
pub(crate) fn make_path(text: &str) -> (r: PathBuf)
    ensures
        r == path_from(text@),
{
    PathBuf::from(text)
}

/// `Path::join`: the path depends on the two operands alone.
#[verifier::external_body]
pub(crate) fn join_path(base: &PathBuf, part: &str) -> (r: PathBuf)
    ensures
        r == joined_path(*base, part@),
{
    base.join(part)
}

/// `Path::display`, as text: it depends on the path alone.
#[verifier::external_body]
pub(crate) fn display_path(path: &PathBuf) -> (r: String)
    ensures
        r@ == path_text(*path),
{
    format!("{}", path.display())
}

/// `Path::starts_with`: whether the components of `path` begin with those of
/// `base`. Only whole components match.
#[verifier::external_body]
pub(crate) fn path_starts_with(path: &PathBuf, base: &PathBuf) -> (r: bool)
    ensures
        r == path_components(*base).is_prefix_of(path_components(*path)),
{
    path.starts_with(base)
}

/// `Path::file_name`, as text: it depends on the path alone. A name that is
/// not Unicode counts as none.
#[verifier::external_body]
pub(crate) fn file_name(path: &PathBuf) -> (r: Option<String>)
    ensures
        text_of(r) == path_name(*path),
{
    path.file_name().and_then(|n| n.to_str()).map(|n| n.to_owned())
}

/// Do the two paths have the same components?
pub fn is_same_place(a: &PathBuf, b: &PathBuf) -> (r: bool)
    ensures
        r == same_place(*a, *b),
{
    let r = path_starts_with(a, b) && path_starts_with(b, a);
    assert(r ==> path_components(*a) =~= path_components(*b)) by {
        if r {
            let x = path_components(*a);
            let y = path_components(*b);
            assert(y =~= x.subrange(0, y.len() as int));
            assert(x =~= y.subrange(0, x.len() as int));
        }
    }
    assert(same_place(*a, *b) ==> r) by {
        let x = path_components(*a);
        assert(x =~= x.subrange(0, x.len() as int));
    }
    r
}

} // verus!
