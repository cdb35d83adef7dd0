//! What the library takes from `portside`, which loads a workspace with
//! `cargo metadata`: its packages, its directories and the graph of member
//! dependencies.

use crate::text::texts;
use std::path::PathBuf;
use vstd::prelude::*;

verus! {

/// `portside::Workspace`, a loaded workspace.
#[verifier::external_type_specification]
#[verifier::external_body]
pub struct ExWorkspace(portside::Workspace);

/// `portside::Package`, a workspace member.
#[verifier::external_type_specification]
pub struct ExPackage(portside::Package);

/// `portside::Target`, a build target of a package.
#[verifier::external_type_specification]
pub struct ExTarget(portside::Target);

/// `portside::TargetKind`.
#[verifier::external_type_specification]
pub struct ExTargetKind(portside::TargetKind);

/// `portside::Dependency`, a declared dependency of a package.
#[verifier::external_type_specification]
pub struct ExDependency(portside::Dependency);

/// `portside::DepKind`.
#[verifier::external_type_specification]
pub struct ExDepKind(portside::DepKind);

/// `portside::Error`, why a workspace could not be loaded.
#[verifier::external_type_specification]
pub struct ExError(portside::Error);

/// The packages that a workspace holds, in their order.
pub uninterp spec fn packages(ws: portside::Workspace) -> Seq<portside::Package>;

/// The root directory of a workspace.
pub uninterp spec fn workspace_root(ws: portside::Workspace) -> PathBuf;

/// The target directory of a workspace.
pub uninterp spec fn workspace_target(ws: portside::Workspace) -> PathBuf;

/// The graph of a workspace, if it was loaded with one: from the id of a
/// member to the ids of the members that it depends on directly.
pub uninterp spec fn member_edges(ws: portside::Workspace) -> Option<
    Map<Seq<char>, Seq<Seq<char>>>,
>;

/// Each id of `path` depends directly on the one behind it.
pub open spec fn is_link_path(
    edges: Map<Seq<char>, Seq<Seq<char>>>,
    path: Seq<Seq<char>>,
) -> bool {
    &&& path.len() > 0
    &&& forall|i: int|
        #![trigger path[i]]
        0 <= i < path.len() - 1 ==> edges.contains_key(path[i]) && edges[path[i]].contains(
            path[i + 1],
        )
}

/// `from` is `to`, or depends on it directly or through other members.
pub open spec fn links(
    edges: Map<Seq<char>, Seq<Seq<char>>>,
    from: Seq<char>,
    to: Seq<char>,
) -> bool {
    exists|path: Seq<Seq<char>>| #[trigger]
        is_link_path(edges, path) && path.first() == from && path.last() == to
}

/// The target at `i` is the first binary among `targets`.
pub open spec fn first_bin(targets: Seq<portside::Target>, i: int) -> bool {
    &&& 0 <= i < targets.len()
    &&& targets[i].kind == portside::TargetKind::Bin
    &&& forall|j: int| 0 <= j < i ==> (#[trigger] targets[j]).kind != portside::TargetKind::Bin
}

/// A dependency with that package name is among `dependencies`.
pub open spec fn depends_on(dependencies: Seq<portside::Dependency>, name: Seq<char>) -> bool {
    exists|i: int| 0 <= i < dependencies.len() && (#[trigger] dependencies[i]).name@ == name
}

/// `portside::Package::bin_target`: the first binary target, if there is one.
pub assume_specification[ portside::Package::bin_target ](
    package: &portside::Package,
) -> (r: Option<&portside::Target>)
    ensures
        r is Some ==> exists|i: int| #[trigger]
            first_bin(package.targets@, i) && package.targets@[i] == *r->0,
        r is None ==> forall|i: int| !first_bin(package.targets@, i),
;

/// `portside::Package::has_dependency`: whether a dependency of that name is
/// declared, of whatever kind.
pub assume_specification[ portside::Package::has_dependency ](
    package: &portside::Package,
    name: &str,
) -> (r: bool)
    ensures
        r == depends_on(package.dependencies@, name@),
;

/// The field `portside::Workspace::members`.
#[verifier::external_body]
pub(crate) fn workspace_members(ws: &portside::Workspace) -> (r: &Vec<portside::Package>)
    ensures
        r@ == packages(*ws),
{
    &ws.members
}

/// The field `portside::Workspace::root`.
#[verifier::external_body]
pub(crate) fn root_dir(ws: &portside::Workspace) -> (r: &PathBuf)
    ensures
        *r == workspace_root(*ws),
{
    &ws.root
}

/// The field `portside::Workspace::target_dir`.
#[verifier::external_body]
pub(crate) fn target_dir(ws: &portside::Workspace) -> (r: &PathBuf)
    ensures
        *r == workspace_target(*ws),
{
    &ws.target_dir
}

/// `portside::Workspace::linked_members`: the id itself and every member that
/// it depends on, directly or not, each once; nothing where the workspace was
/// loaded without its graph. In which order they come is not said.
#[verifier::external_body]
pub(crate) fn linked_members(ws: &portside::Workspace, id: &str) -> (r: Option<Vec<String>>)
    ensures
        r is Some <==> member_edges(*ws) is Some,
        r matches Some(ids) ==> texts(ids@).no_duplicates(),
        r matches Some(ids) ==> forall|x: Seq<char>| #[trigger]
            texts(ids@).contains(x) <==> links(member_edges(*ws)->0, id@, x),
{
    ws.linked_members(id).map(|ids| ids.into_iter().collect())
}

} // verus!
