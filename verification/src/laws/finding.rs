//! Laws of discovery and of freshness: which apps are listed, what is said of
//! each, where their binaries are looked for, and which of them are stale.

use crate::cli::ConfigView;
use crate::discover::{
    apps_are_members, catalogues, catalogues_workspace, discover_message, dirs_of,
    every_runnable_member_is_listed, kind_label, last_with_id_counts, listed_by_name, load_error,
    meta_of, metas_found, named, only_runnable_members_are_listed, tells_of_package,
    tells_of_workspace, AppKind, AppView, BinKind, CatalogView, Facts, Freshness, Launch, Member,
    MetaView, Prebuilt,
};
use crate::ordering::{in_key_order, sorting_keeps_the_items, stably_sorted, with_key, Keyed};
use crate::paths::{joined_path, path_components, path_from};
use crate::resolve::{
    are_resolved, belongs_to_a_member, candidates_of, fast_launch_runs_the_newest,
    first_of_kind_is_first, freshness_of, install_dir, is_resolved, is_source_name, later, latest,
    prebuilts_found, source_newest, stale_exactly_if_a_linked_source_is_newer, step_for, Candidate,
    DirEntry, Survey, WalkStep,
};
use crate::text::text_before;
use crate::workspace::{first_bin, packages, workspace_root, workspace_target};
use std::path::PathBuf;
use vstd::prelude::*;

verus! {

// --- lists --------------------------------------------------------------

/// What a filter keeps comes in the order in which it stood.
proof fn filter_keeps_order<A>(s: Seq<A>, p: spec_fn(A) -> bool, i: int, j: int) -> (at: (int, int))
    requires
        0 <= i < j < s.len(),
        p(s[i]),
        p(s[j]),
    ensures
        0 <= at.0 < at.1 < s.filter(p).len(),
        s.filter(p)[at.0] == s[i],
        s.filter(p)[at.1] == s[j],
    decreases s.len(),
{
    let front = s.drop_last();
    let last = s.last();
    assert(s =~= front.push(last));
    front.lemma_filter_push(last, p);
    if j < front.len() {
        filter_keeps_order(front, p, i, j)
    } else {
        front.lemma_filter_contains(p, i);
        let a = choose|a: int| 0 <= a < front.filter(p).len() && front.filter(p)[a] == front[i];
        (a, front.filter(p).len() as int)
    }
}

/// What a filter keeps stood in the order in which it comes.
proof fn filter_came_in_order<A>(s: Seq<A>, p: spec_fn(A) -> bool, a: int, b: int) -> (at: (
    int,
    int,
))
    requires
        0 <= a < b < s.filter(p).len(),
    ensures
        0 <= at.0 < at.1 < s.len(),
        s[at.0] == s.filter(p)[a],
        s[at.1] == s.filter(p)[b],
    decreases s.len(),
{
    reveal(Seq::filter);
    if s.len() == 0 {
        (0, 0)
    } else {
        let front = s.drop_last();
        let last = s.last();
        assert(s =~= front.push(last));
        front.lemma_filter_push(last, p);
        if b < front.filter(p).len() {
            filter_came_in_order(front, p, a, b)
        } else {
            let x = front.filter(p)[a];
            assert(front.filter(p).contains(x));
            front.lemma_filter_contains_rev(p, x);
            let i = choose|i: int| 0 <= i < front.len() && front[i] == x;
            (i, front.len() as int)
        }
    }
}

/// Items with one key stood in the order in which sorting puts them.
proof fn sorting_is_stable<T: Keyed>(input: Seq<T>, output: Seq<T>, a: int, b: int) -> (at: (
    int,
    int,
))
    requires
        stably_sorted(input, output),
        0 <= a < b < output.len(),
        output[a].key() == output[b].key(),
    ensures
        0 <= at.0 < at.1 < input.len(),
        input[at.0] == output[a],
        input[at.1] == output[b],
{
    let k = output[a].key();
    let p = |x: T| x.key() == k;
    let (c, d) = filter_keeps_order(output, p, a, b);
    assert(with_key(output, k) == with_key(input, k));
    filter_came_in_order(input, p, c, d)
}

// --- discovery ----------------------------------------------------------

/// `m` tells of the package `p` and of its target at `t`, the first binary.
pub open spec fn is_told(m: MetaView, p: portside::Package, t: int) -> bool {
    &&& 0 <= t < p.targets@.len()
    &&& p.targets@[t].kind == portside::TargetKind::Bin
    &&& forall|u: int| 0 <= u < t ==> (#[trigger] p.targets@[u]).kind != portside::TargetKind::Bin
    &&& m.id == p.id@
    &&& m.name == p.name@
    &&& m.bin == p.targets@[t].name@
    &&& p.description matches Some(d) ==> m.description == d@
    &&& p.description is None ==> m.description.len() == 0
    &&& m.kind == AppKind::Windowed <==> exists|d: int|
        0 <= d < p.dependencies@.len() && (#[trigger] p.dependencies@[d]).name@ == "bevy"@
}

/// What is listed is a package of the workspace with its first binary target,
/// in the package's words; an app is windowed exactly if its package declares
/// a dependency of the name `bevy`, of whatever kind.
pub proof fn an_app_is_what_its_package_says(
    c: CatalogView,
    cfg: ConfigView,
    ws: portside::Workspace,
    i: int,
)
    requires
        catalogues_workspace(c, cfg, ws),
        0 <= i < c.metas.len(),
    ensures
        exists|k: int, t: int|
            0 <= k < packages(ws).len() && #[trigger] is_told(c.metas[i], packages(ws)[k], t),
        cfg.filter matches Some(f) ==> exists|front: Seq<char>, back: Seq<char>|
            c.metas[i].name == #[trigger] (front + f + back),
        cfg.subfolder matches Some(s) ==> path_components(
            joined_path(workspace_root(ws), s),
        ).is_prefix_of(path_components(c.member_dirs[c.metas[i].id])),
{
    only_runnable_members_are_listed(c, cfg, ws, i);
    let facts = choose|facts: Facts| #[trigger]
        tells_of_workspace(facts, cfg, ws) && catalogues(c, cfg, facts);
    let k = apps_are_members(c, cfg, facts, i);
    let p = packages(ws)[k];
    let m = facts.members@[k];
    assert(tells_of_package(m, cfg, p, ws));
    let t = choose|t: int| #[trigger]
        first_bin(p.targets@, t) && p.targets@[t].name@ == m.bin->0@;
    assert(is_told(c.metas[i], packages(ws)[k], t));
    if cfg.filter is Some {
        crate::laws::words::a_substring_stands_between_two_parts(c.metas[i].name, cfg.filter->0);
    }
}

/// Every package with a binary target is listed, unless its name does not hold
/// the filter or its directory does not lie under the subfolder.
pub proof fn every_package_with_a_binary_is_an_app(
    c: CatalogView,
    cfg: ConfigView,
    ws: portside::Workspace,
    k: int,
    t: int,
    front: Seq<char>,
    back: Seq<char>,
)
    requires
        catalogues_workspace(c, cfg, ws),
        0 <= k < packages(ws).len(),
        0 <= t < packages(ws)[k].targets@.len(),
        packages(ws)[k].targets@[t].kind == portside::TargetKind::Bin,
        forall|j: int|
            k < j < packages(ws).len() ==> (#[trigger] packages(ws)[j]).id@ != packages(ws)[k].id@,
        cfg.subfolder matches Some(s) ==> path_components(
            joined_path(workspace_root(ws), s),
        ).is_prefix_of(path_components(packages(ws)[k].manifest_dir)),
        cfg.filter matches Some(f) ==> packages(ws)[k].name@ == front + f + back,
    ensures
        exists|i: int|
            0 <= i < c.metas.len() && (#[trigger] c.metas[i]).id == packages(ws)[k].id@
                && c.metas[i].name == packages(ws)[k].name@,
{
    let p = packages(ws)[k];
    first_of_targets(p.targets@, t);
    let u = choose|u: int| first_bin(p.targets@, u);
    every_directory_is_kept(c, cfg, ws, k);
    if cfg.filter is Some {
        crate::laws::words::a_substring_stands_between_two_parts(p.name@, cfg.filter->0);
    }
    every_runnable_member_is_listed(c, cfg, ws, k, u);
}

/// Where there is a binary target there is a first one.
proof fn first_of_targets(targets: Seq<portside::Target>, t: int)
    requires
        0 <= t < targets.len(),
        targets[t].kind == portside::TargetKind::Bin,
    ensures
        exists|u: int| first_bin(targets, u),
    decreases t,
{
    if forall|j: int| 0 <= j < t ==> (#[trigger] targets[j]).kind != portside::TargetKind::Bin {
        assert(first_bin(targets, t));
    } else {
        let j = choose|j: int|
            0 <= j < t && (#[trigger] targets[j]).kind == portside::TargetKind::Bin;
        first_of_targets(targets, j);
    }
}

/// The directory of every member is kept under its id, that of the last one
/// where several have one id; and no other id is kept.
pub proof fn every_directory_is_kept(
    c: CatalogView,
    cfg: ConfigView,
    ws: portside::Workspace,
    k: int,
)
    requires
        catalogues_workspace(c, cfg, ws),
        0 <= k < packages(ws).len(),
    ensures
        c.member_dirs.contains_key(packages(ws)[k].id@),
        c.member_ids.contains(packages(ws)[k].id@),
        c.member_ids.no_duplicates(),
        (forall|j: int|
            k < j < packages(ws).len() ==> (#[trigger] packages(ws)[j]).id@ != packages(ws)[k].id@)
            ==> c.member_dirs[packages(ws)[k].id@] == packages(ws)[k].manifest_dir,
        forall|id: Seq<char>| #[trigger]
            c.member_ids.contains(id) ==> exists|j: int|
                0 <= j < packages(ws).len() && (#[trigger] packages(ws)[j]).id@ == id,
{
    let facts = choose|facts: Facts| #[trigger]
        tells_of_workspace(facts, cfg, ws) && catalogues(c, cfg, facts);
    let members = facts.members@;
    let id = packages(ws)[k].id@;
    assert(tells_of_package(members[k], cfg, packages(ws)[k], ws));
    last_with_id_counts(members, id, k);
    let owner = crate::discover::last_with_id(members, id);
    assert(tells_of_package(members[owner], cfg, packages(ws)[owner], ws));
    if forall|j: int|
        k < j < packages(ws).len() ==> (#[trigger] packages(ws)[j]).id@ != packages(ws)[k].id@ {
        last_is_latest(members, id, k);
        assert(owner == k) by {
            if owner > k {
                assert(packages(ws)[owner].id@ != id);
            }
        }
    }
    assert forall|x: Seq<char>| #[trigger] c.member_ids.contains(x) implies exists|j: int|
        0 <= j < packages(ws).len() && (#[trigger] packages(ws)[j]).id@ == x by {
        assert(c.member_dirs.contains_key(x));
        kept_ids_are_members(members, x);
        let j = choose|j: int| 0 <= j < members.len() && (#[trigger] members[j]).id@ == x;
        assert(tells_of_package(members[j], cfg, packages(ws)[j], ws));
        assert(packages(ws)[j].id@ == x);
    }
}

/// No member with an id stands behind the last one.
proof fn last_is_latest(members: Seq<Member>, id: Seq<char>, k: int)
    requires
        0 <= k < members.len(),
        members[k].id@ == id,
    ensures
        k <= crate::discover::last_with_id(members, id) < members.len(),
    decreases members.len(),
{
    if members.last().id@ != id {
        last_is_latest(members.drop_last(), id, k);
    }
}

/// Only ids of members are kept.
proof fn kept_ids_are_members(members: Seq<Member>, id: Seq<char>)
    requires
        dirs_of(members).contains_key(id),
    ensures
        exists|j: int| 0 <= j < members.len() && (#[trigger] members[j]).id@ == id,
    decreases members.len(),
{
    if members.len() > 0 {
        if members.last().id@ == id {
            assert(members[members.len() - 1].id@ == id);
        } else {
            let front = members.drop_last();
            kept_ids_are_members(front, id);
            let j = choose|j: int| 0 <= j < front.len() && (#[trigger] front[j]).id@ == id;
            assert(members[j].id@ == id);
        }
    }
}

/// Apps are listed by name, and where the members' ids differ no member is
/// listed twice.
pub proof fn apps_are_listed_by_name_and_once(
    c: CatalogView,
    cfg: ConfigView,
    ws: portside::Workspace,
    i: int,
    j: int,
)
    requires
        catalogues_workspace(c, cfg, ws),
        0 <= i < j < c.metas.len(),
    ensures
        !text_before(c.metas[j].name, c.metas[i].name),
        (forall|a: int, b: int|
            #![trigger packages(ws)[a], packages(ws)[b]]
            0 <= a < b < packages(ws).len() ==> packages(ws)[a].id@ != packages(ws)[b].id@)
            ==> c.metas[i].id != c.metas[j].id,
{
    let facts = choose|facts: Facts| #[trigger]
        tells_of_workspace(facts, cfg, ws) && catalogues(c, cfg, facts);
    let members = facts.members@;
    let found = metas_found(cfg, members);
    assert(listed_by_name(found, c.metas));
    if (forall|a: int, b: int|
        #![trigger packages(ws)[a], packages(ws)[b]]
        0 <= a < b < packages(ws).len() ==> packages(ws)[a].id@ != packages(ws)[b].id@)
        && c.metas[i].id == c.metas[j].id {
        let x = apps_are_members(c, cfg, facts, i);
        let y = apps_are_members(c, cfg, facts, j);
        assert(tells_of_package(members[x], cfg, packages(ws)[x], ws));
        assert(tells_of_package(members[y], cfg, packages(ws)[y], ws));
        if x < y {
            assert(packages(ws)[x].id@ != packages(ws)[y].id@);
        } else if y < x {
            assert(packages(ws)[y].id@ != packages(ws)[x].id@);
        }
        assert(c.metas[i] == c.metas[j]);
        let name = c.metas[i].name;
        let q = |m: MetaView| m.name == name;
        let (a, b) = filter_keeps_order(c.metas, q, i, j);
        assert(named(c.metas, name) == named(found, name));
        let (d, e) = filter_came_in_order(found, q, a, b);
        let p = |m: Member| crate::discover::is_listed(cfg, members, m);
        let (s, t) = filter_came_in_order(members, p, d, e);
        assert(meta_of(members[s]).id == meta_of(members[t]).id);
        assert(tells_of_package(members[s], cfg, packages(ws)[s], ws));
        assert(tells_of_package(members[t], cfg, packages(ws)[t], ws));
        assert(packages(ws)[s].id@ != packages(ws)[t].id@);
    }
}

/// The catalogue keeps the workspace's directories and the preference.
pub proof fn the_catalogue_keeps_the_workspace(
    c: CatalogView,
    cfg: ConfigView,
    ws: portside::Workspace,
)
    requires
        catalogues_workspace(c, cfg, ws),
    ensures
        c.root == workspace_root(ws),
        c.target_dir == workspace_target(ws),
        c.prefer_release == cfg.prefer_release,
{
}

/// A failed load is told in the loader's words, behind words of its own.
pub proof fn a_failed_load_is_told_in_its_words(m: String)
    ensures
        discover_message(load_error(portside::Error::CargoNotFound))
            == "cargo-bay needs Cargo, but `cargo` was not found on PATH.\nInstall Rust from https://rustup.rs, then run cargo-bay inside a workspace."@,
        discover_message(load_error(portside::Error::NotWorkspace(m)))
            == "cargo-bay must run inside a Cargo workspace.\n  cargo metadata: "@ + m@
            + "\nRun it from a directory with a Cargo.toml, or pass --manifest-path <path>."@,
        discover_message(load_error(portside::Error::Metadata(m)))
            == "failed to run cargo metadata: "@ + m@,
        discover_message(load_error(portside::Error::Parse(m)))
            == "failed to parse cargo metadata: "@ + m@,
{
}

/// Each build has its own word.
pub proof fn builds_have_their_words()
    ensures
        kind_label(BinKind::Installed) == "installed"@,
        kind_label(BinKind::Release) == "release"@,
        kind_label(BinKind::Debug) == "debug"@,
{
}

// --- the search for sources ---------------------------------------------

/// Below a member's directory, another member's directory is not searched. Any
/// other directory is searched, unless its name is `target` or begins with a
/// dot.
pub proof fn every_directory_but_output_and_hidden_is_searched(entry: DirEntry)
    requires
        entry.is_dir,
    ensures
        entry.is_member ==> step_for(entry) == WalkStep::Ignore,
        !entry.is_member && entry.unicode && (entry.name@ == "target"@ || (entry.name@.len() > 0
            && entry.name@[0] == '.')) ==> step_for(entry) == WalkStep::Ignore,
        !entry.is_member && !(entry.name@ == "target"@) && !(entry.name@.len() > 0 && entry.name@[0]
            == '.') ==> step_for(entry) == WalkStep::Descend,
        !entry.is_member && !entry.unicode ==> step_for(entry) == WalkStep::Descend,
{
}

/// A file counts exactly if it is named `Cargo.toml`, or something and `.rs`.
pub proof fn a_file_counts_exactly_if_it_is_rust_source(entry: DirEntry)
    requires
        !entry.is_dir,
    ensures
        step_for(entry) == WalkStep::Consider <==> is_source_name(entry.name@),
        step_for(entry) == WalkStep::Consider <==> entry.name@ == "Cargo.toml"@ || exists|
            stem: Seq<char>,
        | stem.len() > 0 && entry.name@ == #[trigger] (stem + ".rs"@),
        step_for(entry) != WalkStep::Consider ==> step_for(entry) == WalkStep::Ignore,
{
    let name = entry.name@;
    reveal_strlit(".rs");
    if name.len() > 3 && name.skip(name.len() - 3) == ".rs"@ {
        let stem = name.take(name.len() - 3);
        assert(name =~= stem + ".rs"@);
    }
    if exists|stem: Seq<char>| stem.len() > 0 && name == #[trigger] (stem + ".rs"@) {
        let stem = choose|stem: Seq<char>| stem.len() > 0 && name == #[trigger] (stem + ".rs"@);
        assert(name.skip(name.len() - 3) =~= ".rs"@);
    }
}

/// A directory is a member's exactly if a member that is kept has one with the
/// same components.
pub proof fn a_member_directory_has_the_same_components(cat: CatalogView, path: PathBuf)
    ensures
        belongs_to_a_member(cat, path) <==> exists|id: Seq<char>| #[trigger]
            cat.member_dirs.contains_key(id) && path_components(path) == path_components(
                cat.member_dirs[id],
            ),
{
}

/// Of two points in time the greater counts, and one that is known counts more
/// than none.
pub proof fn the_greater_time_counts(a: i128, b: i128)
    ensures
        a >= b ==> later(Some(a), Some(b)) == Some(a) && later(Some(b), Some(a)) == Some(a),
        later(Some(a), None) == Some(a),
        later(None, Some(a)) == Some(a),
        later(None, None) is None,
        latest(Seq::empty()) is None,
{
}

// --- where binaries are -------------------------------------------------

/// The install directory is `bin` in the cargo home; without one it is
/// `.cargo/bin` in the user profile, or else in the home directory, or else
/// relative.
pub proof fn the_install_directory_follows_the_environment(
    cargo_home: Option<PathBuf>,
    profile: Option<PathBuf>,
    home: Option<PathBuf>,
)
    ensures
        cargo_home matches Some(d) ==> install_dir(cargo_home, profile, home) == joined_path(
            d,
            "bin"@,
        ),
        cargo_home is None ==> (profile matches Some(d) ==> install_dir(cargo_home, profile, home)
            == joined_path(joined_path(d, ".cargo"@), "bin"@)),
        cargo_home is None && profile is None ==> (home matches Some(d) ==> install_dir(
            cargo_home,
            profile,
            home,
        ) == joined_path(joined_path(d, ".cargo"@), "bin"@)),
        cargo_home is None && profile is None && home is None ==> install_dir(
            cargo_home,
            profile,
            home,
        ) == joined_path(joined_path(path_from(""@), ".cargo"@), "bin"@),
{
}

/// Where a build of the binary `exe` lies.
pub open spec fn place_of(
    kind: BinKind,
    target_dir: PathBuf,
    bin_dir: PathBuf,
    exe: Seq<char>,
) -> PathBuf {
    match kind {
        BinKind::Release => joined_path(joined_path(target_dir, "release"@), exe),
        BinKind::Debug => joined_path(joined_path(target_dir, "debug"@), exe),
        BinKind::Installed => joined_path(bin_dir, exe),
    }
}

/// The position at which the survey tells of a build.
pub open spec fn told_at(kind: BinKind) -> int {
    match kind {
        BinKind::Release => 0,
        BinKind::Debug => 1,
        BinKind::Installed => 2,
    }
}

/// A build of that kind is among the binaries.
pub open spec fn has_build(ps: Seq<Prebuilt>, kind: BinKind) -> bool {
    exists|k: int| 0 <= k < ps.len() && (#[trigger] ps[k]).kind == kind
}

/// A place counts exactly if a binary is there, behind those of the places before
/// it, with the kind and the path of the place, its own time, and stale exactly
/// if the newest source is newer.
pub proof fn each_place_counts_if_a_binary_is_there(
    places: Seq<Candidate>,
    mtimes: Seq<Option<i128>>,
    newest: Option<i128>,
    place: Candidate,
    mtime: Option<i128>,
)
    requires
        places.len() == mtimes.len(),
    ensures
        prebuilts_found(Seq::empty(), Seq::empty(), newest).len() == 0,
        ({
            let before = prebuilts_found(places, mtimes, newest);
            let after = prebuilts_found(places.push(place), mtimes.push(mtime), newest);
            &&& mtime is None ==> after == before
            &&& mtime is Some ==> {
                &&& after.len() == before.len() + 1
                &&& after.drop_last() == before
                &&& after.last().kind == place.kind
                &&& after.last().path == place.path
                &&& after.last().mtime == mtime->0
                &&& after.last().freshness is Stale <==> newest is Some && newest->0 > mtime->0
            }
        }),
{
    assert(places.push(place).drop_last() =~= places);
    assert(mtimes.push(mtime).drop_last() =~= mtimes);
    let before = prebuilts_found(places, mtimes, newest);
    let after = prebuilts_found(places.push(place), mtimes.push(mtime), newest);
    if mtime is Some {
        assert(after.drop_last() =~= before);
    }
}

/// The places where a binary may lie: one for each kind of build, in the order
/// in which a survey tells of them.
pub proof fn a_binary_has_three_places(
    target_dir: PathBuf,
    bin_dir: PathBuf,
    bin: Seq<char>,
    suffix: Seq<char>,
    kind: BinKind,
)
    ensures
        candidates_of(target_dir, bin_dir, bin, suffix).len() == 3,
        candidates_of(target_dir, bin_dir, bin, suffix)[told_at(kind)].kind == kind,
        candidates_of(target_dir, bin_dir, bin, suffix)[told_at(kind)].path == place_of(
            kind,
            target_dir,
            bin_dir,
            bin + suffix,
        ),
{
}

/// What is found in the three places.
proof fn found_in_three_places(
    places: Seq<Candidate>,
    mtimes: Seq<Option<i128>>,
    src: Option<i128>,
)
    requires
        places.len() == 3,
        mtimes.len() == 3,
        places[0].kind == BinKind::Release,
        places[1].kind == BinKind::Debug,
        places[2].kind == BinKind::Installed,
    ensures
        ({
            let found = prebuilts_found(places, mtimes, src);
            &&& forall|k: int|
                #![trigger found[k]]
                0 <= k < found.len() ==> {
                    let at = told_at(found[k].kind);
                    &&& found[k].path == places[at].path
                    &&& mtimes[at] == Some(found[k].mtime)
                    &&& found[k].freshness == freshness_of(src, found[k].mtime)
                }
            &&& forall|a: int, b: int|
                #![trigger found[a], found[b]]
                0 <= a < b < found.len() ==> told_at(found[a].kind) < told_at(found[b].kind)
            &&& mtimes[0] is Some ==> has_build(found, BinKind::Release)
            &&& mtimes[1] is Some ==> has_build(found, BinKind::Debug)
            &&& mtimes[2] is Some ==> has_build(found, BinKind::Installed)
        }),
{
    reveal_with_fuel(prebuilts_found, 4);
    let p2 = places.drop_last();
    let m2 = mtimes.drop_last();
    let p1 = p2.drop_last();
    let m1 = m2.drop_last();
    let p0 = p1.drop_last();
    let m0 = m1.drop_last();
    let f0 = prebuilts_found(p0, m0, src);
    let f1 = prebuilts_found(p1, m1, src);
    let f2 = prebuilts_found(p2, m2, src);
    let found = prebuilts_found(places, mtimes, src);
    assert(f0 == Seq::<Prebuilt>::empty());
    assert(p1.last() == places[0] && m1.last() == mtimes[0]);
    assert(p2.last() == places[1] && m2.last() == mtimes[1]);
    assert(places.last() == places[2] && mtimes.last() == mtimes[2]);
    if mtimes[0] is Some {
        assert(found[0].kind == BinKind::Release);
    }
    if mtimes[1] is Some {
        assert(found[f1.len() as int].kind == BinKind::Debug);
    }
    if mtimes[2] is Some {
        assert(found[f2.len() as int].kind == BinKind::Installed);
    }
}

/// What is found in the three places, sorted.
proof fn sorted_from_three_places(
    places: Seq<Candidate>,
    mtimes: Seq<Option<i128>>,
    src: Option<i128>,
    ps: Seq<Prebuilt>,
)
    requires
        places.len() == 3,
        mtimes.len() == 3,
        places[0].kind == BinKind::Release,
        places[1].kind == BinKind::Debug,
        places[2].kind == BinKind::Installed,
        stably_sorted(prebuilts_found(places, mtimes, src), ps),
    ensures
        forall|k: int|
            #![trigger ps[k]]
            0 <= k < ps.len() ==> ps[k].path == places[told_at(ps[k].kind)].path
                && mtimes[told_at(ps[k].kind)] == Some(ps[k].mtime),
        mtimes[0] is Some ==> has_build(ps, BinKind::Release),
        mtimes[1] is Some ==> has_build(ps, BinKind::Debug),
        mtimes[2] is Some ==> has_build(ps, BinKind::Installed),
        forall|a: int, b: int|
            #![trigger ps[a], ps[b]]
            0 <= a < b < ps.len() ==> ps[a].kind != ps[b].kind && ps[a].mtime >= ps[b].mtime && (
            ps[a].mtime == ps[b].mtime ==> told_at(ps[a].kind) < told_at(ps[b].kind)),
{
    let found = prebuilts_found(places, mtimes, src);
    found_in_three_places(places, mtimes, src);
    sorting_keeps_the_items(found, ps);
    assert forall|k: int| #![trigger ps[k]] 0 <= k < ps.len() implies {
        &&& ps[k].path == places[told_at(ps[k].kind)].path
        &&& mtimes[told_at(ps[k].kind)] == Some(ps[k].mtime)
    } by {
        assert(ps.contains(ps[k]));
        assert(found.contains(ps[k]));
        let x = choose|x: int| 0 <= x < found.len() && found[x] == ps[k];
        assert(found[x].path == places[told_at(found[x].kind)].path);
    }
    assert forall|kind: BinKind| #[trigger] has_build(found, kind) implies has_build(ps, kind) by {
        let x = choose|x: int| 0 <= x < found.len() && (#[trigger] found[x]).kind == kind;
        assert(found.contains(found[x]));
        assert(ps.contains(found[x]));
        let k = choose|k: int| 0 <= k < ps.len() && ps[k] == found[x];
        assert(ps[k].kind == kind);
    }
    assert(in_key_order(ps));
    assert forall|a: int, b: int| #![trigger ps[a], ps[b]] 0 <= a < b < ps.len() implies {
        &&& ps[a].kind != ps[b].kind
        &&& ps[a].mtime >= ps[b].mtime
        &&& ps[a].mtime == ps[b].mtime ==> told_at(ps[a].kind) < told_at(ps[b].kind)
    } by {
        assert(!Prebuilt::key_before(ps[b].key(), ps[a].key()));
        if ps[a].mtime == ps[b].mtime {
            let (x, y) = sorting_is_stable(found, ps, a, b);
            assert(told_at(found[x].kind) < told_at(found[y].kind));
        } else if ps[a].kind == ps[b].kind {
            assert(mtimes[told_at(ps[a].kind)] == Some(ps[a].mtime));
            assert(mtimes[told_at(ps[b].kind)] == Some(ps[b].mtime));
        }
    }
}

/// An app keeps its name, its description and its kind. Its binaries are those
/// that are there, each with its time: one for each kind of build at most,
/// newest first, and those of one age in the order release, debug, installed.
pub proof fn binaries_are_those_that_are_there(
    cat: CatalogView,
    survey: Survey,
    apps: Seq<AppView>,
    i: int,
)
    requires
        survey.covers(cat),
        are_resolved(cat, survey, apps),
        0 <= i < apps.len(),
    ensures
        apps.len() == cat.metas.len(),
        apps[i].name == cat.metas[i].name,
        apps[i].description == cat.metas[i].description,
        apps[i].kind == cat.metas[i].kind,
        forall|k: int|
            #![trigger apps[i].prebuilts[k]]
            0 <= k < apps[i].prebuilts.len() ==> {
                let p = apps[i].prebuilts[k];
                &&& p.path == place_of(
                    p.kind,
                    cat.target_dir,
                    survey.bin_dir,
                    cat.metas[i].bin + survey.exe_suffix@,
                )
                &&& survey.mtimes@[i]@[told_at(p.kind)] == Some(p.mtime)
            },
        survey.mtimes@[i]@[0] is Some ==> has_build(apps[i].prebuilts, BinKind::Release),
        survey.mtimes@[i]@[1] is Some ==> has_build(apps[i].prebuilts, BinKind::Debug),
        survey.mtimes@[i]@[2] is Some ==> has_build(apps[i].prebuilts, BinKind::Installed),
        forall|a: int, b: int|
            #![trigger apps[i].prebuilts[a], apps[i].prebuilts[b]]
            0 <= a < b < apps[i].prebuilts.len() ==> {
                let p = apps[i].prebuilts[a];
                let q = apps[i].prebuilts[b];
                &&& p.kind != q.kind
                &&& p.mtime >= q.mtime
                &&& p.mtime == q.mtime ==> told_at(p.kind) < told_at(q.kind)
            },
{
    let places = survey.places(cat, i);
    let mtimes = survey.mtimes@[i]@;
    let src = source_newest(cat, survey.newest@, cat.metas[i].id);
    assert(is_resolved(cat, survey.newest@, i, places, mtimes, apps[i]));
    assert(mtimes.len() == 3);
    sorted_from_three_places(places, mtimes, src, apps[i].prebuilts);
}

/// The source of a member that counts was changed after `mtime`: of one that
/// the app links, where the graph is known, or of any member.
pub open spec fn changed_since(
    cat: CatalogView,
    newest: Seq<Option<i128>>,
    app: Seq<char>,
    k: int,
    mtime: i128,
) -> bool {
    &&& 0 <= k < cat.member_ids.len()
    &&& newest[k] is Some
    &&& newest[k]->0 > mtime
    &&& cat.dep_graph ==> cat.closures.contains_key(app) && cat.closures[app].contains(
        cat.member_ids[k],
    )
}

/// A binary is stale exactly if the newest source of some member that counts is
/// newer than it; one of the same age is fresh.
pub proof fn a_binary_is_stale_exactly_if_a_source_is_newer(
    cat: CatalogView,
    survey: Survey,
    apps: Seq<AppView>,
    i: int,
    x: int,
)
    requires
        cat.member_ids.no_duplicates(),
        survey.covers(cat),
        are_resolved(cat, survey, apps),
        0 <= i < apps.len(),
        0 <= x < apps[i].prebuilts.len(),
    ensures
        apps[i].prebuilts[x].freshness == Freshness::Stale <==> exists|k: int| #[trigger]
            changed_since(
                cat,
                survey.newest@,
                cat.metas[i].id,
                k,
                apps[i].prebuilts[x].mtime,
            ),
{
    let newest = survey.newest@;
    let app = cat.metas[i].id;
    let mtime = apps[i].prebuilts[x].mtime;
    let ids = cat.member_ids;
    stale_exactly_if_a_linked_source_is_newer(
        cat,
        newest,
        i,
        survey.places(cat, i),
        survey.mtimes@[i]@,
        apps[i],
        x,
    );
    if apps[i].prebuilts[x].freshness == Freshness::Stale {
        let id = choose|id: Seq<char>| #[trigger]
            crate::resolve::counts_for(cat, app, id) && crate::resolve::edited_after(
                cat,
                newest,
                id,
                mtime,
            );
        let k = ids.index_of(id);
        assert(ids.contains(id));
        assert(ids[k] == id);
        assert(changed_since(cat, newest, app, k, mtime));
    }
    if exists|k: int| #[trigger] changed_since(cat, newest, app, k, mtime) {
        let k = choose|k: int| #[trigger] changed_since(cat, newest, app, k, mtime);
        assert(ids.contains(ids[k]));
        assert(ids.index_of(ids[k]) == k);
        assert(crate::resolve::counts_for(cat, app, ids[k]));
        assert(crate::resolve::edited_after(cat, newest, ids[k], mtime));
    }
}

/// Where release is preferred and there is a release binary, the one at `k` is;
/// otherwise none is newer than it.
pub open spec fn is_preferred(ps: Seq<Prebuilt>, prefer_release: bool, k: int) -> bool {
    if prefer_release && exists|j: int|
        0 <= j < ps.len() && (#[trigger] ps[j]).kind == BinKind::Release {
        ps[k].kind == BinKind::Release
    } else {
        forall|j: int| 0 <= j < ps.len() ==> (#[trigger] ps[j]).mtime <= ps[k].mtime
    }
}

/// The fast launch builds exactly if there is no binary. Otherwise it runs one
/// that is there: where release is preferred and there is a release binary,
/// that one; otherwise one that is as new as any.
pub proof fn the_fast_launch_runs_what_is_there(
    cat: CatalogView,
    survey: Survey,
    apps: Seq<AppView>,
    i: int,
)
    requires
        survey.covers(cat),
        are_resolved(cat, survey, apps),
        0 <= i < apps.len(),
    ensures
        apps[i].launch is BuildOnly <==> apps[i].prebuilts.len() == 0,
        apps[i].launch matches Launch::Prebuilt { path, freshness, kind } ==> exists|k: int|
            0 <= k < apps[i].prebuilts.len() && (#[trigger] apps[i].prebuilts[k]).path == path
                && apps[i].prebuilts[k].freshness == freshness && apps[i].prebuilts[k].kind == kind
                && is_preferred(apps[i].prebuilts, cat.prefer_release, k),
{
    let ps = apps[i].prebuilts;
    let places = survey.places(cat, i);
    let mtimes = survey.mtimes@[i]@;
    assert(is_resolved(cat, survey.newest@, i, places, mtimes, apps[i]));
    if ps.len() > 0 {
        fast_launch_runs_the_newest(cat, survey.newest@, i, places, mtimes, apps[i]);
        first_of_kind_is_first(ps, BinKind::Release);
        let k = crate::resolve::default_position(ps, cat.prefer_release);
        assert(in_key_order(ps));
        assert forall|j: int| k < j < ps.len() implies (#[trigger] ps[j]).mtime <= ps[k].mtime by {
            assert(!Prebuilt::key_before(ps[j].key(), ps[k].key()));
        }
        assert(ps[k].path == apps[i].launch->path);
        assert(is_preferred(ps, cat.prefer_release, k));
    }
}

} // verus!
