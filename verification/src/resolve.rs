//! How each app of a catalogue will be started, given what the file system
//! says of its binaries and of the workspace's sources.

use crate::cli::ConfigView;
use crate::discover::{
    app_views, catalogues_workspace, closures_follow_the_graph, scope_options_only_hide, AppEntry,
    AppView, BinKind, Catalog, CatalogView, Freshness, Launch, Prebuilt,
};
use crate::ordering::{
    in_key_order, sorting_keeps_the_items, stable_sort, stable_sort_is_unique, stably_sorted, Keyed,
};
use crate::paths::{is_same_place, join_path, joined_path, make_path, path_from, same_place};
use crate::text::{same_text, texts};
use crate::workspace::{links, member_edges};
use std::path::PathBuf;
use vstd::prelude::*;

verus! {

/// A place where a binary of an app may lie.
pub struct Candidate {
    pub kind: BinKind,
    pub path: PathBuf,
}

/// The places where the binary `bin` may lie: `release` and `debug` under the
/// target directory, and the cargo install directory.
pub open spec fn candidates_of(
    target_dir: PathBuf,
    bin_dir: PathBuf,
    bin: Seq<char>,
    exe_suffix: Seq<char>,
) -> Seq<Candidate> {
    let exe = bin + exe_suffix;
    seq![
        Candidate {
            kind: BinKind::Release,
            path: joined_path(joined_path(target_dir, "release"@), exe),
        },
        Candidate {
            kind: BinKind::Debug,
            path: joined_path(joined_path(target_dir, "debug"@), exe),
        },
        Candidate { kind: BinKind::Installed, path: joined_path(bin_dir, exe) },
    ]
}

/// The places where the binary `bin` may lie. `exe_suffix` is what the
/// platform puts behind the name of an executable.
pub fn candidates(target_dir: &PathBuf, bin_dir: &PathBuf, bin: &str, exe_suffix: &str) -> (r: Vec<
    Candidate,
>)
    ensures
        r@ == candidates_of(*target_dir, *bin_dir, bin@, exe_suffix@),
{
    let mut exe: String = bin.to_owned();
    exe.append(exe_suffix);
    let mut out: Vec<Candidate> = Vec::new();
    let release = join_path(&join_path(target_dir, "release"), exe.as_str());
    out.push(Candidate { kind: BinKind::Release, path: release });
    let debug = join_path(&join_path(target_dir, "debug"), exe.as_str());
    out.push(Candidate { kind: BinKind::Debug, path: debug });
    out.push(Candidate { kind: BinKind::Installed, path: join_path(bin_dir, exe.as_str()) });
    assert(out@ =~= candidates_of(*target_dir, *bin_dir, bin@, exe_suffix@));
    out
}

/// The cargo install bin dir: `$CARGO_HOME/bin`, else `.cargo/bin` in the home
/// directory, `$USERPROFILE` before `$HOME`.
pub open spec fn install_dir(
    cargo_home: Option<PathBuf>,
    user_profile: Option<PathBuf>,
    home: Option<PathBuf>,
) -> PathBuf {
    match cargo_home {
        Some(dir) => joined_path(dir, "bin"@),
        None => {
            let base = match user_profile {
                Some(dir) => dir,
                None => match home {
                    Some(dir) => dir,
                    None => path_from(""@),
                },
            };
            joined_path(joined_path(base, ".cargo"@), "bin"@)
        },
    }
}

/// The cargo install bin dir, from the environment's `CARGO_HOME`,
/// `USERPROFILE` and `HOME`.
pub fn cargo_bin_dir(
    cargo_home: Option<PathBuf>,
    user_profile: Option<PathBuf>,
    home: Option<PathBuf>,
) -> (r: PathBuf)
    ensures
        r == install_dir(cargo_home, user_profile, home),
{
    match cargo_home {
        Some(dir) => join_path(&dir, "bin"),
        None => {
            let base = match user_profile {
                Some(dir) => dir,
                None => match home {
                    Some(dir) => dir,
                    None => make_path(""),
                },
            };
            join_path(&join_path(&base, ".cargo"), "bin")
        },
    }
}

/// The latest of the points in time that are known.
pub open spec fn latest(times: Seq<Option<i128>>) -> Option<i128>
    decreases times.len(),
{
    if times.len() == 0 {
        None
    } else {
        later(latest(times.drop_last()), times.last())
    }
}

/// The later of two points in time, where they are known.
pub open spec fn later(a: Option<i128>, b: Option<i128>) -> Option<i128> {
    match (a, b) {
        (Some(x), Some(y)) => if y > x {
            Some(y)
        } else {
            Some(x)
        },
        (Some(x), None) => Some(x),
        (None, _) => b,
    }
}

/// The later of two points in time, where they are known.
fn later_of(a: Option<i128>, b: Option<i128>) -> (r: Option<i128>)
    ensures
        r == later(a, b),
{
    match (a, b) {
        (Some(x), Some(y)) => if y > x {
            Some(y)
        } else {
            Some(x)
        },
        (Some(x), None) => Some(x),
        (None, _) => b,
    }
}

/// The latest of `times` is one of them, and none of them is later.
pub proof fn latest_is_the_greatest(times: Seq<Option<i128>>)
    ensures
        latest(times) is Some ==> times.contains(latest(times)),
        forall|i: int|
            0 <= i < times.len() && (#[trigger] times[i]) is Some ==> latest(times) is Some
                && times[i]->0 <= latest(times)->0,
    decreases times.len(),
{
    if times.len() > 0 {
        let front = times.drop_last();
        latest_is_the_greatest(front);
        assert(times[times.len() - 1] == times.last());
        if front.contains(latest(front)) {
            let i = choose|i: int| 0 <= i < front.len() && front[i] == latest(front);
            assert(times[i] == latest(front));
        }
        assert forall|i: int|
            0 <= i < times.len() && (#[trigger] times[i]) is Some implies latest(times) is Some
            && times[i]->0 <= latest(times)->0 by {
            if i < front.len() {
                assert(front[i] == times[i]);
            }
        }
    }
}

/// The latest modification among source files; `None` stands for a file whose
/// time could not be read.
pub fn newest_mtime_in(times: &Vec<Option<i128>>) -> (r: Option<i128>)
    ensures
        r == latest(times@),
{
    let mut newest: Option<i128> = None;
    let mut i: usize = 0;
    assert(times@.take(0) =~= Seq::<Option<i128>>::empty());
    while i < times.len()
        invariant
            i <= times@.len(),
            newest == latest(times@.take(i as int)),
        decreases times@.len() - i,
    {
        newest = later_of(newest, times[i]);
        assert(times@.take(i + 1).drop_last() =~= times@.take(i as int));
        i = i + 1;
    }
    assert(times@.take(i as int) =~= times@);
    newest
}

/// An entry of a directory below that of a workspace member. `unicode` tells
/// whether the name was text to begin with; otherwise `name` holds it with
/// replacement characters. `is_member` tells whether it is the directory of
/// another member (see [`is_member_dir`]).
pub struct DirEntry {
    pub is_dir: bool,
    pub name: String,
    pub unicode: bool,
    pub is_member: bool,
}

/// What the search for sources does with a directory entry.
#[derive(Clone, Copy, PartialEq, Eq, Structural, Debug)]
pub enum WalkStep {
    /// A directory to search.
    Descend,
    /// A source file whose modification time counts.
    Consider,
    /// Anything else.
    Ignore,
}

/// The file name is that of Rust source: it is `Cargo.toml` or has the
/// extension `rs`.
pub open spec fn is_source_name(name: Seq<char>) -> bool {
    ||| name == "Cargo.toml"@
    ||| name.len() > 3 && name.skip(name.len() - 3) == ".rs"@
}

/// Directories for build output and hidden ones are not searched.
pub open spec fn is_skipped_dir(name: Seq<char>) -> bool {
    ||| name == "target"@
    ||| name.len() > 0 && name[0] == '.'
}

/// `path` is the directory of a workspace member.
pub open spec fn belongs_to_a_member(cat: CatalogView, path: PathBuf) -> bool {
    exists|id: Seq<char>| #[trigger]
        cat.member_dirs.contains_key(id) && same_place(path, cat.member_dirs[id])
}

/// What the search for a member's sources does with a directory entry. The
/// directory of another member is left to the search for that one's, so that
/// an edit there counts only for the apps that link it.
pub open spec fn step_for(entry: DirEntry) -> WalkStep {
    if entry.is_dir {
        if entry.is_member || (entry.unicode && is_skipped_dir(entry.name@)) {
            WalkStep::Ignore
        } else {
            WalkStep::Descend
        }
    } else if is_source_name(entry.name@) {
        WalkStep::Consider
    } else {
        WalkStep::Ignore
    }
}

/// Is this the name of a Rust source file?
pub fn is_source_file(name: &str) -> (r: bool)
    ensures
        r == is_source_name(name@),
{
    if same_text(name, "Cargo.toml") {
        return true;
    }
    let n: usize = name.unicode_len();
    if n <= 3 {
        return false;
    }
    assert(name@.subrange(n - 3, n as int) =~= name@.skip(n - 3));
    same_text(name.substring_char(n - 3, n), ".rs")
}

/// Is `path` the directory of a workspace member?
pub fn is_member_dir(cat: &Catalog, path: &PathBuf) -> (r: bool)
    requires
        cat.wf(),
    ensures
        r == belongs_to_a_member(cat@, *path),
{
    let ghost ids = cat@.member_ids;
    proof {
        cat.member_dirs.keys_are_the_domain();
    }
    let mut i: usize = 0;
    while i < cat.member_dirs.len()
        invariant
            cat.wf(),
            ids == cat.member_dirs.keys(),
            i <= ids.len(),
            forall|j: int|
                0 <= j < i ==> !same_place(*path, cat.member_dirs@[#[trigger] ids[j]]),
        decreases ids.len() - i,
    {
        if is_same_place(path, cat.member_dirs.value_at(i)) {
            assert(cat@.member_dirs.contains_key(ids[i as int]));
            return true;
        }
        i = i + 1;
    }
    proof {
        assert forall|id: Seq<char>| #[trigger]
            cat@.member_dirs.contains_key(id) implies !same_place(*path, cat@.member_dirs[id]) by {
            assert(ids.contains(id));
            let j = choose|j: int| 0 <= j < ids.len() && ids[j] == id;
            assert(!same_place(*path, cat.member_dirs@[ids[j]]));
        }
    }
    false
}

/// What the search for sources does with a directory entry. The root
/// `Cargo.lock` is not a source: a lock bump does not rebuild an unaffected
/// app, which would strand it stale.
pub fn walk_step(entry: &DirEntry) -> (r: WalkStep)
    ensures
        r == step_for(*entry),
{
    if entry.is_dir {
        let hidden = entry.name.as_str().unicode_len() > 0 && entry.name.as_str().get_char(0) == '.';
        let skipped = same_text(entry.name.as_str(), "target") || hidden;
        if entry.is_member || (entry.unicode && skipped) {
            WalkStep::Ignore
        } else {
            WalkStep::Descend
        }
    } else if is_source_file(entry.name.as_str()) {
        WalkStep::Consider
    } else {
        WalkStep::Ignore
    }
}

/// A binary is stale if a source is newer than it.
pub open spec fn freshness_of(src_newest: Option<i128>, mtime: i128) -> Freshness {
    if src_newest is Some && src_newest->0 > mtime {
        Freshness::Stale
    } else {
        Freshness::Fresh
    }
}

/// The binaries that exist: each place with a modification time, in order.
pub open spec fn prebuilts_found(
    places: Seq<Candidate>,
    mtimes: Seq<Option<i128>>,
    src_newest: Option<i128>,
) -> Seq<Prebuilt>
    decreases places.len(),
{
    if places.len() == 0 {
        Seq::empty()
    } else {
        let front = prebuilts_found(places.drop_last(), mtimes.drop_last(), src_newest);
        match mtimes.last() {
            Some(mtime) => front.push(
                Prebuilt {
                    kind: places.last().kind,
                    path: places.last().path,
                    freshness: freshness_of(src_newest, mtime),
                    mtime,
                },
            ),
            None => front,
        }
    }
}

/// The position of the first binary of a kind, or the number of binaries.
pub open spec fn first_of_kind(prebuilts: Seq<Prebuilt>, kind: BinKind) -> int
    decreases prebuilts.len(),
{
    if prebuilts.len() == 0 {
        0
    } else if prebuilts[0].kind == kind {
        0
    } else {
        1 + first_of_kind(prebuilts.drop_first(), kind)
    }
}

/// The first binary of a kind.
pub open spec fn of_kind(prebuilts: Seq<Prebuilt>, kind: BinKind) -> Option<Prebuilt> {
    let i = first_of_kind(prebuilts, kind);
    if i < prebuilts.len() {
        Some(prebuilts[i])
    } else {
        None
    }
}

/// Where `first_of_kind` points.
pub proof fn first_of_kind_is_first(prebuilts: Seq<Prebuilt>, kind: BinKind)
    ensures
        0 <= first_of_kind(prebuilts, kind) <= prebuilts.len(),
        first_of_kind(prebuilts, kind) < prebuilts.len() ==> prebuilts[first_of_kind(
            prebuilts,
            kind,
        )].kind == kind,
        forall|j: int|
            0 <= j < first_of_kind(prebuilts, kind) ==> (#[trigger] prebuilts[j]).kind != kind,
    decreases prebuilts.len(),
{
    if prebuilts.len() > 0 && prebuilts[0].kind != kind {
        let rest = prebuilts.drop_first();
        first_of_kind_is_first(rest, kind);
        assert forall|j: int| 0 <= j < first_of_kind(prebuilts, kind) implies (
        #[trigger] prebuilts[j]).kind != kind by {
            if j > 0 {
                assert(rest[j - 1] == prebuilts[j]);
            }
        }
    }
}

/// The position of the first binary of a kind, or the number of binaries.
fn find_kind(prebuilts: &Vec<Prebuilt>, kind: BinKind) -> (r: usize)
    ensures
        r == first_of_kind(prebuilts@, kind),
        r <= prebuilts@.len(),
{
    let mut i: usize = 0;
    proof {
        first_of_kind_is_first(prebuilts@, kind);
    }
    while i < prebuilts.len()
        invariant
            i <= prebuilts@.len(),
            0 <= first_of_kind(prebuilts@, kind) <= prebuilts@.len(),
            first_of_kind(prebuilts@, kind) < prebuilts@.len() ==> prebuilts@[first_of_kind(
                prebuilts@,
                kind,
            )].kind == kind,
            forall|j: int|
                0 <= j < first_of_kind(prebuilts@, kind) ==> (#[trigger] prebuilts@[j]).kind != kind,
            forall|j: int| 0 <= j < i ==> (#[trigger] prebuilts@[j]).kind != kind,
        decreases prebuilts@.len() - i,
    {
        if prebuilts[i].kind == kind {
            return i;
        }
        i = i + 1;
    }
    i
}

/// The first binary of a kind.
pub fn prebuilt_of_kind(prebuilts: &Vec<Prebuilt>, kind: BinKind) -> (r: Option<&Prebuilt>)
    ensures
        r is Some <==> of_kind(prebuilts@, kind) is Some,
        r matches Some(p) ==> *p == of_kind(prebuilts@, kind)->0,
{
    let i = find_kind(prebuilts, kind);
    if i < prebuilts.len() {
        Some(&prebuilts[i])
    } else {
        None
    }
}

/// The position of the binary that the fast launch runs: the first one, or the
/// first release binary where release is preferred and there is one.
pub open spec fn default_position(prebuilts: Seq<Prebuilt>, prefer_release: bool) -> int {
    if prefer_release && of_kind(prebuilts, BinKind::Release) is Some {
        first_of_kind(prebuilts, BinKind::Release)
    } else {
        0
    }
}

/// The fast launch of an app with these binaries.
pub open spec fn default_launch(prebuilts: Seq<Prebuilt>, prefer_release: bool) -> Launch {
    if prebuilts.len() == 0 {
        Launch::BuildOnly
    } else {
        let p = prebuilts[default_position(prebuilts, prefer_release)];
        Launch::Prebuilt { path: p.path, freshness: p.freshness, kind: p.kind }
    }
}

/// The binaries of one app, newest first, and the one that the fast launch
/// runs. `mtimes` holds the modification time of each place, if a binary is
/// there; `src_newest` is that of the newest source the app links.
pub fn resolve_launch(
    places: &Vec<Candidate>,
    mtimes: &Vec<Option<i128>>,
    src_newest: Option<i128>,
    prefer_release: bool,
) -> (r: (Launch, Vec<Prebuilt>))
    requires
        places@.len() == mtimes@.len(),
    ensures
        stably_sorted(prebuilts_found(places@, mtimes@, src_newest), r.1@),
        r.0 == default_launch(r.1@, prefer_release),
{
    let mut found: Vec<Prebuilt> = Vec::new();
    let mut i: usize = 0;
    assert(places@.take(0) =~= Seq::<Candidate>::empty());
    while i < places.len()
        invariant
            i <= places@.len(),
            places@.len() == mtimes@.len(),
            found@ == prebuilts_found(
                places@.take(i as int),
                mtimes@.take(i as int),
                src_newest,
            ),
        decreases places@.len() - i,
    {
        proof {
            assert(places@.take(i + 1).drop_last() =~= places@.take(i as int));
            assert(mtimes@.take(i + 1).drop_last() =~= mtimes@.take(i as int));
        }
        match mtimes[i] {
            Some(mtime) => {
                let freshness = match src_newest {
                    Some(s) => if s > mtime {
                        Freshness::Stale
                    } else {
                        Freshness::Fresh
                    },
                    None => Freshness::Fresh,
                };
                let kind = places[i].kind;
                found.push(Prebuilt { kind, path: places[i].path.clone(), freshness, mtime });
            },
            None => {},
        }
        i = i + 1;
    }
    assert(places@.take(i as int) =~= places@);
    assert(mtimes@.take(i as int) =~= mtimes@);
    let prebuilts = stable_sort(found);
    let release = prebuilt_of_kind(&prebuilts, BinKind::Release);
    let default: Option<&Prebuilt> = if prefer_release && release.is_some() {
        release
    } else if prebuilts.len() > 0 {
        Some(&prebuilts[0])
    } else {
        None
    };
    let launch = match default {
        Some(p) => Launch::Prebuilt { path: p.path.clone(), freshness: p.freshness, kind: p.kind },
        None => Launch::BuildOnly,
    };
    (launch, prebuilts)
}

/// The newest source time of the member `id`, where `newest` holds those of
/// the members `ids`.
pub open spec fn member_time(
    ids: Seq<Seq<char>>,
    newest: Seq<Option<i128>>,
    id: Seq<char>,
) -> Option<i128> {
    if ids.contains(id) {
        newest[ids.index_of(id)]
    } else {
        None
    }
}

/// The source times of the members `linked`.
pub open spec fn linked_times(
    ids: Seq<Seq<char>>,
    newest: Seq<Option<i128>>,
    linked: Seq<Seq<char>>,
) -> Seq<Option<i128>> {
    linked.map_values(|id: Seq<char>| member_time(ids, newest, id))
}

/// The time of the newest source that counts for the app `id`: among the
/// members that it links, or among all where the graph is not known.
pub open spec fn source_newest(
    cat: CatalogView,
    newest: Seq<Option<i128>>,
    id: Seq<char>,
) -> Option<i128> {
    if cat.dep_graph {
        if cat.closures.contains_key(id) {
            latest(linked_times(cat.member_ids, newest, cat.closures[id]))
        } else {
            None
        }
    } else {
        latest(newest)
    }
}

/// `entry` is the app at position `i` of the catalogue, resolved.
pub open spec fn is_resolved(
    cat: CatalogView,
    newest: Seq<Option<i128>>,
    i: int,
    places: Seq<Candidate>,
    mtimes: Seq<Option<i128>>,
    entry: AppView,
) -> bool {
    let meta = cat.metas[i];
    &&& entry.name == meta.name
    &&& entry.description == meta.description
    &&& entry.kind == meta.kind
    &&& stably_sorted(
        prebuilts_found(places, mtimes, source_newest(cat, newest, meta.id)),
        entry.prebuilts,
    )
    &&& entry.launch == default_launch(entry.prebuilts, cat.prefer_release)
}

/// What the machine says: the cargo install directory, what stands behind the
/// name of an executable, the newest source time of each member, in the order
/// of the catalogue's member directories, and for each app the times of the
/// binaries that exist, in the order of its [`candidates`].
pub struct Survey {
    pub bin_dir: PathBuf,
    pub exe_suffix: String,
    pub newest: Vec<Option<i128>>,
    pub mtimes: Vec<Vec<Option<i128>>>,
}

impl Survey {
    /// The survey covers the members and apps of the catalogue.
    pub open spec fn covers(&self, cat: CatalogView) -> bool {
        &&& self.newest@.len() == cat.member_ids.len()
        &&& self.mtimes@.len() == cat.metas.len()
        &&& forall|i: int| 0 <= i < cat.metas.len() ==> (#[trigger] self.mtimes@[i])@.len() == 3
    }

    /// The places where the binaries of an app may lie.
    pub open spec fn places(&self, cat: CatalogView, i: int) -> Seq<Candidate> {
        candidates_of(cat.target_dir, self.bin_dir, cat.metas[i].bin, self.exe_suffix@)
    }
}

/// `apps` are the apps of the catalogue, resolved by the survey.
pub open spec fn are_resolved(cat: CatalogView, survey: Survey, apps: Seq<AppView>) -> bool {
    &&& apps.len() == cat.metas.len()
    &&& forall|i: int|
        0 <= i < apps.len() ==> is_resolved(
            cat,
            survey.newest@,
            i,
            survey.places(cat, i),
            survey.mtimes@[i]@,
            #[trigger] apps[i],
        )
}

/// The places where the binaries of each app of the catalogue may lie.
pub fn probe_plan(cat: &Catalog, bin_dir: &PathBuf, exe_suffix: &str) -> (r: Vec<Vec<Candidate>>)
    ensures
        r@.len() == cat@.metas.len(),
        forall|i: int|
            0 <= i < r@.len() ==> (#[trigger] r@[i])@ == candidates_of(
                cat.target_dir,
                *bin_dir,
                cat@.metas[i].bin,
                exe_suffix@,
            ),
{
    let mut out: Vec<Vec<Candidate>> = Vec::new();
    let mut i: usize = 0;
    while i < cat.metas.len()
        invariant
            i <= cat.metas@.len(),
            out@.len() == i,
            forall|j: int|
                0 <= j < i ==> (#[trigger] out@[j])@ == candidates_of(
                    cat.target_dir,
                    *bin_dir,
                    cat@.metas[j].bin,
                    exe_suffix@,
                ),
        decreases cat.metas@.len() - i,
    {
        out.push(candidates(&cat.target_dir, bin_dir, cat.metas[i].bin.as_str(), exe_suffix));
        i = i + 1;
    }
    out
}

/// The time of the newest source that counts for an app.
fn newest_source(cat: &Catalog, newest: &Vec<Option<i128>>, id: &str) -> (r: Option<i128>)
    requires
        cat.wf(),
        newest@.len() == cat@.member_ids.len(),
    ensures
        r == source_newest(cat@, newest@, id@),
{
    if !cat.dep_graph {
        return newest_mtime_in(newest);
    }
    match cat.closures.get(id) {
        Some(linked) => {
            let ghost ids = cat@.member_ids;
            let mut times: Vec<Option<i128>> = Vec::new();
            let mut i: usize = 0;
            proof {
                cat.member_dirs.keys_are_the_domain();
                assert(cat@.closures[id@] == texts(linked@));
            }
            while i < linked.len()
                invariant
                    cat.wf(),
                    ids == cat.member_dirs.keys(),
                    ids.no_duplicates(),
                    forall|k: Seq<char>| #[trigger]
                        ids.contains(k) <==> cat.member_dirs@.contains_key(k),
                    newest@.len() == ids.len(),
                    i <= linked@.len(),
                    times@.len() == i,
                    forall|j: int|
                        0 <= j < i ==> #[trigger] times@[j] == member_time(
                            ids,
                            newest@,
                            linked@[j]@,
                        ),
                decreases linked@.len() - i,
            {
                let time: Option<i128> = match cat.member_dirs.position(linked[i].as_str()) {
                    Some(at) => {
                        assert(ids.contains(linked@[i as int]@)) by {
                            assert(ids[at as int] == linked@[i as int]@);
                        }
                        assert(ids.index_of(linked@[i as int]@) == at as int);
                        newest[at]
                    },
                    None => None,
                };
                times.push(time);
                i = i + 1;
            }
            assert(times@ =~= linked_times(ids, newest@, texts(linked@)));
            newest_mtime_in(&times)
        },
        None => None,
    }
}

/// Resolves each app's prebuilt binaries and freshness.
pub fn resolve(cat: &Catalog, survey: &Survey) -> (r: Vec<AppEntry>)
    requires
        cat.wf(),
        survey.covers(cat@),
    ensures
        are_resolved(cat@, *survey, app_views(r@)),
{
    let mut apps: Vec<AppEntry> = Vec::new();
    let mut i: usize = 0;
    while i < cat.metas.len()
        invariant
            cat.wf(),
            survey.covers(cat@),
            i <= cat.metas@.len(),
            apps@.len() == i,
            forall|j: int|
                0 <= j < i ==> is_resolved(
                    cat@,
                    survey.newest@,
                    j,
                    survey.places(cat@, j),
                    survey.mtimes@[j]@,
                    (#[trigger] apps@[j])@,
                ),
        decreases cat.metas@.len() - i,
    {
        let meta = &cat.metas[i];
        assert(cat@.metas[i as int] == meta@);
        let src_newest = newest_source(cat, &survey.newest, meta.id.as_str());
        let places = candidates(
            &cat.target_dir,
            &survey.bin_dir,
            meta.bin.as_str(),
            survey.exe_suffix.as_str(),
        );
        let (launch, prebuilts) = resolve_launch(
            &places,
            &survey.mtimes[i],
            src_newest,
            cat.prefer_release,
        );
        apps.push(
            AppEntry {
                name: meta.name.clone(),
                description: meta.description.clone(),
                kind: meta.kind,
                launch,
                prebuilts,
            },
        );
        i = i + 1;
    }
    apps
}

/// The member `id` counts for the freshness of the app `app`: the app links
/// it, or the graph is not known.
pub open spec fn counts_for(cat: CatalogView, app: Seq<char>, id: Seq<char>) -> bool {
    if cat.dep_graph {
        cat.closures.contains_key(app) && cat.closures[app].contains(id)
    } else {
        cat.member_ids.contains(id)
    }
}

/// The source of the member `id` is newer than `mtime`.
pub open spec fn edited_after(
    cat: CatalogView,
    newest: Seq<Option<i128>>,
    id: Seq<char>,
    mtime: i128,
) -> bool {
    member_time(cat.member_ids, newest, id) is Some && member_time(
        cat.member_ids,
        newest,
        id,
    )->0 > mtime
}

/// Every binary that is found has its freshness by the newest source.
proof fn found_freshness(
    places: Seq<Candidate>,
    mtimes: Seq<Option<i128>>,
    src_newest: Option<i128>,
    p: Prebuilt,
)
    requires
        places.len() == mtimes.len(),
        prebuilts_found(places, mtimes, src_newest).contains(p),
    ensures
        p.freshness == freshness_of(src_newest, p.mtime),
        exists|i: int|
            0 <= i < places.len() && #[trigger] places[i].kind == p.kind && places[i].path == p.path
                && mtimes[i] == Some(p.mtime),
    decreases places.len(),
{
    if places.len() > 0 {
        let front = prebuilts_found(places.drop_last(), mtimes.drop_last(), src_newest);
        let all = prebuilts_found(places, mtimes, src_newest);
        let k = choose|k: int| 0 <= k < all.len() && all[k] == p;
        if k < front.len() {
            assert(front[k] == p);
            found_freshness(places.drop_last(), mtimes.drop_last(), src_newest, p);
            let i = choose|i: int|
                0 <= i < places.drop_last().len() && #[trigger] places.drop_last()[i].kind == p.kind
                    && places.drop_last()[i].path == p.path && mtimes.drop_last()[i] == Some(
                    p.mtime,
                );
            assert(places[i].kind == p.kind);
        } else {
            assert(places[places.len() - 1].kind == p.kind);
        }
    }
}

/// Each place with a binary yields one, and only those do.
proof fn found_count(places: Seq<Candidate>, mtimes: Seq<Option<i128>>, src_newest: Option<i128>)
    requires
        places.len() == mtimes.len(),
    ensures
        prebuilts_found(places, mtimes, src_newest).len() == 0 <==> (forall|i: int|
            0 <= i < mtimes.len() ==> (#[trigger] mtimes[i]) is None),
    decreases places.len(),
{
    if places.len() > 0 {
        let fm = mtimes.drop_last();
        found_count(places.drop_last(), fm, src_newest);
        assert(mtimes[mtimes.len() - 1] == mtimes.last());
        if forall|i: int| 0 <= i < mtimes.len() ==> (#[trigger] mtimes[i]) is None {
            assert forall|i: int| 0 <= i < fm.len() implies (#[trigger] fm[i]) is None by {
                assert(fm[i] == mtimes[i]);
            }
        }
        if forall|i: int| 0 <= i < fm.len() ==> (#[trigger] fm[i]) is None {
            if mtimes.last() is None {
                assert forall|i: int| 0 <= i < mtimes.len() implies (
                #[trigger] mtimes[i]) is None by {
                    if i < fm.len() {
                        assert(fm[i] == mtimes[i]);
                    }
                }
            }
        }
    }
}

/// A binary of an app is stale exactly if a member that counts for the app
/// (one that it links, where the graph is known) has source newer than it.
pub proof fn stale_exactly_if_a_linked_source_is_newer(
    cat: CatalogView,
    newest: Seq<Option<i128>>,
    i: int,
    places: Seq<Candidate>,
    mtimes: Seq<Option<i128>>,
    entry: AppView,
    k: int,
)
    requires
        cat.member_ids.no_duplicates(),
        newest.len() == cat.member_ids.len(),
        places.len() == mtimes.len(),
        is_resolved(cat, newest, i, places, mtimes, entry),
        0 <= k < entry.prebuilts.len(),
    ensures
        entry.prebuilts[k].freshness == Freshness::Stale <==> exists|id: Seq<char>| #[trigger]
            counts_for(cat, cat.metas[i].id, id) && edited_after(
                cat,
                newest,
                id,
                entry.prebuilts[k].mtime,
            ),
{
    let app = cat.metas[i].id;
    let src = source_newest(cat, newest, app);
    let p = entry.prebuilts[k];
    let found = prebuilts_found(places, mtimes, src);
    sorting_keeps_the_items(found, entry.prebuilts);
    assert(entry.prebuilts.contains(p));
    assert(found.contains(p));
    found_freshness(places, mtimes, src, p);
    let ids = cat.member_ids;
    if cat.dep_graph {
        if cat.closures.contains_key(app) {
            let linked = cat.closures[app];
            let times = linked_times(ids, newest, linked);
            latest_is_the_greatest(times);
            if p.freshness == Freshness::Stale {
                let j = choose|j: int| 0 <= j < times.len() && times[j] == latest(times);
                assert(linked.contains(linked[j]));
                assert(counts_for(cat, app, linked[j]));
                assert(edited_after(cat, newest, linked[j], p.mtime));
            }
            if exists|id: Seq<char>| #[trigger]
                counts_for(cat, app, id) && edited_after(cat, newest, id, p.mtime) {
                let id = choose|id: Seq<char>| #[trigger]
                    counts_for(cat, app, id) && edited_after(cat, newest, id, p.mtime);
                let j = choose|j: int| 0 <= j < linked.len() && linked[j] == id;
                assert(times[j] == member_time(ids, newest, id));
            }
        }
    } else {
        latest_is_the_greatest(newest);
        if p.freshness == Freshness::Stale {
            let j = choose|j: int| 0 <= j < newest.len() && newest[j] == latest(newest);
            assert(ids.contains(ids[j]));
            assert(ids.index_of(ids[j]) == j);
            assert(counts_for(cat, app, ids[j]));
            assert(edited_after(cat, newest, ids[j], p.mtime));
        }
        if exists|id: Seq<char>| #[trigger]
            counts_for(cat, app, id) && edited_after(cat, newest, id, p.mtime) {
            let id = choose|id: Seq<char>| #[trigger]
                counts_for(cat, app, id) && edited_after(cat, newest, id, p.mtime);
            assert(newest[ids.index_of(id)] is Some);
        }
    }
}

/// Where the workspace was loaded with its graph, a binary of an app is stale
/// exactly if a member that the app links, directly or not, has source newer
/// than it.
pub proof fn freshness_follows_the_graph(
    cat: CatalogView,
    cfg: ConfigView,
    ws: portside::Workspace,
    survey: Survey,
    apps: Seq<AppView>,
    i: int,
    k: int,
)
    requires
        catalogues_workspace(cat, cfg, ws),
        member_edges(ws) is Some,
        survey.covers(cat),
        are_resolved(cat, survey, apps),
        0 <= i < apps.len(),
        0 <= k < apps[i].prebuilts.len(),
    ensures
        apps[i].prebuilts[k].freshness == Freshness::Stale <==> exists|id: Seq<char>| #[trigger]
            links(member_edges(ws)->0, cat.metas[i].id, id) && edited_after(
                cat,
                survey.newest@,
                id,
                apps[i].prebuilts[k].mtime,
            ),
{
    let app = cat.metas[i].id;
    let edges = member_edges(ws)->0;
    let newest = survey.newest@;
    let mtime = apps[i].prebuilts[k].mtime;
    closures_follow_the_graph(cat, cfg, ws, i);
    stale_exactly_if_a_linked_source_is_newer(
        cat,
        newest,
        i,
        survey.places(cat, i),
        survey.mtimes@[i]@,
        apps[i],
        k,
    );
    if exists|id: Seq<char>| #[trigger]
        counts_for(cat, app, id) && edited_after(cat, newest, id, mtime) {
        let id = choose|id: Seq<char>| #[trigger]
            counts_for(cat, app, id) && edited_after(cat, newest, id, mtime);
        assert(links(edges, app, id));
    }
    if exists|id: Seq<char>| #[trigger]
        links(edges, app, id) && edited_after(cat, newest, id, mtime) {
        let id = choose|id: Seq<char>| #[trigger]
            links(edges, app, id) && edited_after(cat, newest, id, mtime);
        assert(counts_for(cat, app, id));
    }
}

/// Editing a crate that an app does not link changes nothing for the app:
/// where two surveys agree on the members it links, they give it the same
/// newest source, and so the same binaries and the same launch.
pub proof fn unrelated_edits_do_not_count(
    cat: CatalogView,
    before: Seq<Option<i128>>,
    after: Seq<Option<i128>>,
    i: int,
    places: Seq<Candidate>,
    mtimes: Seq<Option<i128>>,
    entry_before: AppView,
    entry_after: AppView,
)
    requires
        cat.dep_graph,
        forall|id: Seq<char>| #[trigger]
            counts_for(cat, cat.metas[i].id, id) ==> member_time(cat.member_ids, before, id)
                == member_time(cat.member_ids, after, id),
        is_resolved(cat, before, i, places, mtimes, entry_before),
        is_resolved(cat, after, i, places, mtimes, entry_after),
    ensures
        source_newest(cat, before, cat.metas[i].id) == source_newest(cat, after, cat.metas[i].id),
        entry_before == entry_after,
{
    let app = cat.metas[i].id;
    if cat.closures.contains_key(app) {
        let linked = cat.closures[app];
        let a = linked_times(cat.member_ids, before, linked);
        let b = linked_times(cat.member_ids, after, linked);
        assert forall|j: int| 0 <= j < linked.len() implies a[j] == b[j] by {
            assert(linked.contains(linked[j]));
            assert(counts_for(cat, app, linked[j]));
        }
        assert(a =~= b);
    }
    stable_sort_is_unique(
        prebuilts_found(places, mtimes, source_newest(cat, before, app)),
        entry_before.prebuilts,
        entry_after.prebuilts,
    );
}

/// The latest of some points in time does not depend on their order.
proof fn latest_depends_on_the_times(a: Seq<Option<i128>>, b: Seq<Option<i128>>)
    requires
        forall|t: i128| #[trigger] a.contains(Some(t)) <==> b.contains(Some(t)),
    ensures
        latest(a) == latest(b),
{
    latest_is_the_greatest(a);
    latest_is_the_greatest(b);
    if latest(a) is Some {
        let t = latest(a)->0;
        assert(a.contains(Some(t)));
        let i = choose|i: int| 0 <= i < b.len() && b[i] == Some(t);
        assert(b[i] is Some);
    }
    if latest(b) is Some {
        let t = latest(b)->0;
        assert(b.contains(Some(t)));
        assert(a.contains(Some(t)));
        let i = choose|i: int| 0 <= i < a.len() && a[i] == Some(t);
        assert(a[i] is Some);
    }
}

/// The source times of two lists of members agree where the lists hold the
/// same members and the two surveys the same times.
proof fn same_members_same_times(
    ids: Seq<Seq<char>>,
    newest: Seq<Option<i128>>,
    linked: Seq<Seq<char>>,
    other_ids: Seq<Seq<char>>,
    other_newest: Seq<Option<i128>>,
    other_linked: Seq<Seq<char>>,
)
    requires
        forall|id: Seq<char>| #[trigger] linked.contains(id) <==> other_linked.contains(id),
        forall|id: Seq<char>| #[trigger]
            member_time(ids, newest, id) == member_time(other_ids, other_newest, id),
    ensures
        latest(linked_times(ids, newest, linked)) == latest(
            linked_times(other_ids, other_newest, other_linked),
        ),
{
    let a = linked_times(ids, newest, linked);
    let b = linked_times(other_ids, other_newest, other_linked);
    assert forall|t: i128| #[trigger] a.contains(Some(t)) <==> b.contains(Some(t)) by {
        if a.contains(Some(t)) {
            let x = choose|x: int| 0 <= x < a.len() && a[x] == Some(t);
            assert(linked.contains(linked[x]));
            let y = choose|y: int| 0 <= y < other_linked.len() && other_linked[y] == linked[x];
            assert(member_time(ids, newest, linked[x]) == Some(t));
            assert(b[y] == Some(t));
        }
        if b.contains(Some(t)) {
            let y = choose|y: int| 0 <= y < b.len() && b[y] == Some(t);
            assert(other_linked.contains(other_linked[y]));
            assert(linked.contains(other_linked[y]));
            let x = choose|x: int| 0 <= x < linked.len() && linked[x] == other_linked[y];
            assert(member_time(ids, newest, linked[x]) == Some(t));
            assert(a[x] == Some(t));
        }
    }
    latest_depends_on_the_times(a, b);
}

/// The times of all members are the times of the members.
proof fn all_times_are_linked_times(ids: Seq<Seq<char>>, newest: Seq<Option<i128>>)
    requires
        ids.no_duplicates(),
        newest.len() == ids.len(),
    ensures
        linked_times(ids, newest, ids) == newest,
{
    assert forall|i: int| 0 <= i < ids.len() implies linked_times(ids, newest, ids)[i]
        == newest[i] by {
        assert(ids.contains(ids[i]));
        assert(ids.index_of(ids[i]) == i);
    }
    assert(linked_times(ids, newest, ids) =~= newest);
}

/// Two surveys, of the catalogues `a` and `b`, tell of the same machine and the
/// same files: each member has the same newest source in both, and binaries in
/// the same places have the same times.
pub open spec fn same_files(a: CatalogView, s: Survey, b: CatalogView, t: Survey) -> bool {
    &&& s.bin_dir == t.bin_dir
    &&& s.exe_suffix@ == t.exe_suffix@
    &&& forall|id: Seq<char>| #[trigger]
        member_time(a.member_ids, s.newest@, id) == member_time(b.member_ids, t.newest@, id)
    &&& forall|i: int, j: int|
        #![trigger s.mtimes@[i], t.mtimes@[j]]
        0 <= i < a.metas.len() && 0 <= j < b.metas.len() && s.places(a, i) == t.places(b, j)
            ==> s.mtimes@[i]@ == t.mtimes@[j]@
}

/// `--subfolder` and `--filter` hide apps but change nothing of the others:
/// with the files unchanged, every app that is listed with them stands in the
/// full list with the same kind, launch and binaries, freshness among them,
/// for the sources of hidden members still count.
pub proof fn scope_options_never_change_an_app(
    c: CatalogView,
    cfg: ConfigView,
    full: CatalogView,
    open: ConfigView,
    ws: portside::Workspace,
    survey: Survey,
    full_survey: Survey,
    apps: Seq<AppView>,
    full_apps: Seq<AppView>,
    i: int,
)
    requires
        catalogues_workspace(c, cfg, ws),
        catalogues_workspace(full, open, ws),
        open.subfolder is None,
        open.filter is None,
        open.prefer_release == cfg.prefer_release,
        survey.covers(c),
        full_survey.covers(full),
        same_files(c, survey, full, full_survey),
        are_resolved(c, survey, apps),
        are_resolved(full, full_survey, full_apps),
        0 <= i < apps.len(),
    ensures
        exists|j: int| 0 <= j < full_apps.len() && #[trigger] full_apps[j] == apps[i],
{
    scope_options_only_hide(c, cfg, full, open, ws, i);
    let j = choose|j: int| 0 <= j < full.metas.len() && #[trigger] full.metas[j] == c.metas[i];
    let app = c.metas[i].id;
    closures_follow_the_graph(c, cfg, ws, i);
    closures_follow_the_graph(full, open, ws, j);
    let newest = survey.newest@;
    let full_newest = full_survey.newest@;
    let src = source_newest(c, newest, app);
    assert(src == source_newest(full, full_newest, app)) by {
        if c.dep_graph {
            let a = c.closures[app];
            let b = full.closures[app];
            assert forall|id: Seq<char>| #[trigger] a.contains(id) <==> b.contains(id) by {
                assert(a.contains(id) <==> links(member_edges(ws)->0, app, id));
                assert(b.contains(id) <==> links(member_edges(ws)->0, app, id));
            }
            same_members_same_times(c.member_ids, newest, a, full.member_ids, full_newest, b);
        } else {
            all_times_are_linked_times(c.member_ids, newest);
            all_times_are_linked_times(full.member_ids, full_newest);
            same_members_same_times(
                c.member_ids,
                newest,
                c.member_ids,
                full.member_ids,
                full_newest,
                full.member_ids,
            );
        }
    }
    let places = survey.places(c, i);
    let mtimes = survey.mtimes@[i]@;
    assert(places == full_survey.places(full, j));
    assert(mtimes == full_survey.mtimes@[j]@);
    assert(is_resolved(c, newest, i, places, mtimes, apps[i]));
    assert(is_resolved(full, full_newest, j, places, mtimes, full_apps[j]));
    stable_sort_is_unique(
        prebuilts_found(places, mtimes, src),
        apps[i].prebuilts,
        full_apps[j].prebuilts,
    );
    assert(full_apps[j] == apps[i]);
}

/// The fast launch compiles only when there is no binary to run.
pub proof fn compiles_only_without_a_binary(
    cat: CatalogView,
    newest: Seq<Option<i128>>,
    i: int,
    places: Seq<Candidate>,
    mtimes: Seq<Option<i128>>,
    entry: AppView,
)
    requires
        places.len() == mtimes.len(),
        is_resolved(cat, newest, i, places, mtimes, entry),
    ensures
        entry.launch is BuildOnly <==> entry.prebuilts.len() == 0,
        entry.launch is BuildOnly <==> forall|j: int|
            0 <= j < mtimes.len() ==> (#[trigger] mtimes[j]) is None,
{
    let src = source_newest(cat, newest, cat.metas[i].id);
    let found = prebuilts_found(places, mtimes, src);
    found_count(places, mtimes, src);
    sorting_keeps_the_items(found, entry.prebuilts);
    if found.len() > 0 {
        assert(found.contains(found[0]));
        assert(entry.prebuilts.contains(found[0]));
    }
    if entry.prebuilts.len() > 0 {
        assert(entry.prebuilts.contains(entry.prebuilts[0]));
        assert(found.contains(entry.prebuilts[0]));
    }
    first_of_kind_is_first(entry.prebuilts, BinKind::Release);
}

/// The fast launch runs a binary that is there. Where release is not
/// preferred, none is newer; where it is, and there is a release binary, it
/// is a release binary, and no release binary is newer.
pub proof fn fast_launch_runs_the_newest(
    cat: CatalogView,
    newest: Seq<Option<i128>>,
    i: int,
    places: Seq<Candidate>,
    mtimes: Seq<Option<i128>>,
    entry: AppView,
)
    requires
        is_resolved(cat, newest, i, places, mtimes, entry),
        entry.prebuilts.len() > 0,
    ensures
        0 <= default_position(entry.prebuilts, cat.prefer_release) < entry.prebuilts.len(),
        entry.launch == ({
            let p = entry.prebuilts[default_position(entry.prebuilts, cat.prefer_release)];
            Launch::Prebuilt { path: p.path, freshness: p.freshness, kind: p.kind }
        }),
        !cat.prefer_release ==> forall|j: int|
            0 <= j < entry.prebuilts.len() ==> (#[trigger] entry.prebuilts[j]).mtime
                <= entry.prebuilts[default_position(entry.prebuilts, cat.prefer_release)].mtime,
        cat.prefer_release ==> forall|j: int|
            0 <= j < entry.prebuilts.len() && (#[trigger] entry.prebuilts[j]).kind
                == BinKind::Release ==> {
                let p = entry.prebuilts[default_position(entry.prebuilts, cat.prefer_release)];
                p.kind == BinKind::Release && entry.prebuilts[j].mtime <= p.mtime
            },
{
    let ps = entry.prebuilts;
    let k = default_position(ps, cat.prefer_release);
    first_of_kind_is_first(ps, BinKind::Release);
    assert(0 <= k < ps.len());
    assert(in_key_order(ps));
    assert forall|j: int| k < j < ps.len() implies (#[trigger] ps[j]).mtime <= ps[k].mtime by {
        assert(!Prebuilt::key_before(ps[j].key(), ps[k].key()));
    }
}

} // verus!
