//! Which apps a workspace holds, and how each of them will be started.
//!
//! [`discover`] turns a loaded workspace into a static [`Catalog`];
//! [`resolve`] combines the catalogue with what the file system says of the
//! binaries and the sources, and is cheap to repeat after every build.
//!
//! Freshness is per app: an app is stale only when a crate it actually links
//! (its transitive workspace-member dependencies) has source newer than the
//! app's binary, so editing an unrelated crate does not mark it stale.
//!
//! Points in time are nanoseconds relative to the Unix epoch.

use crate::cli::{Config, ConfigView};
use crate::ordering::{stable_sort, stably_sorted, with_key, Keyed};
use crate::paths::{join_path, joined_path, lies_under, path_starts_with};
use crate::text::{
    comes_before, contains_text, has_substring, same_text, text_before, text_before_irreflexive,
    text_before_total, text_before_transitive, text_of, texts,
};
use crate::text_map::TextMap;
use crate::workspace::{
    depends_on, first_bin, linked_members, links, member_edges, packages, root_dir, target_dir,
    workspace_members, workspace_root, workspace_target,
};
use std::path::PathBuf;
use vstd::prelude::*;

verus! {

/// A runnable app plus how the launcher will start it.
pub struct AppEntry {
    pub name: String,
    pub description: String,
    pub kind: AppKind,
    pub launch: Launch,
    pub prebuilts: Vec<Prebuilt>,
}

/// The model of an [`AppEntry`].
pub struct AppView {
    pub name: Seq<char>,
    pub description: Seq<char>,
    pub kind: AppKind,
    pub launch: Launch,
    pub prebuilts: Seq<Prebuilt>,
}

impl View for AppEntry {
    type V = AppView;

    open spec fn view(&self) -> AppView {
        AppView {
            name: self.name@,
            description: self.description@,
            kind: self.kind,
            launch: self.launch,
            prebuilts: self.prebuilts@,
        }
    }
}

/// The models of a list of apps.
pub open spec fn app_views(apps: Seq<AppEntry>) -> Seq<AppView> {
    apps.map_values(|a: AppEntry| a@)
}

/// How an app uses the console.
#[derive(Clone, Copy, PartialEq, Eq, Structural, Debug)]
pub enum AppKind {
    /// Opens its own OS window (Bevy): stdout is log text we stream to a panel.
    Windowed,
    /// Draws a full-screen TUI or plain CLI: needs the real terminal.
    Terminal,
}

/// The default (fast) launch for an app.
pub enum Launch {
    /// A prebuilt binary exists: run it directly (instant, no compile).
    Prebuilt { path: PathBuf, freshness: Freshness, kind: BinKind },
    /// No binary yet: Enter falls back to `cargo run`.
    BuildOnly,
}

/// A concrete prebuilt binary the user can pick from the version picker.
pub struct Prebuilt {
    pub kind: BinKind,
    pub path: PathBuf,
    pub freshness: Freshness,
    pub mtime: i128,
}

/// Which build of a binary a `Prebuilt` refers to.
#[derive(Clone, Copy, PartialEq, Eq, Structural, Debug)]
pub enum BinKind {
    /// `cargo install`ed into `~/.cargo/bin`: the "published" copy.
    Installed,
    Release,
    Debug,
}

/// The word for a build.
pub open spec fn kind_label(kind: BinKind) -> Seq<char> {
    match kind {
        BinKind::Installed => "installed"@,
        BinKind::Release => "release"@,
        BinKind::Debug => "debug"@,
    }
}

impl BinKind {
    /// The word for the build.
    pub fn label(self) -> (r: &'static str)
        ensures
            r@ == kind_label(self),
    {
        match self {
            BinKind::Installed => "installed",
            BinKind::Release => "release",
            BinKind::Debug => "debug",
        }
    }
}

/// Is a prebuilt binary current with the workspace source?
#[derive(Clone, Copy, PartialEq, Eq, Structural, Debug)]
pub enum Freshness {
    Fresh,
    Stale,
}

/// What is known of one runnable workspace member.
pub struct AppMeta {
    pub id: String,
    pub name: String,
    pub bin: String,
    pub description: String,
    pub kind: AppKind,
}

/// The model of an [`AppMeta`].
pub struct MetaView {
    pub id: Seq<char>,
    pub name: Seq<char>,
    pub bin: Seq<char>,
    pub description: Seq<char>,
    pub kind: AppKind,
}

impl View for AppMeta {
    type V = MetaView;

    open spec fn view(&self) -> MetaView {
        MetaView {
            id: self.id@,
            name: self.name@,
            bin: self.bin@,
            description: self.description@,
            kind: self.kind,
        }
    }
}

/// The models of a list of members.
pub open spec fn meta_views(metas: Seq<AppMeta>) -> Seq<MetaView> {
    metas.map_values(|m: AppMeta| m@)
}

/// Apps are listed by name.
impl Keyed for AppMeta {
    type Key = Seq<char>;

    open spec fn key(self) -> Seq<char> {
        self.name@
    }

    open spec fn key_before(a: Seq<char>, b: Seq<char>) -> bool {
        text_before(a, b)
    }

    proof fn key_irreflexive(a: Seq<char>) {
        text_before_irreflexive(a);
    }

    proof fn key_transitive(a: Seq<char>, b: Seq<char>, c: Seq<char>) {
        text_before_transitive(a, b, c);
    }

    proof fn key_total(a: Seq<char>, b: Seq<char>) {
        text_before_total(a, b);
    }

    fn goes_before(&self, other: &Self) -> (r: bool) {
        comes_before(self.name.as_str(), other.name.as_str())
    }
}

/// Binaries are listed newest first.
impl Keyed for Prebuilt {
    type Key = int;

    open spec fn key(self) -> int {
        self.mtime as int
    }

    open spec fn key_before(a: int, b: int) -> bool {
        a > b
    }

    proof fn key_irreflexive(a: int) {
    }

    proof fn key_transitive(a: int, b: int, c: int) {
    }

    proof fn key_total(a: int, b: int) {
    }

    fn goes_before(&self, other: &Self) -> (r: bool) {
        self.mtime > other.mtime
    }
}

/// Static, cargo-derived workspace facts. Cheap to keep and re-`resolve`.
pub struct Catalog {
    pub root: PathBuf,
    pub target_dir: PathBuf,
    pub metas: Vec<AppMeta>,
    /// Every workspace member's source dir, keyed by package id.
    pub member_dirs: TextMap<PathBuf>,
    /// Member to its transitive workspace-member dependencies (incl. itself).
    /// Empty when the resolve graph is unavailable (see `dep_graph`).
    pub closures: TextMap<Vec<String>>,
    /// Whether we have a real dependency graph. When false, freshness falls
    /// back to comparing against every member's source (safe over-approx).
    pub dep_graph: bool,
    pub prefer_release: bool,
}

/// The model of a [`Catalog`].
pub struct CatalogView {
    pub root: PathBuf,
    pub target_dir: PathBuf,
    pub metas: Seq<MetaView>,
    /// The ids of the members, each once.
    pub member_ids: Seq<Seq<char>>,
    pub member_dirs: Map<Seq<char>, PathBuf>,
    pub closures: Map<Seq<char>, Seq<Seq<char>>>,
    pub dep_graph: bool,
    pub prefer_release: bool,
}

impl View for Catalog {
    type V = CatalogView;

    open spec fn view(&self) -> CatalogView {
        CatalogView {
            root: self.root,
            target_dir: self.target_dir,
            metas: meta_views(self.metas@),
            member_ids: self.member_dirs.keys(),
            member_dirs: self.member_dirs@,
            closures: self.closures@.map_values(|ids: Vec<String>| texts(ids@)),
            dep_graph: self.dep_graph,
            prefer_release: self.prefer_release,
        }
    }
}

impl Catalog {
    /// The two maps hold each key once.
    pub open spec fn wf(&self) -> bool {
        &&& self.member_dirs.wf()
        &&& self.closures.wf()
    }
}

/// Why discovery couldn't proceed; each renders an actionable message.
pub enum DiscoverError {
    CargoNotFound,
    NotWorkspace(String),
    Metadata(String),
    Parse(String),
}

/// The message for a failed discovery.
pub open spec fn discover_message(e: DiscoverError) -> Seq<char> {
    match e {
        DiscoverError::CargoNotFound => "cargo-bay needs Cargo, but `cargo` was not found on PATH.\nInstall Rust from https://rustup.rs, then run cargo-bay inside a workspace."@,
        DiscoverError::NotWorkspace(msg) => "cargo-bay must run inside a Cargo workspace.\n  cargo metadata: "@
            + msg@
            + "\nRun it from a directory with a Cargo.toml, or pass --manifest-path <path>."@,
        DiscoverError::Metadata(e) => "failed to run cargo metadata: "@ + e@,
        DiscoverError::Parse(e) => "failed to parse cargo metadata: "@ + e@,
    }
}

impl DiscoverError {
    /// The message for the user.
    pub fn message(&self) -> (r: String)
        ensures
            r@ == discover_message(*self),
    {
        match self {
            DiscoverError::CargoNotFound => "cargo-bay needs Cargo, but `cargo` was not found on PATH.\nInstall Rust from https://rustup.rs, then run cargo-bay inside a workspace.".to_owned(),
            DiscoverError::NotWorkspace(msg) => {
                let mut out: String = "cargo-bay must run inside a Cargo workspace.\n  cargo metadata: ".to_owned();
                out.append(msg.as_str());
                out.append("\nRun it from a directory with a Cargo.toml, or pass --manifest-path <path>.");
                out
            },
            DiscoverError::Metadata(e) => {
                let mut out: String = "failed to run cargo metadata: ".to_owned();
                out.append(e.as_str());
                out
            },
            DiscoverError::Parse(e) => {
                let mut out: String = "failed to parse cargo metadata: ".to_owned();
                out.append(e.as_str());
                out
            },
        }
    }
}

/// The library's error for an error of the loader.
pub open spec fn load_error(e: portside::Error) -> DiscoverError {
    match e {
        portside::Error::CargoNotFound => DiscoverError::CargoNotFound,
        portside::Error::NotWorkspace(m) => DiscoverError::NotWorkspace(m),
        portside::Error::Metadata(m) => DiscoverError::Metadata(m),
        portside::Error::Parse(m) => DiscoverError::Parse(m),
    }
}

impl From<portside::Error> for DiscoverError {
    fn from(e: portside::Error) -> (r: Self) {
        match e {
            portside::Error::CargoNotFound => DiscoverError::CargoNotFound,
            portside::Error::NotWorkspace(m) => DiscoverError::NotWorkspace(m),
            portside::Error::Metadata(m) => DiscoverError::Metadata(m),
            portside::Error::Parse(m) => DiscoverError::Parse(m),
        }
    }
}

impl vstd::std_specs::convert::FromSpecImpl<portside::Error> for DiscoverError {
    open spec fn obeys_from_spec() -> bool {
        true
    }

    open spec fn from_spec(e: portside::Error) -> DiscoverError {
        load_error(e)
    }
}

/// What the catalogue needs to know of one workspace member.
pub struct Member {
    pub id: String,
    pub name: String,
    /// The directory that holds the member's `Cargo.toml`.
    pub dir: PathBuf,
    /// Whether `dir` lies where apps are looked for.
    pub in_scope: bool,
    pub description: Option<String>,
    /// The name of the first binary target, if there is one.
    pub bin: Option<String>,
    /// Whether the member declares a dependency on `bevy`.
    pub uses_bevy: bool,
    /// The ids of the members that this one links, itself among them, if the
    /// dependency graph is known.
    pub linked: Option<Vec<String>>,
}

/// What the catalogue needs to know of a workspace.
pub struct Facts {
    pub root: PathBuf,
    pub target_dir: PathBuf,
    pub members: Vec<Member>,
}

/// The position of the last member with that id, or -1.
pub open spec fn last_with_id(members: Seq<Member>, id: Seq<char>) -> int
    decreases members.len(),
{
    if members.len() == 0 {
        -1
    } else if members.last().id@ == id {
        members.len() - 1
    } else {
        last_with_id(members.drop_last(), id)
    }
}

/// The directory of each member by id; of members with one id the last counts.
pub open spec fn dirs_of(members: Seq<Member>) -> Map<Seq<char>, PathBuf>
    decreases members.len(),
{
    if members.len() == 0 {
        Map::empty()
    } else {
        dirs_of(members.drop_last()).insert(members.last().id@, members.last().dir)
    }
}

/// The linked members of each member by id, where they are known.
pub open spec fn closures_of(members: Seq<Member>) -> Map<Seq<char>, Seq<Seq<char>>>
    decreases members.len(),
{
    if members.len() == 0 {
        Map::empty()
    } else {
        match members.last().linked {
            Some(ids) => closures_of(members.drop_last()).insert(members.last().id@, texts(ids@)),
            None => closures_of(members.drop_last()),
        }
    }
}

/// The dependency graph is known if the first member's links are.
pub open spec fn graph_known(members: Seq<Member>) -> bool {
    members.len() > 0 && members[0].linked is Some
}

/// The member has a binary, its directory lies in scope and its name passes
/// the filter. The directory is the one that the catalogue keeps for its id.
pub open spec fn is_listed(cfg: ConfigView, members: Seq<Member>, m: Member) -> bool {
    &&& m.bin is Some
    &&& members[last_with_id(members, m.id@)].in_scope
    &&& cfg.filter is Some ==> has_substring(m.name@, cfg.filter->0)
}

/// What the catalogue keeps of a member with a binary.
pub open spec fn meta_of(m: Member) -> MetaView {
    MetaView {
        id: m.id@,
        name: m.name@,
        bin: m.bin->0@,
        description: match m.description {
            Some(d) => d@,
            None => Seq::empty(),
        },
        kind: if m.uses_bevy {
            AppKind::Windowed
        } else {
            AppKind::Terminal
        },
    }
}

/// The runnable members that are asked for, in workspace order.
pub open spec fn metas_found(cfg: ConfigView, members: Seq<Member>) -> Seq<MetaView> {
    members.filter(|m: Member| is_listed(cfg, members, m)).map_values(|m: Member| meta_of(m))
}

/// The members with one name, in their order.
pub open spec fn named(metas: Seq<MetaView>, name: Seq<char>) -> Seq<MetaView> {
    metas.filter(|m: MetaView| m.name == name)
}

/// `listed` holds the members of `found` in the order of their names; members
/// with the same name keep their order.
pub open spec fn listed_by_name(found: Seq<MetaView>, listed: Seq<MetaView>) -> bool {
    &&& forall|i: int, j: int|
        #![trigger listed[i], listed[j]]
        0 <= i < j < listed.len() ==> !text_before(listed[j].name, listed[i].name)
    &&& forall|name: Seq<char>| #[trigger] named(listed, name) == named(found, name)
}

/// `c` is the catalogue of the workspace that `facts` describe.
pub open spec fn catalogues(c: CatalogView, cfg: ConfigView, facts: Facts) -> bool {
    let members = facts.members@;
    &&& c.root == facts.root
    &&& c.target_dir == facts.target_dir
    &&& listed_by_name(metas_found(cfg, members), c.metas)
    &&& c.member_dirs == dirs_of(members)
    &&& c.member_ids.no_duplicates()
    &&& forall|id: Seq<char>| #[trigger] c.member_ids.contains(id) <==> c.member_dirs.contains_key(id)
    &&& c.dep_graph == graph_known(members)
    &&& c.closures == if graph_known(members) {
        closures_of(members)
    } else {
        Map::empty()
    }
    &&& c.prefer_release == cfg.prefer_release
}

/// Sorting the kept members by name lists their models by name.
proof fn sorted_metas_are_listed(found: Seq<AppMeta>, sorted: Seq<AppMeta>)
    requires
        stably_sorted(found, sorted),
    ensures
        listed_by_name(meta_views(found), meta_views(sorted)),
{
    let f = meta_views(found);
    let s = meta_views(sorted);
    assert forall|i: int, j: int| #![trigger s[i], s[j]] 0 <= i < j < s.len() implies !text_before(
        s[j].name,
        s[i].name,
    ) by {
        assert(!AppMeta::key_before(sorted[j].key(), sorted[i].key()));
    }
    assert forall|name: Seq<char>| #[trigger] named(s, name) == named(f, name) by {
        let p = |m: AppMeta| m.key() == name;
        let q = |m: MetaView| m.name == name;
        vstd::seq_lib::lemma_filter_view_commute(found, p, q);
        vstd::seq_lib::lemma_filter_view_commute(sorted, p, q);
        assert(with_key(sorted, name) == with_key(found, name));
    }
}

/// The last member with an id is found where `last_with_id` says.
proof fn last_with_id_found(members: Seq<Member>, id: Seq<char>, i: int)
    requires
        0 <= i < members.len(),
        members[i].id@ == id,
        forall|j: int| i < j < members.len() ==> (#[trigger] members[j]).id@ != id,
    ensures
        last_with_id(members, id) == i,
    decreases members.len(),
{
    if i < members.len() - 1 {
        assert(members.last().id@ != id);
        last_with_id_found(members.drop_last(), id, i);
    }
}

/// The position of the last member with that id.
fn find_last_with_id(members: &Vec<Member>, id: &str) -> (r: usize)
    requires
        exists|i: int| 0 <= i < members@.len() && (#[trigger] members@[i]).id@ == id@,
    ensures
        r < members@.len(),
        r == last_with_id(members@, id@),
{
    let mut i: usize = members.len();
    while i > 0
        invariant
            i <= members@.len(),
            forall|j: int| i <= j < members@.len() ==> (#[trigger] members@[j]).id@ != id@,
            exists|k: int| 0 <= k < members@.len() && (#[trigger] members@[k]).id@ == id@,
        decreases i,
    {
        i = i - 1;
        if same_text(members[i].id.as_str(), id) {
            proof {
                last_with_id_found(members@, id@, i as int);
            }
            return i;
        }
    }
    proof {
        let k = choose|k: int| 0 <= k < members@.len() && (#[trigger] members@[k]).id@ == id@;
        assert(members@[k].id@ != id@);
    }
    0
}

/// Is this member asked for?
fn member_is_listed(cfg: &Config, members: &Vec<Member>, i: usize) -> (r: bool)
    requires
        i < members@.len(),
    ensures
        r == is_listed(cfg@, members@, members@[i as int]),
{
    let m = &members[i];
    if m.bin.is_none() {
        return false;
    }
    assert(members@[i as int].id@ == m.id@);
    let owner = find_last_with_id(members, m.id.as_str());
    if !members[owner].in_scope {
        return false;
    }
    match &cfg.filter {
        Some(f) => contains_text(m.name.as_str(), f.as_str()),
        None => true,
    }
}

/// What the catalogue keeps of a member with a binary.
fn keep_member(m: &Member) -> (r: AppMeta)
    requires
        m.bin is Some,
    ensures
        r@ == meta_of(*m),
{
    let bin: String = match &m.bin {
        Some(b) => b.clone(),
        None => String::new(),
    };
    let description: String = match &m.description {
        Some(d) => d.clone(),
        None => String::new(),
    };
    AppMeta {
        id: m.id.clone(),
        name: m.name.clone(),
        bin,
        description,
        kind: if m.uses_bevy {
            AppKind::Windowed
        } else {
            AppKind::Terminal
        },
    }
}

/// A copy of a list of texts.
fn copy_texts(list: &Vec<String>) -> (r: Vec<String>)
    ensures
        texts(r@) == texts(list@),
{
    let mut out: Vec<String> = Vec::new();
    let mut i: usize = 0;
    while i < list.len()
        invariant
            i <= list@.len(),
            out@.len() == i,
            forall|j: int| 0 <= j < i ==> (#[trigger] out@[j])@ == list@[j]@,
        decreases list@.len() - i,
    {
        out.push(list[i].clone());
        i = i + 1;
    }
    assert(texts(out@) =~= texts(list@));
    out
}

/// The members that are asked for, sorted by name.
fn listed_metas(cfg: &Config, members: &Vec<Member>) -> (r: Vec<AppMeta>)
    ensures
        listed_by_name(metas_found(cfg@, members@), meta_views(r@)),
{
    let mut metas: Vec<AppMeta> = Vec::new();
    let ghost p = |m: Member| is_listed(cfg@, members@, m);
    let ghost f = |m: Member| meta_of(m);
    proof {
        reveal(Seq::filter);
        assert(meta_views(metas@) =~= members@.take(0).filter(p).map_values(f));
    }
    let mut i: usize = 0;
    while i < members.len()
        invariant
            i <= members@.len(),
            p == (|m: Member| is_listed(cfg@, members@, m)),
            f == (|m: Member| meta_of(m)),
            meta_views(metas@) == members@.take(i as int).filter(p).map_values(f),
        decreases members@.len() - i,
    {
        let ghost before = metas@;
        let ghost kept = members@.take(i as int).filter(p);
        proof {
            assert(members@.take(i + 1) =~= members@.take(i as int).push(members@[i as int]));
            members@.take(i as int).lemma_filter_push(members@[i as int], p);
        }
        if member_is_listed(cfg, members, i) {
            let meta = keep_member(&members[i]);
            metas.push(meta);
            proof {
                assert(meta_views(metas@) =~= meta_views(before).push(meta@));
                assert(kept.push(members@[i as int]).map_values(f) =~= kept.map_values(f).push(
                    meta_of(members@[i as int]),
                ));
            }
        }
        i = i + 1;
    }
    assert(members@.take(i as int) =~= members@);
    let sorted = stable_sort(metas);
    proof {
        sorted_metas_are_listed(metas@, sorted@);
    }
    sorted
}

/// The catalogue of the workspace that `facts` describe.
pub fn catalogue(cfg: &Config, facts: Facts) -> (r: Catalog)
    ensures
        r.wf(),
        catalogues(r@, cfg@, facts),
{
    let members = &facts.members;
    let mut member_dirs: TextMap<PathBuf> = TextMap::new();
    let mut closures: TextMap<Vec<String>> = TextMap::new();
    let dep_graph = members.len() > 0 && members[0].linked.is_some();
    let ghost listed = |ids: Vec<String>| texts(ids@);
    let mut i: usize = 0;
    proof {
        assert(members@.take(0) =~= Seq::<Member>::empty());
        assert(closures@.map_values(listed) =~= Map::<Seq<char>, Seq<Seq<char>>>::empty());
    }
    while i < members.len()
        invariant
            i <= members@.len(),
            listed == (|ids: Vec<String>| texts(ids@)),
            member_dirs.wf(),
            closures.wf(),
            member_dirs@ == dirs_of(members@.take(i as int)),
            dep_graph ==> closures@.map_values(listed) == closures_of(members@.take(i as int)),
            !dep_graph ==> closures@.map_values(listed) == Map::<
                Seq<char>,
                Seq<Seq<char>>,
            >::empty(),
        decreases members@.len() - i,
    {
        let ghost next = members@.take(i + 1);
        proof {
            assert(next.drop_last() =~= members@.take(i as int));
            assert(next.last() == members@[i as int]);
        }
        let m = &members[i];
        member_dirs.insert(m.id.clone(), m.dir.clone());
        if dep_graph {
            match &m.linked {
                Some(ids) => {
                    let ghost before = closures@;
                    let copy = copy_texts(ids);
                    closures.insert(m.id.clone(), copy);
                    assert(closures@.map_values(listed) =~= before.map_values(listed).insert(
                        m.id@,
                        texts(ids@),
                    ));
                },
                None => {},
            }
        }
        i = i + 1;
    }
    assert(members@.take(i as int) =~= members@);
    let metas = listed_metas(cfg, members);
    proof {
        member_dirs.keys_are_the_domain();
    }
    Catalog {
        root: facts.root,
        target_dir: facts.target_dir,
        metas,
        member_dirs,
        closures,
        dep_graph,
        prefer_release: cfg.prefer_release,
    }
}

/// Apps are looked for in `dir`: it lies under `<root>/<subfolder>`, if a
/// subfolder is asked for.
pub open spec fn is_in_scope(cfg: ConfigView, root: PathBuf, dir: PathBuf) -> bool {
    match cfg.subfolder {
        Some(s) => lies_under(dir, joined_path(root, s)),
        None => true,
    }
}

/// `m` tells what a package of the workspace `ws` holds.
pub open spec fn tells_of_package(
    m: Member,
    cfg: ConfigView,
    p: portside::Package,
    ws: portside::Workspace,
) -> bool {
    &&& m.id@ == p.id@
    &&& m.name@ == p.name@
    &&& m.dir == p.manifest_dir
    &&& m.in_scope == is_in_scope(cfg, workspace_root(ws), p.manifest_dir)
    &&& text_of(m.description) == text_of(p.description)
    &&& m.bin is Some ==> exists|i: int| #[trigger]
        first_bin(p.targets@, i) && p.targets@[i].name@ == m.bin->0@
    &&& m.bin is None ==> forall|i: int| !first_bin(p.targets@, i)
    &&& m.uses_bevy == depends_on(p.dependencies@, "bevy"@)
    &&& m.linked is Some <==> member_edges(ws) is Some
    &&& m.linked is Some ==> texts(m.linked->0@).no_duplicates()
    &&& m.linked is Some ==> forall|x: Seq<char>| #[trigger]
        texts(m.linked->0@).contains(x) <==> links(member_edges(ws)->0, p.id@, x)
}

/// `facts` tell what the workspace `ws` holds.
pub open spec fn tells_of_workspace(
    facts: Facts,
    cfg: ConfigView,
    ws: portside::Workspace,
) -> bool {
    &&& facts.root == workspace_root(ws)
    &&& facts.target_dir == workspace_target(ws)
    &&& facts.members@.len() == packages(ws).len()
    &&& forall|i: int|
        0 <= i < packages(ws).len() ==> tells_of_package(
            #[trigger] facts.members@[i],
            cfg,
            packages(ws)[i],
            ws,
        )
}

/// `c` is the catalogue of the loaded workspace `ws`.
pub open spec fn catalogues_workspace(
    c: CatalogView,
    cfg: ConfigView,
    ws: portside::Workspace,
) -> bool {
    exists|facts: Facts| #[trigger]
        tells_of_workspace(facts, cfg, ws) && catalogues(c, cfg, facts)
}

/// A member whose links are known has an entry: the links of a member with its
/// id.
proof fn closures_hold_the_links(members: Seq<Member>, k: int)
    requires
        0 <= k < members.len(),
        members[k].linked is Some,
    ensures
        closures_of(members).contains_key(members[k].id@),
        exists|j: int|
            0 <= j < members.len() && (#[trigger] members[j]).id@ == members[k].id@
                && members[j].linked is Some && closures_of(members)[members[k].id@] == texts(
                members[j].linked->0@,
            ),
    decreases members.len(),
{
    let last = members.len() - 1;
    let front = members.drop_last();
    if members[last].linked is Some && members[last].id@ == members[k].id@ {
        assert(members.last() == members[last]);
    } else {
        assert(k < last);
        closures_hold_the_links(front, k);
        let j = choose|j: int|
            0 <= j < front.len() && (#[trigger] front[j]).id@ == front[k].id@
                && front[j].linked is Some && closures_of(front)[front[k].id@] == texts(
                front[j].linked->0@,
            );
        assert(members[j] == front[j]);
    }
}

/// Every app of the catalogue is a member of the workspace.
pub(crate) proof fn apps_are_members(c: CatalogView, cfg: ConfigView, facts: Facts, i: int) -> (k: int)
    requires
        catalogues(c, cfg, facts),
        0 <= i < c.metas.len(),
    ensures
        0 <= k < facts.members@.len(),
        meta_of(facts.members@[k]) == c.metas[i],
        is_listed(cfg, facts.members@, facts.members@[k]),
{
    let members = facts.members@;
    let p = |m: Member| is_listed(cfg, members, m);
    let kept = members.filter(p);
    let found = metas_found(cfg, members);
    let meta = c.metas[i];
    let q = |m: MetaView| m.name == meta.name;
    c.metas.lemma_filter_contains(q, i);
    assert(named(c.metas, meta.name) == named(found, meta.name));
    found.lemma_filter_contains_rev(q, meta);
    let b = choose|b: int| 0 <= b < found.len() && found[b] == meta;
    assert(meta_of(kept[b]) == meta);
    assert(kept.contains(kept[b]));
    members.lemma_filter_contains_rev(p, kept[b]);
    members.lemma_filter_pred(p, b);
    choose|k: int| 0 <= k < members.len() && members[k] == kept[b]
}

/// A member that is asked for stands in the catalogue.
proof fn members_are_apps(c: CatalogView, cfg: ConfigView, facts: Facts, k: int) -> (i: int)
    requires
        catalogues(c, cfg, facts),
        0 <= k < facts.members@.len(),
        is_listed(cfg, facts.members@, facts.members@[k]),
    ensures
        0 <= i < c.metas.len(),
        c.metas[i] == meta_of(facts.members@[k]),
{
    let members = facts.members@;
    let p = |m: Member| is_listed(cfg, members, m);
    let kept = members.filter(p);
    let found = metas_found(cfg, members);
    let meta = meta_of(members[k]);
    let q = |m: MetaView| m.name == meta.name;
    members.lemma_filter_contains(p, k);
    let b = choose|b: int| 0 <= b < kept.len() && kept[b] == members[k];
    assert(found[b] == meta);
    found.lemma_filter_contains(q, b);
    assert(named(c.metas, meta.name) == named(found, meta.name));
    c.metas.lemma_filter_contains_rev(q, meta);
    choose|i: int| 0 <= i < c.metas.len() && c.metas[i] == meta
}

/// The last member with an id has that id, and its directory is the one that
/// is kept for the id.
pub(crate) proof fn last_with_id_counts(members: Seq<Member>, id: Seq<char>, k: int)
    requires
        0 <= k < members.len(),
        members[k].id@ == id,
    ensures
        0 <= last_with_id(members, id) < members.len(),
        members[last_with_id(members, id)].id@ == id,
        dirs_of(members).contains_key(id),
        dirs_of(members)[id] == members[last_with_id(members, id)].dir,
    decreases members.len(),
{
    if members.last().id@ != id {
        last_with_id_counts(members.drop_last(), id, k);
    }
}

/// `m` is what the catalogue says of the package `p` with the binary target
/// `bin`: its description is the package's, or empty, and it is windowed
/// exactly if the package declares a dependency on `bevy`.
pub open spec fn describes(m: MetaView, p: portside::Package, bin: portside::Target) -> bool {
    &&& m.id == p.id@
    &&& m.name == p.name@
    &&& m.bin == bin.name@
    &&& m.description == match p.description {
        Some(d) => d@,
        None => Seq::empty(),
    }
    &&& m.kind == AppKind::Windowed <==> depends_on(p.dependencies@, "bevy"@)
}

/// Every member with a binary target is listed, with its first one, where its
/// name passes the filter, if there is one, and the directory that is kept for
/// its id lies in the subfolder, if one is asked for.
pub proof fn every_runnable_member_is_listed(
    c: CatalogView,
    cfg: ConfigView,
    ws: portside::Workspace,
    k: int,
    t: int,
)
    requires
        catalogues_workspace(c, cfg, ws),
        0 <= k < packages(ws).len(),
        first_bin(packages(ws)[k].targets@, t),
        is_in_scope(cfg, workspace_root(ws), c.member_dirs[packages(ws)[k].id@]),
        cfg.filter is Some ==> has_substring(packages(ws)[k].name@, cfg.filter->0),
    ensures
        exists|i: int|
            0 <= i < c.metas.len() && describes(
                #[trigger] c.metas[i],
                packages(ws)[k],
                packages(ws)[k].targets@[t],
            ),
{
    let facts = choose|facts: Facts| #[trigger]
        tells_of_workspace(facts, cfg, ws) && catalogues(c, cfg, facts);
    let members = facts.members@;
    let p = packages(ws)[k];
    let m = members[k];
    assert(tells_of_package(m, cfg, p, ws));
    let u = choose|u: int| #[trigger]
        first_bin(p.targets@, u) && p.targets@[u].name@ == m.bin->0@;
    assert(u == t);
    let owner = last_with_id(members, m.id@);
    last_with_id_counts(members, m.id@, k);
    assert(tells_of_package(members[owner], cfg, packages(ws)[owner], ws));
    assert(is_listed(cfg, members, m));
    let i = members_are_apps(c, cfg, facts, k);
    assert(describes(c.metas[i], p, p.targets@[t]));
}

/// Only members with a binary target are listed, and only those whose name
/// passes the filter, if there is one, and whose directory lies in the
/// subfolder, if one is asked for.
pub proof fn only_runnable_members_are_listed(
    c: CatalogView,
    cfg: ConfigView,
    ws: portside::Workspace,
    i: int,
)
    requires
        catalogues_workspace(c, cfg, ws),
        0 <= i < c.metas.len(),
    ensures
        exists|k: int, t: int|
            0 <= k < packages(ws).len() && #[trigger] first_bin(packages(ws)[k].targets@, t)
                && describes(c.metas[i], packages(ws)[k], packages(ws)[k].targets@[t]),
        cfg.filter is Some ==> has_substring(c.metas[i].name, cfg.filter->0),
        c.member_dirs.contains_key(c.metas[i].id),
        is_in_scope(cfg, workspace_root(ws), c.member_dirs[c.metas[i].id]),
{
    let facts = choose|facts: Facts| #[trigger]
        tells_of_workspace(facts, cfg, ws) && catalogues(c, cfg, facts);
    let k = apps_are_members(c, cfg, facts, i);
    let m = facts.members@[k];
    let p = packages(ws)[k];
    assert(tells_of_package(m, cfg, p, ws));
    let t = choose|t: int| #[trigger]
        first_bin(p.targets@, t) && p.targets@[t].name@ == m.bin->0@;
    assert(describes(c.metas[i], p, p.targets@[t]));
    let owner = last_with_id(facts.members@, m.id@);
    last_with_id_counts(facts.members@, m.id@, k);
    assert(tells_of_package(facts.members@[owner], cfg, packages(ws)[owner], ws));
}

/// The directories that are kept depend on the members' ids and directories.
proof fn same_members_same_dirs(a: Seq<Member>, b: Seq<Member>)
    requires
        a.len() == b.len(),
        forall|i: int|
            #![trigger a[i]]
            0 <= i < a.len() ==> a[i].id@ == b[i].id@ && a[i].dir == b[i].dir,
    ensures
        dirs_of(a) == dirs_of(b),
    decreases a.len(),
{
    if a.len() > 0 {
        assert(a[a.len() - 1] == a.last() && b[b.len() - 1] == b.last());
        assert forall|i: int| #![trigger a.drop_last()[i]] 0 <= i < a.len() - 1 implies {
            &&& a.drop_last()[i].id@ == b.drop_last()[i].id@
            &&& a.drop_last()[i].dir == b.drop_last()[i].dir
        } by {
            assert(a[i].id@ == b[i].id@);
        }
        same_members_same_dirs(a.drop_last(), b.drop_last());
    }
}

/// A subfolder and a filter only hide apps: what is listed with them is listed
/// without them, in the same words, and every member's directory is known
/// either way.
pub proof fn scope_options_only_hide(
    c: CatalogView,
    cfg: ConfigView,
    full: CatalogView,
    open: ConfigView,
    ws: portside::Workspace,
    i: int,
)
    requires
        catalogues_workspace(c, cfg, ws),
        catalogues_workspace(full, open, ws),
        open.subfolder is None,
        open.filter is None,
        0 <= i < c.metas.len(),
    ensures
        exists|j: int| 0 <= j < full.metas.len() && #[trigger] full.metas[j] == c.metas[i],
        c.root == full.root,
        c.target_dir == full.target_dir,
        c.member_dirs == full.member_dirs,
        forall|id: Seq<char>| #[trigger]
            c.member_ids.contains(id) <==> full.member_ids.contains(id),
{
    let facts = choose|facts: Facts| #[trigger]
        tells_of_workspace(facts, cfg, ws) && catalogues(c, cfg, facts);
    let all = choose|facts: Facts| #[trigger]
        tells_of_workspace(facts, open, ws) && catalogues(full, open, facts);
    let a = facts.members@;
    let b = all.members@;
    assert forall|x: int| #![trigger a[x]] 0 <= x < a.len() implies {
        &&& a[x].id@ == b[x].id@
        &&& a[x].dir == b[x].dir
    } by {
        assert(tells_of_package(a[x], cfg, packages(ws)[x], ws));
        assert(tells_of_package(b[x], open, packages(ws)[x], ws));
    }
    same_members_same_dirs(a, b);
    assert forall|id: Seq<char>| #[trigger]
        c.member_ids.contains(id) <==> full.member_ids.contains(id) by {
        assert(c.member_ids.contains(id) <==> c.member_dirs.contains_key(id));
        assert(full.member_ids.contains(id) <==> full.member_dirs.contains_key(id));
    }
    let k = apps_are_members(c, cfg, facts, i);
    let p = packages(ws)[k];
    assert(tells_of_package(a[k], cfg, p, ws));
    assert(tells_of_package(b[k], open, p, ws));
    let t = choose|t: int| #[trigger]
        first_bin(p.targets@, t) && p.targets@[t].name@ == a[k].bin->0@;
    assert(b[k].bin is Some);
    let u = choose|u: int| #[trigger]
        first_bin(p.targets@, u) && p.targets@[u].name@ == b[k].bin->0@;
    assert(t == u);
    let owner = last_with_id(b, b[k].id@);
    last_with_id_counts(b, b[k].id@, k);
    assert(tells_of_package(b[owner], open, packages(ws)[owner], ws));
    assert(is_listed(open, b, b[k]));
    let j = members_are_apps(full, open, all, k);
    assert(text_of(a[k].description) == text_of(b[k].description));
    assert(full.metas[j] == c.metas[i]);
}

/// Where the graph was loaded, the catalogue keeps for every app the members
/// that the app links, directly or not; without the graph it says so.
pub proof fn closures_follow_the_graph(
    c: CatalogView,
    cfg: ConfigView,
    ws: portside::Workspace,
    i: int,
)
    requires
        catalogues_workspace(c, cfg, ws),
        0 <= i < c.metas.len(),
    ensures
        c.dep_graph <==> member_edges(ws) is Some,
        c.dep_graph ==> c.closures.contains_key(c.metas[i].id),
        c.dep_graph ==> forall|x: Seq<char>| #[trigger]
            c.closures[c.metas[i].id].contains(x) <==> links(
                member_edges(ws)->0,
                c.metas[i].id,
                x,
            ),
{
    let facts = choose|facts: Facts| #[trigger]
        tells_of_workspace(facts, cfg, ws) && catalogues(c, cfg, facts);
    let members = facts.members@;
    let k = apps_are_members(c, cfg, facts, i);
    assert(tells_of_package(members[0], cfg, packages(ws)[0], ws));
    assert(tells_of_package(members[k], cfg, packages(ws)[k], ws));
    if c.dep_graph {
        closures_hold_the_links(members, k);
        let j = choose|j: int|
            0 <= j < members.len() && (#[trigger] members[j]).id@ == members[k].id@
                && members[j].linked is Some && closures_of(members)[members[k].id@] == texts(
                members[j].linked->0@,
            );
        assert(tells_of_package(members[j], cfg, packages(ws)[j], ws));
    }
}

/// Reads what the catalogue needs off a package. Apps are looked for under
/// `scope`, if there is one.
fn read_package(
    cfg: &Config,
    scope: &Option<PathBuf>,
    p: &portside::Package,
    ws: &portside::Workspace,
) -> (r: Member)
    requires
        scope is Some <==> cfg@.subfolder is Some,
        scope matches Some(base) ==> base == joined_path(workspace_root(*ws), cfg@.subfolder->0),
    ensures
        tells_of_package(r, cfg@, *p, *ws),
{
    let in_scope = match scope {
        Some(base) => path_starts_with(&p.manifest_dir, base),
        None => true,
    };
    let bin: Option<String> = match p.bin_target() {
        Some(t) => Some(t.name.clone()),
        None => None,
    };
    let description: Option<String> = match &p.description {
        Some(d) => Some(d.clone()),
        None => None,
    };
    Member {
        id: p.id.clone(),
        name: p.name.clone(),
        dir: p.manifest_dir.clone(),
        in_scope,
        description,
        bin,
        uses_bevy: p.has_dependency("bevy"),
        linked: linked_members(ws, p.id.as_str()),
    }
}

/// Reads what the catalogue needs off a loaded workspace.
fn read_workspace(cfg: &Config, ws: &portside::Workspace) -> (r: Facts)
    ensures
        tells_of_workspace(r, cfg@, *ws),
{
    let root = root_dir(ws);
    let scope: Option<PathBuf> = match &cfg.subfolder {
        Some(s) => Some(join_path(root, s.as_str())),
        None => None,
    };
    let found = workspace_members(ws);
    let mut members: Vec<Member> = Vec::new();
    let mut i: usize = 0;
    while i < found.len()
        invariant
            scope is Some <==> cfg@.subfolder is Some,
            scope matches Some(base) ==> base == joined_path(
                workspace_root(*ws),
                cfg@.subfolder->0,
            ),
            i <= found@.len(),
            found@ == packages(*ws),
            members@.len() == i,
            forall|j: int|
                0 <= j < i ==> tells_of_package(
                    #[trigger] members@[j],
                    cfg@,
                    packages(*ws)[j],
                    *ws,
                ),
        decreases found@.len() - i,
    {
        members.push(read_package(cfg, &scope, &found[i], ws));
        i = i + 1;
    }
    Facts {
        root: root.clone(),
        target_dir: target_dir(ws).clone(),
        members,
    }
}

/// Builds the static catalogue of what `portside::load` brought. The workspace
/// is to be loaded with its resolve graph, which per-app freshness needs.
pub fn discover(cfg: &Config, loaded: Result<portside::Workspace, portside::Error>) -> (r: Result<
    Catalog,
    DiscoverError,
>)
    ensures
        loaded is Ok <==> r is Ok,
        loaded matches Ok(ws) ==> r->Ok_0.wf() && catalogues_workspace(r->Ok_0@, cfg@, ws),
        loaded matches Err(e) ==> r->Err_0 == load_error(e),
{
    match loaded {
        Ok(ws) => {
            let facts = read_workspace(cfg, &ws);
            Ok(catalogue(cfg, facts))
        },
        Err(e) => Err(DiscoverError::from(e)),
    }
}

} // verus!
