use cargo_bay::discover::{AppKind, AppMeta, BinKind, Catalog, Freshness, Launch, Prebuilt};
use cargo_bay::resolve::{
    candidates, cargo_bin_dir, is_member_dir, is_source_file, newest_mtime_in, prebuilt_of_kind,
    probe_plan, resolve, resolve_launch, walk_step, Candidate, DirEntry, Survey, WalkStep,
};
use cargo_bay::text_map::TextMap;
use std::path::PathBuf;

fn meta(id: &str, name: &str) -> AppMeta {
    AppMeta {
        id: id.to_string(),
        name: name.to_string(),
        bin: format!("{name}-bin"),
        description: format!("about {name}"),
        kind: AppKind::Terminal,
    }
}

fn ids(list: &[&str]) -> Vec<String> {
    list.iter().map(|s| s.to_string()).collect()
}

/// `one` links `core`, `two` links nothing else.
fn catalog(dep_graph: bool, prefer_release: bool) -> Catalog {
    let mut member_dirs = TextMap::new();
    for id in ["core", "one", "two"] {
        member_dirs.insert(id.to_string(), PathBuf::from(format!("/ws/{id}")));
    }
    let mut closures = TextMap::new();
    if dep_graph {
        closures.insert("core".to_string(), ids(&["core"]));
        closures.insert("one".to_string(), ids(&["one", "core"]));
        closures.insert("two".to_string(), ids(&["two"]));
    }
    Catalog {
        root: PathBuf::from("/ws"),
        target_dir: PathBuf::from("/ws/target"),
        metas: vec![meta("one", "one"), meta("two", "two")],
        member_dirs,
        closures,
        dep_graph,
        prefer_release,
    }
}

fn survey(newest: [Option<i128>; 3], one: [Option<i128>; 3], two: [Option<i128>; 3]) -> Survey {
    Survey {
        bin_dir: PathBuf::from("/home/me/.cargo/bin"),
        exe_suffix: ".exe".to_string(),
        newest: newest.to_vec(),
        mtimes: vec![one.to_vec(), two.to_vec()],
    }
}

fn kinds(prebuilts: &[Prebuilt]) -> Vec<BinKind> {
    prebuilts.iter().map(|p| p.kind).collect()
}

#[test]
fn binaries_are_looked_for_in_three_places() {
    let places = candidates(
        &PathBuf::from("/ws/target"),
        &PathBuf::from("/home/me/.cargo/bin"),
        "app",
        ".exe",
    );
    let found: Vec<(BinKind, PathBuf)> = places.into_iter().map(|c| (c.kind, c.path)).collect();
    assert_eq!(
        found,
        vec![
            (BinKind::Release, PathBuf::from("/ws/target/release/app.exe")),
            (BinKind::Debug, PathBuf::from("/ws/target/debug/app.exe")),
            (BinKind::Installed, PathBuf::from("/home/me/.cargo/bin/app.exe")),
        ]
    );
}

#[test]
fn the_plan_covers_every_app() {
    let plan = probe_plan(&catalog(true, false), &PathBuf::from("/b"), "");
    assert_eq!(plan.len(), 2);
    assert_eq!(plan[0].len(), 3);
    assert_eq!(plan[0][1].path, PathBuf::from("/ws/target/debug/one-bin"));
    assert_eq!(plan[1][2].path, PathBuf::from("/b/two-bin"));
}

#[test]
fn install_directory_follows_the_environment() {
    let some = |p: &str| Some(PathBuf::from(p));
    assert_eq!(
        cargo_bin_dir(some("/cargo"), some("/profile"), some("/home")),
        PathBuf::from("/cargo/bin")
    );
    assert_eq!(
        cargo_bin_dir(None, some("/profile"), some("/home")),
        PathBuf::from("/profile/.cargo/bin")
    );
    assert_eq!(cargo_bin_dir(None, None, some("/home")), PathBuf::from("/home/.cargo/bin"));
    assert_eq!(cargo_bin_dir(None, None, None), PathBuf::from(".cargo/bin"));
}

#[test]
fn the_latest_known_time_counts() {
    assert_eq!(newest_mtime_in(&vec![]), None);
    assert_eq!(newest_mtime_in(&vec![None, None]), None);
    assert_eq!(newest_mtime_in(&vec![Some(3), None, Some(7), Some(5)]), Some(7));
    assert_eq!(newest_mtime_in(&vec![Some(-3), Some(-7)]), Some(-3));
}

#[test]
fn sources_are_rust_files_and_manifests() {
    for name in ["main.rs", "Cargo.toml", "a.b.rs", "..rs", "\u{fffd}.rs"] {
        assert!(is_source_file(name), "{name}");
    }
    for name in ["Cargo.lock", ".rs", "rs", "main.rsx", "cargo.toml", "x.RS", ""] {
        assert!(!is_source_file(name), "{name}");
    }
}

fn step(is_dir: bool, name: &str, unicode: bool) -> WalkStep {
    walk_step(&DirEntry { is_dir, name: name.to_string(), unicode, is_member: false })
}

#[test]
fn the_walk_skips_output_and_hidden_directories() {
    assert_eq!(step(true, "src", true), WalkStep::Descend);
    assert_eq!(step(true, "target", true), WalkStep::Ignore);
    assert_eq!(step(true, "targets", true), WalkStep::Descend);
    assert_eq!(step(true, ".git", true), WalkStep::Ignore);
    assert_eq!(step(true, "x.rs", true), WalkStep::Descend);
    assert_eq!(step(true, ".\u{fffd}", false), WalkStep::Descend);
    assert_eq!(step(false, "lib.rs", true), WalkStep::Consider);
    assert_eq!(step(false, ".hidden.rs", true), WalkStep::Consider);
    assert_eq!(step(false, "\u{fffd}.rs", false), WalkStep::Consider);
    assert_eq!(step(false, "Cargo.lock", true), WalkStep::Ignore);
}

#[test]
fn the_walk_leaves_other_members_alone() {
    let entry = |is_dir, is_member| DirEntry {
        is_dir,
        name: "core.rs".to_string(),
        unicode: true,
        is_member,
    };
    assert_eq!(walk_step(&entry(true, true)), WalkStep::Ignore);
    assert_eq!(walk_step(&entry(true, false)), WalkStep::Descend);
    assert_eq!(walk_step(&entry(false, false)), WalkStep::Consider);

    let cat = catalog(true, false);
    assert!(is_member_dir(&cat, &PathBuf::from("/ws/core")));
    assert!(is_member_dir(&cat, &PathBuf::from("/ws/./two/")));
    assert!(!is_member_dir(&cat, &PathBuf::from("/ws")));
    assert!(!is_member_dir(&cat, &PathBuf::from("/ws/core/src")));
    assert!(!is_member_dir(&cat, &PathBuf::from("/ws/cor")));
}

fn places() -> Vec<Candidate> {
    candidates(&PathBuf::from("/t"), &PathBuf::from("/b"), "app", "")
}

#[test]
fn binaries_come_newest_first() {
    let (launch, prebuilts) = resolve_launch(
        &places(),
        &vec![Some(10), Some(30), Some(20)],
        Some(20),
        false,
    );
    assert_eq!(kinds(&prebuilts), [BinKind::Debug, BinKind::Installed, BinKind::Release]);
    let fresh: Vec<Freshness> = prebuilts.iter().map(|p| p.freshness).collect();
    assert_eq!(fresh, [Freshness::Fresh, Freshness::Fresh, Freshness::Stale]);
    match launch {
        Launch::Prebuilt { path, freshness, kind } => {
            assert_eq!(path, PathBuf::from("/t/debug/app"));
            assert_eq!(freshness, Freshness::Fresh);
            assert_eq!(kind, BinKind::Debug);
        }
        Launch::BuildOnly => panic!("no binary"),
    }
}

#[test]
fn binaries_of_one_age_keep_their_order() {
    let (_, prebuilts) =
        resolve_launch(&places(), &vec![Some(5), Some(5), Some(5)], None, false);
    assert_eq!(kinds(&prebuilts), [BinKind::Release, BinKind::Debug, BinKind::Installed]);
}

#[test]
fn release_is_preferred_where_asked_for() {
    let times = vec![Some(10), Some(30), None];
    let (launch, prebuilts) = resolve_launch(&places(), &times, Some(20), true);
    assert_eq!(kinds(&prebuilts), [BinKind::Debug, BinKind::Release]);
    assert!(matches!(
        launch,
        Launch::Prebuilt { kind: BinKind::Release, freshness: Freshness::Stale, .. }
    ));
    let (launch, _) = resolve_launch(&places(), &vec![None, Some(30), None], Some(20), true);
    assert!(matches!(launch, Launch::Prebuilt { kind: BinKind::Debug, .. }));
}

#[test]
fn without_a_binary_a_launch_builds() {
    let (launch, prebuilts) = resolve_launch(&places(), &vec![None, None, None], Some(1), true);
    assert!(matches!(launch, Launch::BuildOnly));
    assert!(prebuilts.is_empty());
    assert!(prebuilt_of_kind(&prebuilts, BinKind::Release).is_none());
}

#[test]
fn a_binary_as_old_as_its_sources_is_fresh() {
    let at = |src: Option<i128>| {
        let (_, prebuilts) = resolve_launch(&places(), &vec![Some(50), None, None], src, false);
        prebuilts[0].freshness
    };
    assert_eq!(at(None), Freshness::Fresh);
    assert_eq!(at(Some(50)), Freshness::Fresh);
    assert_eq!(at(Some(51)), Freshness::Stale);
}

#[test]
fn apps_are_resolved_in_catalogue_order() {
    let apps = resolve(
        &catalog(true, false),
        &survey([Some(1), Some(2), Some(3)], [None, Some(9), None], [None, None, None]),
    );
    assert_eq!(apps.len(), 2);
    assert_eq!(apps[0].name, "one");
    assert_eq!(apps[0].description, "about one");
    assert_eq!(apps[0].kind, AppKind::Terminal);
    assert_eq!(apps[0].prebuilts.len(), 1);
    assert_eq!(apps[0].prebuilts[0].mtime, 9);
    assert_eq!(apps[0].prebuilts[0].path, PathBuf::from("/ws/target/debug/one-bin.exe"));
    assert!(matches!(apps[1].launch, Launch::BuildOnly));
}

const FRESH: Freshness = Freshness::Fresh;
const STALE: Freshness = Freshness::Stale;

fn freshness(dep_graph: bool, newest: [Option<i128>; 3]) -> Vec<Freshness> {
    let binaries = [None, Some(100), None];
    resolve(&catalog(dep_graph, false), &survey(newest, binaries, binaries))
        .iter()
        .map(|a| a.prebuilts[0].freshness)
        .collect()
}

#[test]
fn only_linked_sources_make_an_app_stale() {
    assert_eq!(freshness(true, [Some(1), Some(1), Some(1)]), [FRESH, FRESH]);
    assert_eq!(freshness(true, [Some(101), Some(1), Some(1)]), [STALE, FRESH]);
    assert_eq!(freshness(true, [Some(1), Some(101), Some(1)]), [STALE, FRESH]);
    assert_eq!(freshness(true, [Some(1), Some(1), Some(101)]), [FRESH, STALE]);
    assert_eq!(freshness(true, [None, None, None]), [FRESH, FRESH]);
}

#[test]
fn without_the_graph_every_source_counts() {
    assert_eq!(freshness(false, [Some(101), Some(1), Some(1)]), [STALE, STALE]);
    assert_eq!(freshness(false, [None, Some(1), None]), [FRESH, FRESH]);
}

#[test]
fn unknown_members_do_not_count() {
    let mut cat = catalog(true, false);
    cat.closures.insert("one".to_string(), ids(&["one", "gone"]));
    cat.closures.remove("two");
    let binaries = [None, Some(100), None];
    let apps = resolve(&cat, &survey([Some(900), Some(99), Some(900)], binaries, binaries));
    assert_eq!(apps[0].prebuilts[0].freshness, Freshness::Fresh);
    assert_eq!(apps[1].prebuilts[0].freshness, Freshness::Fresh);
}
