use cargo_bay::cli::{parse, Cli, Config};
use cargo_bay::discover::{
    catalogue, discover, AppEntry, AppKind, BinKind, Catalog, DiscoverError, Facts, Freshness,
    Launch, Member,
};
use cargo_bay::resolve::{resolve, Survey};
use std::path::PathBuf;

const WORKSPACE: &str = r#"{
  "packages": [
    {"id":"zeta","name":"zeta","description":"the last","manifest_path":"/ws/apps/zeta/Cargo.toml",
     "targets":[{"name":"zeta-lib","kind":["lib"],"src_path":"/ws/apps/zeta/src/lib.rs"},
                {"name":"zeta-main","kind":["bin"],"src_path":"/ws/apps/zeta/src/main.rs"},
                {"name":"zeta-more","kind":["bin"],"src_path":"/ws/apps/zeta/src/more.rs"}],
     "dependencies":[{"name":"core","req":"*"}]},
    {"id":"core","name":"core","description":null,"manifest_path":"/ws/core/Cargo.toml",
     "targets":[{"name":"core","kind":["lib"],"src_path":"/ws/core/src/lib.rs"}],
     "dependencies":[]},
    {"id":"game","name":"game","manifest_path":"/ws/apps/game/Cargo.toml",
     "targets":[{"name":"game","kind":["bin"],"src_path":"/ws/apps/game/src/main.rs"}],
     "dependencies":[{"name":"bevy","req":"*","kind":"build"},{"name":"mid","req":"*"}]},
    {"id":"mid","name":"mid","manifest_path":"/ws/mid/Cargo.toml",
     "targets":[{"name":"mid","kind":["lib"],"src_path":"/ws/mid/src/lib.rs"}],
     "dependencies":[{"name":"core","req":"*"}]},
    {"id":"appsmith","name":"appsmith","manifest_path":"/ws/appsmith/Cargo.toml",
     "targets":[{"name":"smith","kind":["bin"],"src_path":"/ws/appsmith/src/main.rs"}],
     "dependencies":[]},
    {"id":"outside","name":"outside","manifest_path":"/elsewhere/Cargo.toml",
     "targets":[{"name":"outside","kind":["bin"],"src_path":"/elsewhere/main.rs"}],
     "dependencies":[]}
  ],
  "workspace_members": ["zeta","core","game","mid","appsmith"],
  "workspace_root": "/ws",
  "target_directory": "/ws/target",
  "resolve": {"nodes":[
    {"id":"zeta","deps":[{"pkg":"core","dep_kinds":[{"kind":null}]},
                         {"pkg":"mid","dep_kinds":[{"kind":"dev"}]}]},
    {"id":"core","deps":[]},
    {"id":"game","deps":[{"pkg":"mid","dep_kinds":[{"kind":null}]}]},
    {"id":"mid","deps":[{"pkg":"core","dep_kinds":[{"kind":null}]}]},
    {"id":"appsmith","deps":[]}
  ]}
}"#;

fn config(options: &[&str]) -> Config {
    let mut args = vec!["cargo-bay".to_string()];
    args.extend(options.iter().map(|o| o.to_string()));
    match parse(args) {
        Cli::Run(cfg) => cfg,
        _ => panic!("not a run"),
    }
}

fn discovered(options: &[&str], json: &str) -> Catalog {
    match discover(&config(options), portside::parse(json.as_bytes())) {
        Ok(catalog) => catalog,
        Err(e) => panic!("{}", e.message()),
    }
}

fn names(catalog: &Catalog) -> Vec<&str> {
    catalog.metas.iter().map(|m| m.name.as_str()).collect()
}

fn linked(catalog: &Catalog, id: &str) -> Vec<String> {
    let mut ids = catalog.closures.get(id).expect("closure").clone();
    ids.sort();
    ids
}

#[test]
fn members_with_a_binary_are_listed_by_name() {
    let catalog = discovered(&[], WORKSPACE);
    assert_eq!(names(&catalog), ["appsmith", "game", "zeta"]);
    assert_eq!(catalog.root, PathBuf::from("/ws"));
    assert_eq!(catalog.target_dir, PathBuf::from("/ws/target"));
    assert!(!catalog.prefer_release);
}

#[test]
fn the_first_binary_and_the_description_are_kept() {
    let catalog = discovered(&[], WORKSPACE);
    let zeta = &catalog.metas[2];
    assert_eq!(zeta.id, "zeta");
    assert_eq!(zeta.bin, "zeta-main");
    assert_eq!(zeta.description, "the last");
    let smith = &catalog.metas[0];
    assert_eq!(smith.bin, "smith");
    assert_eq!(smith.description, "");
}

#[test]
fn a_dependency_on_bevy_makes_an_app_windowed() {
    let catalog = discovered(&[], WORKSPACE);
    assert_eq!(catalog.metas[0].kind, AppKind::Terminal);
    assert_eq!(catalog.metas[1].kind, AppKind::Windowed);
    assert_eq!(catalog.metas[2].kind, AppKind::Terminal);
}

#[test]
fn subfolder_matches_whole_components() {
    assert_eq!(names(&discovered(&["--subfolder", "apps"], WORKSPACE)), ["game", "zeta"]);
    assert_eq!(names(&discovered(&["--subfolder", "apps/"], WORKSPACE)), ["game", "zeta"]);
    assert_eq!(names(&discovered(&["--subfolder", "apps/zeta"], WORKSPACE)), ["zeta"]);
    assert!(names(&discovered(&["--subfolder", "app"], WORKSPACE)).is_empty());
    assert_eq!(names(&discovered(&["--subfolder", "/ws/appsmith"], WORKSPACE)), ["appsmith"]);
}

#[test]
fn filter_matches_part_of_the_package_name() {
    assert_eq!(names(&discovered(&["--filter", "am"], WORKSPACE)), ["game"]);
    assert_eq!(names(&discovered(&["--filter", ""], WORKSPACE)), ["appsmith", "game", "zeta"]);
    assert!(names(&discovered(&["--filter", "zeta-main"], WORKSPACE)).is_empty());
    assert_eq!(
        names(&discovered(&["--filter", "e", "--subfolder", "apps"], WORKSPACE)),
        ["game", "zeta"]
    );
}

#[test]
fn preference_for_release_is_kept() {
    assert!(discovered(&["--release"], WORKSPACE).prefer_release);
}

#[test]
fn every_member_directory_is_known() {
    let catalog = discovered(&["--filter", "zeta"], WORKSPACE);
    assert_eq!(catalog.member_dirs.len(), 5);
    assert_eq!(catalog.member_dirs.get("core"), Some(&PathBuf::from("/ws/core")));
    assert_eq!(catalog.member_dirs.get("zeta"), Some(&PathBuf::from("/ws/apps/zeta")));
    assert!(catalog.member_dirs.get("outside").is_none());
}

#[test]
fn closures_hold_what_a_member_links() {
    let catalog = discovered(&[], WORKSPACE);
    assert!(catalog.dep_graph);
    assert_eq!(linked(&catalog, "game"), ["core", "game", "mid"]);
    assert_eq!(linked(&catalog, "zeta"), ["core", "zeta"]);
    assert_eq!(linked(&catalog, "appsmith"), ["appsmith"]);
    assert_eq!(linked(&catalog, "mid"), ["core", "mid"]);
}

#[test]
fn without_a_graph_there_are_no_closures() {
    let start = WORKSPACE.find("\"resolve\"").unwrap();
    let json = format!("{}\"resolve\": null}}", &WORKSPACE[..start]);
    let catalog = discovered(&[], &json);
    assert!(!catalog.dep_graph);
    assert_eq!(catalog.closures.len(), 0);
    assert_eq!(catalog.member_dirs.len(), 5);
}

#[test]
fn an_empty_workspace_has_no_apps() {
    let catalog = discovered(
        &[],
        r#"{"packages":[],"workspace_members":[],"workspace_root":"/","target_directory":"/t",
            "resolve":{"nodes":[]}}"#,
    );
    assert!(catalog.metas.is_empty());
    assert!(!catalog.dep_graph);
    assert_eq!(catalog.root, PathBuf::from("/"));
}

#[test]
fn scope_options_never_change_a_listed_app() {
    let full = discovered(&[], WORKSPACE);
    let scoped = discovered(&["--subfolder", "apps/game"], WORKSPACE);
    // `core`, which `game` links through `mid`, is newer than the binaries.
    let survey = |catalog: &Catalog| Survey {
        bin_dir: PathBuf::from("/b"),
        exe_suffix: String::new(),
        newest: (0..catalog.member_dirs.len())
            .map(|i| Some(if catalog.member_dirs.key_at(i) == "core" { 200 } else { 1 }))
            .collect(),
        mtimes: catalog.metas.iter().map(|_| vec![None, Some(100), Some(300)]).collect(),
    };
    let all = resolve(&full, &survey(&full));
    let one = resolve(&scoped, &survey(&scoped));
    assert_eq!(one.len(), 1);
    let same = all.iter().find(|a| a.name == "game").unwrap();
    assert_eq!(one[0].kind, same.kind);
    let told = |app: &AppEntry| -> Vec<(BinKind, PathBuf, Freshness, i128)> {
        app.prebuilts.iter().map(|p| (p.kind, p.path.clone(), p.freshness, p.mtime)).collect()
    };
    assert_eq!(told(&one[0]), told(same));
    assert_eq!(one[0].prebuilts[1].freshness, Freshness::Stale);
    assert!(matches!(one[0].launch, Launch::Prebuilt { kind: BinKind::Installed, .. }));
    assert!(matches!(same.launch, Launch::Prebuilt { kind: BinKind::Installed, .. }));
}

#[test]
fn load_errors_are_told_apart() {
    let cfg = config(&[]);
    let message = |e: portside::Error| match discover(&cfg, Err(e)) {
        Ok(_) => panic!("no error"),
        Err(e) => e.message(),
    };
    assert_eq!(
        message(portside::Error::CargoNotFound),
        "cargo-bay needs Cargo, but `cargo` was not found on PATH.\n\
         Install Rust from https://rustup.rs, then run cargo-bay inside a workspace."
    );
    assert_eq!(
        message(portside::Error::NotWorkspace("no Cargo.toml".into())),
        "cargo-bay must run inside a Cargo workspace.\n  cargo metadata: no Cargo.toml\n\
         Run it from a directory with a Cargo.toml, or pass --manifest-path <path>."
    );
    assert_eq!(
        message(portside::Error::Metadata("denied".into())),
        "failed to run cargo metadata: denied"
    );
    assert_eq!(
        message(portside::Error::Parse("eof".into())),
        "failed to parse cargo metadata: eof"
    );
    assert!(matches!(
        discover(&cfg, portside::parse(b"{")),
        Err(DiscoverError::Parse(_))
    ));
}

fn member(id: &str, name: &str, dir: &str, in_scope: bool) -> Member {
    Member {
        id: id.to_string(),
        name: name.to_string(),
        dir: PathBuf::from(dir),
        in_scope,
        description: None,
        bin: Some(format!("{name}-bin")),
        uses_bevy: false,
        linked: None,
    }
}

fn facts(members: Vec<Member>) -> Facts {
    Facts {
        root: PathBuf::from("/ws"),
        target_dir: PathBuf::from("/ws/target"),
        members,
    }
}

#[test]
fn members_of_one_name_keep_their_order() {
    let catalog = catalogue(
        &config(&[]),
        facts(vec![
            member("2", "b", "/ws/2", true),
            member("1", "a", "/ws/1", true),
            member("3", "b", "/ws/3", true),
            member("0", "a", "/ws/0", true),
        ]),
    );
    let ids: Vec<&str> = catalog.metas.iter().map(|m| m.id.as_str()).collect();
    assert_eq!(ids, ["1", "0", "2", "3"]);
}

#[test]
fn of_members_with_one_id_the_last_directory_counts() {
    let catalog = catalogue(
        &config(&[]),
        facts(vec![
            member("same", "a", "/ws/a", true),
            member("same", "b", "/ws/b", false),
            member("other", "c", "/ws/c", true),
        ]),
    );
    assert_eq!(names(&catalog), ["c"]);
    assert_eq!(catalog.member_dirs.len(), 2);
    assert_eq!(catalog.member_dirs.get("same"), Some(&PathBuf::from("/ws/b")));
}

#[test]
fn the_first_member_tells_whether_the_graph_is_known() {
    let mut first = member("1", "a", "/ws/a", true);
    let mut second = member("2", "b", "/ws/b", true);
    second.linked = Some(vec!["2".to_string()]);
    let catalog = catalogue(&config(&[]), facts(vec![first, second]));
    assert!(!catalog.dep_graph);
    assert_eq!(catalog.closures.len(), 0);

    first = member("1", "a", "/ws/a", true);
    first.linked = Some(vec!["1".to_string(), "2".to_string()]);
    second = member("2", "b", "/ws/b", true);
    let catalog = catalogue(&config(&[]), facts(vec![first, second]));
    assert!(catalog.dep_graph);
    assert_eq!(catalog.closures.len(), 1);
    assert_eq!(linked(&catalog, "1"), ["1", "2"]);
}

#[test]
fn builds_have_labels() {
    assert_eq!(BinKind::Installed.label(), "installed");
    assert_eq!(BinKind::Release.label(), "release");
    assert_eq!(BinKind::Debug.label(), "debug");
}
