use cargo_bay::discover::{
    AppEntry, AppKind, AppMeta, BinKind, Catalog, Freshness, Launch, Prebuilt,
};
use cargo_bay::events::{
    any_succeeded, force_rebuild_choice, handle_key, handle_mouse, is_quit, loading_step,
    run_choice, Loading, Progress,
};
use cargo_bay::geometry::Rect;
use cargo_bay::job::{AppStatus, BuildDone, CommandLine, Exit, Program};
use cargo_bay::launcher::{
    build_label, dispatch, needs_build, outcome_message, run_label, Effect, Key, Launcher, Mouse,
    MouseKind, RunAction, RunOutcome, Screen,
};
use cargo_bay::resolve::Survey;
use cargo_bay::text_map::TextMap;
use std::path::PathBuf;

fn prebuilt(kind: BinKind, freshness: Freshness) -> Prebuilt {
    Prebuilt {
        kind,
        path: PathBuf::from(format!("/ws/target/{}/x", kind.label())),
        freshness,
        mtime: 1,
    }
}

fn app(name: &str, kind: AppKind, prebuilts: Vec<Prebuilt>) -> AppEntry {
    let launch = match prebuilts.first() {
        Some(p) => Launch::Prebuilt {
            path: p.path.clone(),
            freshness: p.freshness,
            kind: p.kind,
        },
        None => Launch::BuildOnly,
    };
    AppEntry {
        name: name.to_string(),
        description: String::new(),
        kind,
        launch,
        prebuilts,
    }
}

fn catalog(apps: &[AppEntry]) -> Catalog {
    Catalog {
        root: PathBuf::from("/ws"),
        target_dir: PathBuf::from("/ws/target"),
        metas: apps
            .iter()
            .map(|a| AppMeta {
                id: a.name.clone(),
                name: a.name.clone(),
                bin: a.name.clone(),
                description: String::new(),
                kind: a.kind,
            })
            .collect(),
        member_dirs: TextMap::new(),
        closures: TextMap::new(),
        dep_graph: false,
        prefer_release: false,
    }
}

/// `edit` has a stale debug and a fresh installed binary, `game` a fresh
/// release binary, `new` none.
fn launcher() -> Launcher {
    let apps = vec![
        app(
            "edit",
            AppKind::Terminal,
            vec![
                prebuilt(BinKind::Debug, Freshness::Stale),
                prebuilt(BinKind::Installed, Freshness::Fresh),
            ],
        ),
        app("game", AppKind::Windowed, vec![prebuilt(BinKind::Release, Freshness::Fresh)]),
        app("new", AppKind::Terminal, vec![]),
    ];
    let catalog = catalog(&apps);
    Launcher::new(apps, catalog)
}

fn press(l: &mut Launcher, key: Key) -> Effect {
    handle_key(l, key, &mut Vec::new())
}

fn mouse(l: &mut Launcher, kind: MouseKind, column: u16, row: u16) -> Effect {
    handle_mouse(l, Mouse { kind, column, row }, &mut Vec::new())
}

fn file(c: &CommandLine) -> PathBuf {
    match &c.program {
        Program::File(path) => path.clone(),
        Program::Named(name) => panic!("{name}"),
    }
}

fn cargo_args(c: &CommandLine) -> Vec<String> {
    match &c.program {
        Program::Named(name) => assert_eq!(name, "cargo"),
        Program::File(_) => panic!("a file"),
    }
    c.args.clone()
}

fn foreground(e: Effect) -> (String, String, CommandLine) {
    match e {
        Effect::Foreground { name, how, command } => (name, how, command),
        _ => panic!("not in the foreground"),
    }
}

fn background(e: Effect) -> (String, CommandLine, bool) {
    match e {
        Effect::Background { name, command, cargo } => (name, command, cargo),
        _ => panic!("not in the background"),
    }
}

fn picker(l: &Launcher) -> (&str, Vec<&str>, usize) {
    match &l.screen {
        Screen::Run { app, choices, sel, .. } => {
            (app, choices.iter().map(|c| c.label.as_str()).collect(), *sel)
        }
        Screen::List => panic!("no picker"),
    }
}

#[test]
fn the_first_app_is_selected_at_first() {
    let l = launcher();
    assert_eq!(l.state.selected, Some(0));
    assert_eq!(l.selected().unwrap().name, "edit");
    assert_eq!(l.root(), PathBuf::from("/ws"));
    assert_eq!(l.status, "");
    assert!(!l.quit);
    assert_eq!(l.tick, 0);

    let none = Launcher::new(vec![], catalog(&[]));
    assert_eq!(none.state.selected, None);
    assert!(none.selected().is_none());
}

#[test]
fn the_selection_wraps_around() {
    let mut l = launcher();
    for (key, at) in [
        (Key::Up, 2),
        (Key::Down, 0),
        (Key::Char('j'), 1),
        (Key::Char('j'), 2),
        (Key::Char('j'), 0),
        (Key::Char('k'), 2),
    ] {
        assert!(matches!(press(&mut l, key), Effect::Nothing));
        assert_eq!(l.state.selected, Some(at));
    }
    l.move_selection(-7);
    assert_eq!(l.state.selected, Some(1));
    l.move_selection(isize::MAX);
    assert!(l.state.selected.unwrap() < 3);

    let mut none = Launcher::new(vec![], catalog(&[]));
    none.move_selection(1);
    assert_eq!(none.state.selected, None);
}

#[test]
fn enter_runs_a_stale_binary_as_it_is() {
    let mut l = launcher();
    let (name, how, command) = foreground(press(&mut l, Key::Enter));
    assert_eq!(name, "edit");
    assert_eq!(how, "ran /ws/target/debug/x");
    assert_eq!(file(&command), PathBuf::from("/ws/target/debug/x"));
    assert!(command.args.is_empty());
    assert_eq!(command.dir, PathBuf::from("/ws"));
}

#[test]
fn enter_builds_only_without_a_binary() {
    let mut l = launcher();
    l.move_selection(2);
    let (name, how, command) = foreground(press(&mut l, Key::Enter));
    assert_eq!(name, "new");
    assert_eq!(how, "cargo run -p new");
    assert_eq!(cargo_args(&command), ["run", "-p", "new"]);
}

#[test]
fn windowed_apps_run_in_the_background() {
    let mut l = launcher();
    l.move_selection(1);
    let (name, command, cargo) = background(press(&mut l, Key::Enter));
    assert_eq!(name, "game");
    assert_eq!(file(&command), PathBuf::from("/ws/target/release/x"));
    assert!(!cargo);

    let (_, command, cargo) = background(press(&mut l, Key::Char('d')));
    assert_eq!(cargo_args(&command), ["run", "-p", "game"]);
    assert!(cargo);
}

#[test]
fn shortcuts_run_a_profile_or_build_it() {
    let mut l = launcher();
    let (_, _, command) = foreground(press(&mut l, Key::Char('d')));
    assert_eq!(file(&command), PathBuf::from("/ws/target/debug/x"));
    let (_, how, command) = foreground(press(&mut l, Key::Char('r')));
    assert_eq!(how, "cargo run -p edit --release");
    assert_eq!(cargo_args(&command), ["run", "-p", "edit", "--release"]);
}

#[test]
fn dispatch_names_what_it_runs() {
    let mut l = launcher();
    let run = RunAction::Exec(PathBuf::from("/b/x"));
    let (_, how, _) = foreground(dispatch(&mut l, "x", AppKind::Terminal, &run));
    assert_eq!(how, "ran /b/x");
    let build = RunAction::Cargo { release: true };
    let (name, command, cargo) = background(dispatch(&mut l, "x", AppKind::Windowed, &build));
    assert_eq!(name, "x");
    assert!(cargo);
    assert_eq!(cargo_args(&command), ["run", "-p", "x", "--release"]);
    assert_eq!(l.status, "");
}

/// `edit` is being built.
fn building() -> Launcher {
    let mut l = launcher();
    l.jobs.enqueue_build("edit");
    l.jobs.build_spawned(None, &mut Vec::new());
    l
}

#[test]
fn terminal_apps_are_launched_beside_a_build() {
    let mut l = building();
    l.move_selection(2);
    let (name, how, command) = foreground(press(&mut l, Key::Enter));
    assert_eq!(name, "new");
    assert_eq!(how, "cargo run -p new");
    assert_eq!(cargo_args(&command), ["run", "-p", "new"]);
    l.move_selection(1);
    let (_, _, command) = foreground(press(&mut l, Key::Char('r')));
    assert_eq!(cargo_args(&command), ["run", "-p", "edit", "--release"]);
    l.open_run_picker();
    l.set_picker_sel(1);
    let (_, _, command) = foreground(press(&mut l, Key::Char('f')));
    assert_eq!(cargo_args(&command), ["run", "-p", "edit"]);
    assert!(matches!(l.screen, Screen::List));
    assert_eq!(l.status, "");
    assert!(matches!(l.next_launch(), Effect::Nothing));
}

#[test]
fn a_windowed_cargo_run_waits_for_the_build() {
    let mut l = building();
    let mut log = Vec::new();
    l.move_selection(1);
    assert!(matches!(press(&mut l, Key::Char('d')), Effect::Nothing));
    assert_eq!(l.status, "game waits for cargo");
    l.open_run_picker();
    assert!(matches!(press(&mut l, Key::Char('f')), Effect::Nothing));
    assert!(matches!(l.screen, Screen::List));
    assert!(matches!(l.next_launch(), Effect::Nothing));

    // A binary runs all the same.
    let (_, _, cargo) = background(press(&mut l, Key::Char('r')));
    assert!(!cargo);

    let exit = || Some(Exit { success: true, text: "exit status: 0".to_string() });
    l.jobs.pump(&vec![exit()], &mut log);
    let (name, command, cargo) = background(l.next_launch());
    assert_eq!(name, "game");
    assert!(cargo);
    assert_eq!(cargo_args(&command), ["run", "-p", "game"]);
    l.background_spawned(&name, cargo, None, &mut log);
    assert_eq!(l.status, "launched game — press l for its log");
    assert!(matches!(l.next_launch(), Effect::Nothing));

    l.jobs.pump(&vec![exit()], &mut log);
    let (_, command, _) = background(l.next_launch());
    assert_eq!(cargo_args(&command), ["run", "-p", "game", "--release"]);
    assert!(matches!(l.next_launch(), Effect::Nothing));
}

#[test]
fn a_launch_waits_behind_those_that_wait() {
    let mut l = building();
    l.move_selection(1);
    press(&mut l, Key::Char('d'));
    let exit = Some(Exit { success: true, text: "exit status: 0".to_string() });
    l.jobs.pump(&vec![exit], &mut Vec::new());
    let build = RunAction::Cargo { release: true };
    assert!(matches!(
        dispatch(&mut l, "game", AppKind::Windowed, &build.clone()),
        Effect::Nothing
    ));
    let (_, command, _) = background(l.next_launch());
    assert_eq!(cargo_args(&command), ["run", "-p", "game"]);
    let (_, command, _) = background(l.next_launch());
    assert_eq!(cargo_args(&command), ["run", "-p", "game", "--release"]);
}

#[test]
fn labels_are_padded() {
    assert_eq!(
        run_label(BinKind::Debug, "/t/x", Freshness::Stale),
        "run debug     /t/x  (stale)"
    );
    assert_eq!(
        run_label(BinKind::Installed, "/t/x", Freshness::Fresh),
        "run installed /t/x  (fresh)"
    );
    assert_eq!(build_label(BinKind::Release, "x"), "build release cargo run -p x --release");
    assert_eq!(build_label(BinKind::Debug, "x"), "build debug   cargo run -p x");
}

#[test]
fn the_picker_has_a_row_per_profile() {
    let mut l = launcher();
    assert!(matches!(press(&mut l, Key::Char('b')), Effect::Nothing));
    let (app, rows, sel) = picker(&l);
    assert_eq!(app, "edit");
    assert_eq!(
        rows,
        [
            "build release cargo run -p edit --release",
            "run debug     /ws/target/debug/x  (stale)",
            "run installed /ws/target/installed/x  (fresh)",
        ]
    );
    assert_eq!(sel, 0);
    assert_eq!(l.picker_len(), 3);
    let profiles: Vec<Option<BinKind>> = match &l.screen {
        Screen::Run { choices, .. } => choices.iter().map(|c| c.profile).collect(),
        Screen::List => panic!("no picker"),
    };
    assert_eq!(profiles, [Some(BinKind::Release), Some(BinKind::Debug), None]);
}

#[test]
fn the_picker_has_no_row_for_a_copy_that_is_not_installed() {
    let mut l = launcher();
    l.move_selection(1);
    l.open_run_picker();
    assert_eq!(
        picker(&l).1,
        ["run release   /ws/target/release/x  (fresh)", "build debug   cargo run -p game"]
    );
    let mut none = Launcher::new(vec![], catalog(&[]));
    none.open_run_picker();
    assert!(matches!(none.screen, Screen::List));
    assert_eq!(none.picker_len(), 0);
}

#[test]
fn the_picker_selection_wraps_around() {
    let mut l = launcher();
    l.open_run_picker();
    press(&mut l, Key::Up);
    assert_eq!(picker(&l).2, 2);
    press(&mut l, Key::Char('j'));
    assert_eq!(picker(&l).2, 0);
    press(&mut l, Key::Down);
    assert_eq!(picker(&l).2, 1);
    press(&mut l, Key::Char('k'));
    assert_eq!(picker(&l).2, 0);
    assert_eq!(l.state.selected, Some(0));
}

#[test]
fn leaving_the_picker_leads_back() {
    for key in [Key::Esc, Key::Char('q')] {
        let mut l = launcher();
        l.open_run_picker();
        assert!(matches!(press(&mut l, key), Effect::Nothing));
        assert!(matches!(l.screen, Screen::List));
        assert!(!l.quit);
        press(&mut l, key);
        assert!(l.quit);
    }
}

#[test]
fn enter_in_the_picker_runs_the_row() {
    let mut l = launcher();
    l.open_run_picker();
    l.set_picker_sel(1);
    let (_, _, command) = foreground(press(&mut l, Key::Enter));
    assert_eq!(file(&command), PathBuf::from("/ws/target/debug/x"));
    assert!(matches!(l.screen, Screen::List));

    l.open_run_picker();
    let (_, _, command) = foreground(run_choice(&mut l));
    assert_eq!(cargo_args(&command), ["run", "-p", "edit", "--release"]);
    assert!(matches!(run_choice(&mut l), Effect::Nothing));
}

#[test]
fn f_rebuilds_the_row_and_runs_it() {
    let mut l = launcher();
    l.open_run_picker();
    l.set_picker_sel(1);
    let (_, _, command) = foreground(press(&mut l, Key::Char('f')));
    assert_eq!(cargo_args(&command), ["run", "-p", "edit"]);
    assert!(matches!(l.screen, Screen::List));
    assert!(matches!(force_rebuild_choice(&mut l), Effect::Nothing));

    l.open_run_picker();
    let (_, _, command) = foreground(press(&mut l, Key::Char('f')));
    assert_eq!(cargo_args(&command), ["run", "-p", "edit", "--release"]);
}

#[test]
fn f_does_nothing_on_the_installed_copy() {
    let mut l = launcher();
    l.open_run_picker();
    l.set_picker_sel(2);
    assert!(matches!(press(&mut l, Key::Char('f')), Effect::Nothing));
    assert_eq!(picker(&l).2, 2);
}

#[test]
fn keys_of_the_list_are_idle_in_the_picker() {
    let mut l = launcher();
    l.open_run_picker();
    for key in ['r', 'd', 'R', 'l', 'x', 'b'] {
        assert!(matches!(press(&mut l, Key::Char(key)), Effect::Nothing));
    }
    press(&mut l, Key::PageUp);
    press(&mut l, Key::Other);
    assert_eq!(l.jobs.counts(), (0, 0));
    assert!(!l.jobs.console_visible);
    assert_eq!(l.jobs.console_scroll, 0);
    assert_eq!(picker(&l).2, 0);
}

#[test]
fn rebuild_all_queues_what_is_not_fresh() {
    let mut l = launcher();
    assert!(needs_build(&l.apps[0]));
    assert!(!needs_build(&l.apps[1]));
    assert!(needs_build(&l.apps[2]));
    press(&mut l, Key::Char('R'));
    assert_eq!(l.status, "queued 2 build(s)");
    assert_eq!(l.jobs.counts(), (0, 2));
    assert_eq!(l.jobs.status_of("edit"), Some(&AppStatus::Queued));
    assert!(l.jobs.status_of("game").is_none());
    press(&mut l, Key::Char('R'));
    assert_eq!(l.jobs.counts(), (0, 2));

    let apps = vec![app("x", AppKind::Terminal, vec![prebuilt(BinKind::Debug, Freshness::Fresh)])];
    let cat = catalog(&apps);
    let mut fresh = Launcher::new(apps, cat);
    fresh.rebuild_all();
    assert_eq!(fresh.status, "everything is already fresh");
    assert!(!fresh.jobs.is_busy());
}

#[test]
fn x_cancels_the_builds() {
    let mut l = launcher();
    l.rebuild_all();
    let mut log = Vec::new();
    l.jobs.build_spawned(None, &mut log);
    match handle_key(&mut l, Key::Char('x'), &mut log) {
        Effect::Kill(at) => assert_eq!(at, [0]),
        _ => panic!("nothing to kill"),
    }
    assert!(!l.jobs.is_busy());
    assert_eq!(log, ["[edit] building…", "[edit] build canceled"]);
}

#[test]
fn page_keys_scroll_the_log() {
    let mut l = launcher();
    press(&mut l, Key::PageUp);
    press(&mut l, Key::PageUp);
    assert_eq!(l.jobs.console_scroll, 10);
    press(&mut l, Key::PageDown);
    assert_eq!(l.jobs.console_scroll, 5);
    press(&mut l, Key::Char('l'));
    assert!(l.jobs.console_visible);
    press(&mut l, Key::Char('l'));
    assert!(!l.jobs.console_visible);
}

fn laid_out() -> Launcher {
    let mut l = launcher();
    l.list_inner = Rect { x: 1, y: 3, width: 20, height: 5 };
    l.detail_area = Rect { x: 22, y: 2, width: 30, height: 7 };
    l.console_area = Rect { x: 0, y: 9, width: 52, height: 6 };
    l.picker_inner = Rect { x: 5, y: 5, width: 40, height: 3 };
    l
}

#[test]
fn a_left_click_on_a_row_selects_and_runs_it() {
    let mut l = laid_out();
    let (name, _, cargo) = background(mouse(&mut l, MouseKind::LeftDown, 1, 4));
    assert_eq!(name, "game");
    assert!(!cargo);
    assert_eq!(l.state.selected, Some(1));
    let (name, _, _) = background(mouse(&mut l, MouseKind::LeftDown, 30, 4));
    assert_eq!(name, "game");
}

#[test]
fn a_right_click_on_a_row_opens_its_picker() {
    let mut l = laid_out();
    assert!(matches!(mouse(&mut l, MouseKind::RightDown, 20, 5), Effect::Nothing));
    assert_eq!(picker(&l).0, "new");
    let mut l = laid_out();
    mouse(&mut l, MouseKind::RightDown, 22, 2);
    assert_eq!(picker(&l).0, "edit");
}

#[test]
fn clicks_beside_the_rows_do_nothing() {
    let mut l = laid_out();
    for (column, row) in [(0, 4), (21, 4), (1, 2), (1, 6), (1, 8), (52, 4), (10, 12)] {
        assert!(matches!(mouse(&mut l, MouseKind::LeftDown, column, row), Effect::Nothing));
        assert!(matches!(mouse(&mut l, MouseKind::RightDown, column, row), Effect::Nothing));
        assert_eq!(l.state.selected, Some(0));
        assert!(matches!(l.screen, Screen::List));
    }
}

#[test]
fn clicks_count_from_the_first_row_in_view() {
    let mut l = laid_out();
    l.state.offset = 2;
    assert_eq!(l.list_hit(1, 3), Some(2));
    assert_eq!(l.list_hit(1, 4), None);
    l.state.offset = usize::MAX;
    assert_eq!(l.list_hit(1, 4), None);
}

#[test]
fn the_wheel_scrolls_the_log_or_moves() {
    let mut l = laid_out();
    mouse(&mut l, MouseKind::ScrollUp, 10, 10);
    assert_eq!(l.jobs.console_scroll, 3);
    mouse(&mut l, MouseKind::ScrollDown, 10, 10);
    assert_eq!(l.jobs.console_scroll, 0);
    mouse(&mut l, MouseKind::ScrollDown, 10, 4);
    assert_eq!(l.state.selected, Some(1));
    mouse(&mut l, MouseKind::ScrollUp, 30, 4);
    assert_eq!(l.state.selected, Some(0));
    mouse(&mut l, MouseKind::Other, 10, 4);
    assert_eq!(l.state.selected, Some(0));
    assert!(l.on_console(0, 9));
    assert!(!l.on_detail(0, 9));
}

#[test]
fn the_mouse_works_the_picker() {
    let mut l = laid_out();
    l.open_run_picker();
    mouse(&mut l, MouseKind::ScrollDown, 0, 0);
    assert_eq!(picker(&l).2, 1);
    mouse(&mut l, MouseKind::ScrollUp, 0, 0);
    assert_eq!(picker(&l).2, 0);
    assert_eq!(l.picker_hit(5, 7), Some(2));
    assert_eq!(l.picker_hit(5, 8), None);
    let (_, _, command) = foreground(mouse(&mut l, MouseKind::LeftDown, 5, 7));
    assert_eq!(file(&command), PathBuf::from("/ws/target/installed/x"));
    assert!(matches!(l.screen, Screen::List));

    l.open_run_picker();
    assert!(matches!(mouse(&mut l, MouseKind::LeftDown, 0, 0), Effect::Nothing));
    assert!(matches!(l.screen, Screen::List));
    l.open_run_picker();
    mouse(&mut l, MouseKind::RightDown, 5, 5);
    assert!(matches!(l.screen, Screen::List));
}

#[test]
fn a_background_launch_is_noted() {
    let mut l = launcher();
    let mut log = Vec::new();
    l.background_spawned("game", false, None, &mut log);
    assert_eq!(l.status, "launched game — press l for its log");
    assert_eq!(l.jobs.status_of("game"), Some(&AppStatus::Running));
    assert_eq!(log, ["[game] launched"]);
    l.background_spawned("edit", true, Some("denied".to_string()), &mut log);
    assert_eq!(l.status, "launched edit — press l for its log");
    assert!(l.jobs.status_of("edit").is_none());
    assert_eq!(log[1], "[edit] failed to launch: denied");
}

#[test]
fn outcomes_have_messages() {
    assert_eq!(outcome_message("x", &RunOutcome::Clean), "x exited cleanly");
    assert_eq!(
        outcome_message("x", &RunOutcome::Exited("exit status: 2".to_string())),
        "x exited (exit status: 2)"
    );
    assert_eq!(
        outcome_message("x", &RunOutcome::NotStarted("not found".to_string())),
        "failed to launch x: not found"
    );
}

fn survey(mtimes: Vec<Vec<Option<i128>>>) -> Survey {
    Survey {
        bin_dir: PathBuf::from("/b"),
        exe_suffix: String::new(),
        newest: vec![],
        mtimes,
    }
}

#[test]
fn a_finished_run_resolves_the_apps_anew() {
    let mut l = launcher();
    l.move_selection(2);
    let none = vec![None, None, None];
    l.foreground_finished(
        "new",
        &RunOutcome::Clean,
        &survey(vec![none.clone(), none.clone(), vec![None, Some(5), None]]),
    );
    assert_eq!(l.status, "new exited cleanly");
    assert_eq!(l.state.selected, Some(2));
    assert!(matches!(l.apps[0].launch, Launch::BuildOnly));
    match &l.apps[2].launch {
        Launch::Prebuilt { path, .. } => assert_eq!(*path, PathBuf::from("/ws/target/debug/new")),
        Launch::BuildOnly => panic!("no binary"),
    }
}

#[test]
fn a_lost_selection_goes_to_the_last_app() {
    let mut l = launcher();
    l.move_selection(2);
    l.catalog.metas.truncate(2);
    let none = vec![None, None, None];
    l.refresh(&survey(vec![none.clone(), none.clone()]));
    assert_eq!(l.apps.len(), 2);
    assert_eq!(l.state.selected, Some(1));
    l.state.offset = 1;
    l.catalog.metas.clear();
    l.refresh(&survey(vec![]));
    assert_eq!(l.state.selected, None);
    assert_eq!(l.state.offset, 0);
}

#[test]
fn the_tick_wraps() {
    let mut l = launcher();
    l.advance_tick();
    assert_eq!(l.tick, 1);
    l.tick = u64::MAX;
    l.advance_tick();
    assert_eq!(l.tick, 0);
}

#[test]
fn loading_waits_for_discovery_or_a_key() {
    assert!(is_quit(Key::Char('q'), false));
    assert!(is_quit(Key::Esc, false));
    assert!(is_quit(Key::Char('c'), true));
    assert!(!is_quit(Key::Char('c'), false));
    assert!(!is_quit(Key::Enter, true));
    assert!(matches!(loading_step(None, Progress::Pending), Loading::Wait));
    assert!(matches!(loading_step(None, Progress::Found), Loading::Ready));
    assert!(matches!(
        loading_step(Some((Key::Char('q'), false)), Progress::Found),
        Loading::Quit
    ));
    assert!(matches!(
        loading_step(Some((Key::Char('x'), false)), Progress::Found),
        Loading::Ready
    ));
    match loading_step(None, Progress::Failed("no cargo".to_string())) {
        Loading::Failed(msg) => assert_eq!(msg, "no cargo"),
        _ => panic!("not failed"),
    }
    match loading_step(None, Progress::Gone) {
        Loading::Failed(msg) => {
            assert_eq!(msg, "cargo-bay: discovery thread stopped unexpectedly.")
        }
        _ => panic!("not failed"),
    }
}

#[test]
fn a_successful_build_asks_for_a_refresh() {
    let done = |success| BuildDone { name: "x".to_string(), success };
    assert!(!any_succeeded(&vec![]));
    assert!(!any_succeeded(&vec![done(false)]));
    assert!(any_succeeded(&vec![done(false), done(true)]));
}
