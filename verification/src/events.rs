//! What the launcher does on keys, on the mouse, and while it is loading.

use crate::discover::{AppKind, AppView, BinKind};
use crate::job::{
    asking_keeps_what_is_pending, build_pending, builds_at, canceled, cancellations_logged,
    scrolled, slot_taken, BuildDone, JobsView, ProgramView,
};
use crate::launcher::{
    all_rebuilt, dispatch, dispatched, launch_effect, launch_waits, list_row_hit, must_wait,
    picker_choices, picker_closed, picker_moved, picker_opened, picker_row_hit, picker_set,
    profile_launch, rebuilds_queued, selected_app, selected_launch, selection_moved, selection_ok,
    selection_set, waiting_launched, wants_build, Effect, EffectView, Key, Launcher, LauncherView,
    Mouse, MouseKind, RunAction, Screen, ScreenView,
};
use crate::resolve::of_kind;
use crate::text::texts;
use vstd::prelude::*;

verus! {

/// What an event comes to: the launcher and the log afterwards, and what is to
/// be done outside.
pub struct Step {
    pub launcher: LauncherView,
    pub log: Seq<Seq<char>>,
    pub effect: EffectView,
}

/// A launch comes to this, and the log stays.
pub open spec fn launching(launch: (LauncherView, EffectView), log: Seq<Seq<char>>) -> Step {
    Step { launcher: launch.0, log, effect: launch.1 }
}

/// Nothing is to be done outside.
pub open spec fn quietly(launcher: LauncherView, log: Seq<Seq<char>>) -> Step {
    Step { launcher, log, effect: EffectView::Nothing }
}

/// The launcher with other jobs.
pub open spec fn with_jobs(v: LauncherView, jobs: JobsView) -> LauncherView {
    LauncherView { jobs, ..v }
}

/// The console, scrolled up by `delta` lines.
pub open spec fn console_scrolled(v: LauncherView, delta: int) -> LauncherView {
    with_jobs(
        v,
        JobsView { console_scroll: scrolled(v.jobs.console_scroll, delta), ..v.jobs },
    )
}

/// The picker's choice is confirmed: the picker closes and the choice runs.
pub open spec fn choice_run(v: LauncherView) -> (LauncherView, EffectView) {
    match v.screen {
        ScreenView::Run { app, kind, choices, sel } => if sel < choices.len() {
            dispatched(picker_closed(v), app, kind, choices[sel as int].action)
        } else {
            (v, EffectView::Nothing)
        },
        ScreenView::List => (v, EffectView::Nothing),
    }
}

/// The picker's choice is rebuilt and run, if it stands for a profile that
/// can be; otherwise nothing happens.
pub open spec fn choice_rebuilt(v: LauncherView) -> (LauncherView, EffectView) {
    match v.screen {
        ScreenView::Run { app, kind, choices, sel } => {
            let profile = choices[sel as int].profile;
            if sel < choices.len() && (profile == Some(BinKind::Release) || profile == Some(
                BinKind::Debug,
            )) {
                dispatched(
                    picker_closed(v),
                    app,
                    kind,
                    RunAction::Cargo { release: profile == Some(BinKind::Release) },
                )
            } else {
                (v, EffectView::Nothing)
            }
        },
        ScreenView::List => (v, EffectView::Nothing),
    }
}

/// The builds are canceled, and their processes are to be killed.
pub open spec fn builds_canceled(v: LauncherView, log: Seq<Seq<char>>) -> Step {
    Step {
        launcher: with_jobs(v, canceled(v.jobs)),
        log: cancellations_logged(log, v.jobs.running),
        effect: EffectView::Kill(builds_at(v.jobs.running)),
    }
}

/// What a key does on the app list.
pub open spec fn list_key(v: LauncherView, log: Seq<Seq<char>>, key: Key) -> Step {
    if key == Key::Char('q') || key == Key::Esc {
        quietly(LauncherView { quit: true, ..v }, log)
    } else if key == Key::Up || key == Key::Char('k') {
        quietly(selection_moved(v, -1), log)
    } else if key == Key::Down || key == Key::Char('j') {
        quietly(selection_moved(v, 1), log)
    } else if key == Key::Enter {
        launching(selected_launch(v), log)
    } else if key == Key::Char('b') {
        quietly(picker_opened(v), log)
    } else if key == Key::Char('r') {
        launching(profile_launch(v, BinKind::Release), log)
    } else if key == Key::Char('d') {
        launching(profile_launch(v, BinKind::Debug), log)
    } else if key == Key::Char('R') {
        quietly(all_rebuilt(v), log)
    } else if key == Key::Char('l') {
        quietly(
            with_jobs(v, JobsView { console_visible: !v.jobs.console_visible, ..v.jobs }),
            log,
        )
    } else if key == Key::Char('x') {
        builds_canceled(v, log)
    } else if key == Key::PageUp {
        quietly(console_scrolled(v, 5), log)
    } else if key == Key::PageDown {
        quietly(console_scrolled(v, -5), log)
    } else {
        quietly(v, log)
    }
}

/// What a key does in the version picker.
pub open spec fn picker_key(v: LauncherView, log: Seq<Seq<char>>, key: Key) -> Step {
    if key == Key::Esc || key == Key::Char('q') {
        quietly(picker_closed(v), log)
    } else if key == Key::Up || key == Key::Char('k') {
        quietly(picker_moved(v, -1), log)
    } else if key == Key::Down || key == Key::Char('j') {
        quietly(picker_moved(v, 1), log)
    } else if key == Key::Enter {
        launching(choice_run(v), log)
    } else if key == Key::Char('f') {
        launching(choice_rebuilt(v), log)
    } else {
        quietly(v, log)
    }
}

/// What a key does.
pub open spec fn key_step(v: LauncherView, log: Seq<Seq<char>>, key: Key) -> Step {
    if v.screen is List {
        list_key(v, log, key)
    } else {
        picker_key(v, log, key)
    }
}

/// What the mouse does on the app list.
pub open spec fn list_mouse(v: LauncherView, log: Seq<Seq<char>>, m: Mouse) -> Step {
    let col = m.column as int;
    let row = m.row as int;
    match m.kind {
        MouseKind::LeftDown => match list_row_hit(v, col, row) {
            Some(i) => launching(selected_launch(selection_set(v, i)), log),
            None => if v.detail_area.covers(col, row) {
                launching(selected_launch(v), log)
            } else {
                quietly(v, log)
            },
        },
        MouseKind::RightDown => match list_row_hit(v, col, row) {
            Some(i) => quietly(picker_opened(selection_set(v, i)), log),
            None => if v.detail_area.covers(col, row) {
                quietly(picker_opened(v), log)
            } else {
                quietly(v, log)
            },
        },
        MouseKind::ScrollDown => if v.console_area.covers(col, row) {
            quietly(console_scrolled(v, -3), log)
        } else {
            quietly(selection_moved(v, 1), log)
        },
        MouseKind::ScrollUp => if v.console_area.covers(col, row) {
            quietly(console_scrolled(v, 3), log)
        } else {
            quietly(selection_moved(v, -1), log)
        },
        MouseKind::Other => quietly(v, log),
    }
}

/// What the mouse does in the version picker.
pub open spec fn picker_mouse(v: LauncherView, log: Seq<Seq<char>>, m: Mouse) -> Step {
    match m.kind {
        MouseKind::LeftDown => match picker_row_hit(v, m.column as int, m.row as int) {
            Some(i) => launching(choice_run(picker_set(v, i as usize)), log),
            None => quietly(picker_closed(v), log),
        },
        MouseKind::RightDown => quietly(picker_closed(v), log),
        MouseKind::ScrollDown => quietly(picker_moved(v, 1), log),
        MouseKind::ScrollUp => quietly(picker_moved(v, -1), log),
        MouseKind::Other => quietly(v, log),
    }
}

/// What the mouse does.
pub open spec fn mouse_step(v: LauncherView, log: Seq<Seq<char>>, m: Mouse) -> Step {
    if v.screen is List {
        list_mouse(v, log, m)
    } else {
        picker_mouse(v, log, m)
    }
}

/// Confirms a version-picker choice.
pub fn run_choice(launcher: &mut Launcher) -> (r: Effect)
    requires
        old(launcher).wf(),
    ensures
        final(launcher).wf(),
        final(launcher)@ == choice_run(old(launcher)@).0,
        r@ == choice_run(old(launcher)@).1,
{
    let chosen: Option<(String, AppKind, RunAction)> = match &launcher.screen {
        Screen::Run { app, kind, choices, sel } => if *sel < choices.len() {
            Some((app.clone(), *kind, choices[*sel].action.clone()))
        } else {
            None
        },
        Screen::List => None,
    };
    match chosen {
        Some((name, kind, action)) => {
            launcher.screen = Screen::List;
            dispatch(launcher, name.as_str(), kind, &action)
        },
        None => Effect::Nothing,
    }
}

/// `f` in the version picker: force-rebuild the highlighted profile, then run
/// it; the explicit "yes, I want to wait for a fresh build" path.
pub fn force_rebuild_choice(launcher: &mut Launcher) -> (r: Effect)
    requires
        old(launcher).wf(),
    ensures
        final(launcher).wf(),
        final(launcher)@ == choice_rebuilt(old(launcher)@).0,
        r@ == choice_rebuilt(old(launcher)@).1,
{
    let chosen: Option<(String, AppKind, bool)> = match &launcher.screen {
        Screen::Run { app, kind, choices, sel } => if *sel < choices.len() {
            match choices[*sel].profile {
                Some(BinKind::Release) => Some((app.clone(), *kind, true)),
                Some(BinKind::Debug) => Some((app.clone(), *kind, false)),
                _ => None,
            }
        } else {
            None
        },
        Screen::List => None,
    };
    match chosen {
        Some((name, kind, release)) => {
            launcher.screen = Screen::List;
            dispatch(launcher, name.as_str(), kind, &RunAction::Cargo { release })
        },
        None => Effect::Nothing,
    }
}

/// What a key does.
pub fn handle_key(launcher: &mut Launcher, key: Key, log: &mut Vec<String>) -> (r: Effect)
    requires
        old(launcher).wf(),
    ensures
        final(launcher).wf(),
        final(launcher)@ == key_step(old(launcher)@, texts(old(log)@), key).launcher,
        texts(final(log)@) == key_step(old(launcher)@, texts(old(log)@), key).log,
        r@ == key_step(old(launcher)@, texts(old(log)@), key).effect,
{
    let on_list = match &launcher.screen {
        Screen::List => true,
        Screen::Run { .. } => false,
    };
    if on_list {
        match key {
            Key::Char('q') | Key::Esc => {
                launcher.quit = true;
                Effect::Nothing
            },
            Key::Up | Key::Char('k') => {
                launcher.move_selection(-1);
                Effect::Nothing
            },
            Key::Down | Key::Char('j') => {
                launcher.move_selection(1);
                Effect::Nothing
            },
            Key::Enter => launcher.launch_selected(),
            Key::Char('b') => {
                launcher.open_run_picker();
                Effect::Nothing
            },
            Key::Char('r') => launcher.run_profile(BinKind::Release),
            Key::Char('d') => launcher.run_profile(BinKind::Debug),
            Key::Char('R') => {
                launcher.rebuild_all();
                Effect::Nothing
            },
            Key::Char('l') => {
                launcher.jobs.toggle_console();
                Effect::Nothing
            },
            Key::Char('x') => Effect::Kill(launcher.jobs.cancel_builds(log)),
            Key::PageUp => {
                launcher.jobs.scroll(5);
                Effect::Nothing
            },
            Key::PageDown => {
                launcher.jobs.scroll(-5);
                Effect::Nothing
            },
            _ => Effect::Nothing,
        }
    } else {
        match key {
            Key::Esc | Key::Char('q') => {
                launcher.screen = Screen::List;
                Effect::Nothing
            },
            Key::Up | Key::Char('k') => {
                launcher.picker_move(-1);
                Effect::Nothing
            },
            Key::Down | Key::Char('j') => {
                launcher.picker_move(1);
                Effect::Nothing
            },
            Key::Enter => run_choice(launcher),
            Key::Char('f') => force_rebuild_choice(launcher),
            _ => Effect::Nothing,
        }
    }
}

/// What the mouse does.
pub fn handle_mouse(launcher: &mut Launcher, m: Mouse, log: &mut Vec<String>) -> (r: Effect)
    requires
        old(launcher).wf(),
    ensures
        final(launcher).wf(),
        final(launcher)@ == mouse_step(old(launcher)@, texts(old(log)@), m).launcher,
        texts(final(log)@) == mouse_step(old(launcher)@, texts(old(log)@), m).log,
        r@ == mouse_step(old(launcher)@, texts(old(log)@), m).effect,
{
    let on_list = match &launcher.screen {
        Screen::List => true,
        Screen::Run { .. } => false,
    };
    if on_list {
        match m.kind {
            MouseKind::LeftDown => match launcher.list_hit(m.column, m.row) {
                Some(i) => {
                    launcher.state.select(Some(i));
                    launcher.launch_selected()
                },
                None => if launcher.on_detail(m.column, m.row) {
                    launcher.launch_selected()
                } else {
                    Effect::Nothing
                },
            },
            MouseKind::RightDown => {
                match launcher.list_hit(m.column, m.row) {
                    Some(i) => {
                        launcher.state.select(Some(i));
                        launcher.open_run_picker();
                    },
                    None => {
                        if launcher.on_detail(m.column, m.row) {
                            launcher.open_run_picker();
                        }
                    },
                }
                Effect::Nothing
            },
            MouseKind::ScrollDown => {
                if launcher.on_console(m.column, m.row) {
                    launcher.jobs.scroll(-3);
                } else {
                    launcher.move_selection(1);
                }
                Effect::Nothing
            },
            MouseKind::ScrollUp => {
                if launcher.on_console(m.column, m.row) {
                    launcher.jobs.scroll(3);
                } else {
                    launcher.move_selection(-1);
                }
                Effect::Nothing
            },
            MouseKind::Other => Effect::Nothing,
        }
    } else {
        match m.kind {
            MouseKind::LeftDown => match launcher.picker_hit(m.column, m.row) {
                Some(i) => {
                    launcher.set_picker_sel(i);
                    run_choice(launcher)
                },
                None => {
                    launcher.screen = Screen::List;
                    Effect::Nothing
                },
            },
            MouseKind::RightDown => {
                launcher.screen = Screen::List;
                Effect::Nothing
            },
            MouseKind::ScrollDown => {
                launcher.picker_move(1);
                Effect::Nothing
            },
            MouseKind::ScrollUp => {
                launcher.picker_move(-1);
                Effect::Nothing
            },
            MouseKind::Other => Effect::Nothing,
        }
    }
}

// --- loading ------------------------------------------------------------

/// The key asks to leave the loading screen: `q`, `Esc` or `Ctrl-C`.
pub open spec fn asks_to_quit(key: Key, control: bool) -> bool {
    key == Key::Char('q') || key == Key::Esc || (key == Key::Char('c') && control)
}

/// `q`, `Esc`, or `Ctrl-C`: bail out of the loading screen.
pub fn is_quit(key: Key, control: bool) -> (r: bool)
    ensures
        r == asks_to_quit(key, control),
{
    match key {
        Key::Char('q') | Key::Esc => true,
        Key::Char('c') => control,
        _ => false,
    }
}

/// What has become of the discovery that runs beside the loading screen.
pub enum Progress {
    /// It found the workspace.
    Found,
    /// It failed; the text tells why.
    Failed(String),
    /// It goes on.
    Pending,
    /// It stopped without a result.
    Gone,
}

/// What the loading screen does next.
pub enum Loading {
    Quit,
    Ready,
    Failed(String),
    Wait,
}

/// The model of [`Loading`].
pub enum LoadingView {
    Quit,
    Ready,
    Failed(Seq<char>),
    Wait,
}

impl View for Loading {
    type V = LoadingView;

    open spec fn view(&self) -> LoadingView {
        match *self {
            Loading::Quit => LoadingView::Quit,
            Loading::Ready => LoadingView::Ready,
            Loading::Failed(msg) => LoadingView::Failed(msg@),
            Loading::Wait => LoadingView::Wait,
        }
    }
}

/// What the loading screen does next: a key that asks to quit comes first.
pub open spec fn loading_next(key: Option<(Key, bool)>, progress: Progress) -> LoadingView {
    if key is Some && asks_to_quit((key->0).0, (key->0).1) {
        LoadingView::Quit
    } else {
        match progress {
            Progress::Found => LoadingView::Ready,
            Progress::Failed(msg) => LoadingView::Failed(msg@),
            Progress::Pending => LoadingView::Wait,
            Progress::Gone => LoadingView::Failed(
                "cargo-bay: discovery thread stopped unexpectedly."@,
            ),
        }
    }
}

/// What the loading screen does next, given the key that was pressed (and
/// whether Control was held), if one was.
pub fn loading_step(key: Option<(Key, bool)>, progress: Progress) -> (r: Loading)
    ensures
        r@ == loading_next(key, progress),
{
    let quit = match key {
        Some((k, control)) => is_quit(k, control),
        None => false,
    };
    if quit {
        return Loading::Quit;
    }
    match progress {
        Progress::Found => Loading::Ready,
        Progress::Failed(msg) => Loading::Failed(msg),
        Progress::Pending => Loading::Wait,
        Progress::Gone => Loading::Failed(
            "cargo-bay: discovery thread stopped unexpectedly.".to_owned(),
        ),
    }
}

/// Did any of the builds succeed, so that freshness is to be resolved anew?
pub fn any_succeeded(done: &Vec<BuildDone>) -> (r: bool)
    ensures
        r == exists|i: int| 0 <= i < done@.len() && (#[trigger] done@[i]).success,
{
    let mut i: usize = 0;
    while i < done.len()
        invariant
            i <= done@.len(),
            forall|j: int| 0 <= j < i ==> !(#[trigger] done@[j]).success,
        decreases done@.len() - i,
    {
        if done[i].success {
            return true;
        }
        i = i + 1;
    }
    false
}

// --- laws ---------------------------------------------------------------

/// The effect starts a compile: it runs cargo.
pub open spec fn compiles(effect: EffectView) -> bool {
    match effect {
        EffectView::Background { command, .. } => command.program is Named,
        EffectView::Foreground { command, .. } => command.program is Named,
        _ => false,
    }
}

/// The effect runs the binary at `path` as it is, without arguments.
pub open spec fn runs_file(effect: EffectView, path: std::path::PathBuf) -> bool {
    match effect {
        EffectView::Background { command, cargo, .. } => command.program == ProgramView::File(path)
            && command.args.len() == 0 && !cargo,
        EffectView::Foreground { command, .. } => command.program == ProgramView::File(path)
            && command.args.len() == 0,
        _ => false,
    }
}

/// The step, a launch of `app` with `cargo run`, compiles, or waits to: the
/// `cargo run` of a windowed app waits while another cargo command runs in the
/// background, and everything but the status line is otherwise as it was.
pub open spec fn compiles_in_turn(
    before: LauncherView,
    app: AppView,
    release: bool,
    step: Step,
) -> bool {
    let action = RunAction::Cargo { release };
    if must_wait(before, app.kind, action) {
        step.effect is Nothing && step.launcher == launch_waits(before, app.name, action)
    } else {
        compiles(step.effect) && step.effect == launch_effect(
            before.catalog.root,
            app.name,
            app.kind,
            action,
        ) && step.launcher == before
    }
}

/// On the list, Enter runs the app's chosen binary as it is, fresh or stale;
/// it compiles only if the app has none.
pub proof fn enter_never_surprises(v: LauncherView, log: Seq<Seq<char>>, app: AppView)
    requires
        v.screen is List,
        selected_app(v) == Some(app),
    ensures
        match app.launch {
            crate::discover::Launch::Prebuilt { path, .. } => runs_file(
                key_step(v, log, Key::Enter).effect,
                path,
            ),
            crate::discover::Launch::BuildOnly => compiles_in_turn(
                v,
                app,
                false,
                key_step(v, log, Key::Enter),
            ),
        },
{
}

/// On the list, `r` and `d` run the release and the debug binary as it is,
/// fresh or stale; they compile only if it is absent.
pub proof fn shortcuts_never_surprise(v: LauncherView, log: Seq<Seq<char>>, app: AppView)
    requires
        v.screen is List,
        selected_app(v) == Some(app),
    ensures
        match of_kind(app.prebuilts, BinKind::Release) {
            Some(p) => runs_file(key_step(v, log, Key::Char('r')).effect, p.path),
            None => compiles_in_turn(v, app, true, key_step(v, log, Key::Char('r'))),
        },
        match of_kind(app.prebuilts, BinKind::Debug) {
            Some(p) => runs_file(key_step(v, log, Key::Char('d')).effect, p.path),
            None => compiles_in_turn(v, app, false, key_step(v, log, Key::Char('d'))),
        },
{
}

/// In the picker that `b` opens, Enter on a row runs the profile's binary as
/// it is where there is one, and `f` on the release and debug rows always
/// compiles. On the row of the installed copy `f` does nothing.
pub proof fn picker_runs_or_rebuilds(
    v: LauncherView,
    log: Seq<Seq<char>>,
    app: AppView,
    sel: usize,
)
    requires
        v.screen is List,
        selected_app(v) == Some(app),
        sel < picker_choices(app).len(),
    ensures
        ({
            let opened = picker_set(key_step(v, log, Key::Char('b')).launcher, sel);
            let profile = if sel == 0 {
                BinKind::Release
            } else if sel == 1 {
                BinKind::Debug
            } else {
                BinKind::Installed
            };
            let enter = key_step(opened, log, Key::Enter);
            let force = key_step(opened, log, Key::Char('f'));
            &&& match of_kind(app.prebuilts, profile) {
                Some(p) => runs_file(enter.effect, p.path) && enter.launcher == v,
                None => compiles_in_turn(v, app, sel == 0, enter),
            }
            &&& sel < 2 ==> compiles_in_turn(v, app, sel == 0, force)
            &&& sel == 2 ==> force.effect is Nothing && force.launcher == opened
        }),
{
}

/// The effect starts a cargo command in the background.
pub open spec fn takes_the_slot(effect: EffectView) -> bool {
    effect matches EffectView::Background { cargo, .. } && cargo
}

/// While a cargo command runs in the background, no key, no click and no
/// waiting launch starts another one there.
pub proof fn cargo_launches_wait_their_turn(
    v: LauncherView,
    log: Seq<Seq<char>>,
    key: Key,
    m: Mouse,
)
    requires
        slot_taken(v.jobs.running),
    ensures
        !takes_the_slot(key_step(v, log, key).effect),
        !takes_the_slot(mouse_step(v, log, m).effect),
        !takes_the_slot(waiting_launched(v).1),
{
}

/// A launch that had to wait is handed out as it was asked for, once it is the
/// first of those that wait and the cargo slot is free.
pub proof fn a_waiting_launch_is_handed_out(
    v: LauncherView,
    name: Seq<char>,
    action: RunAction,
    later: LauncherView,
)
    requires
        must_wait(v, AppKind::Windowed, action),
        later.jobs.waiting.len() > 0,
        later.jobs.waiting[0] == dispatched(
            v,
            name,
            AppKind::Windowed,
            action,
        ).0.jobs.waiting.last(),
        !slot_taken(later.jobs.running),
    ensures
        waiting_launched(later).1 == launch_effect(
            v.catalog.root,
            name,
            AppKind::Windowed,
            action,
        ),
        waiting_launched(later).0.jobs.waiting == later.jobs.waiting.drop_first(),
{
}

/// A terminal app's launch is handed out at once, whatever runs.
pub proof fn terminal_launches_do_not_wait(v: LauncherView, name: Seq<char>, action: RunAction)
    ensures
        dispatched(v, name, AppKind::Terminal, action) == (
            v,
            launch_effect(v.catalog.root, name, AppKind::Terminal, action),
        ),
{
}

/// A left click on a row of the list does what selecting that row and
/// pressing Enter does; a right click does what selecting it and pressing `b`
/// does.
pub proof fn clicks_do_what_keys_do(v: LauncherView, log: Seq<Seq<char>>, column: u16, row: u16)
    requires
        v.screen is List,
        list_row_hit(v, column as int, row as int) is Some,
    ensures
        ({
            let there = selection_set(v, list_row_hit(v, column as int, row as int)->0);
            &&& mouse_step(v, log, Mouse { kind: MouseKind::LeftDown, column, row }) == key_step(
                there,
                log,
                Key::Enter,
            )
            &&& mouse_step(v, log, Mouse { kind: MouseKind::RightDown, column, row }) == key_step(
                there,
                log,
                Key::Char('b'),
            )
        }),
{
}

/// Moving the selection down and up again leads back, around the ends too.
pub proof fn down_and_up_lead_back(v: LauncherView, log: Seq<Seq<char>>)
    requires
        v.screen is List,
        selection_ok(v.state, v.apps.len()),
        v.apps.len() <= usize::MAX,
    ensures
        key_step(key_step(v, log, Key::Down).launcher, log, Key::Up).launcher == v,
        key_step(key_step(v, log, Key::Up).launcher, log, Key::Down).launcher == v,
{
    if v.apps.len() > 0 {
        let n = v.apps.len() as int;
        let i = v.state.selected->0 as int;
        assert(((i + 1) % n + -1) % n == i && ((i + -1) % n + 1) % n == i) by {
            vstd::arithmetic::div_mod::lemma_add_mod_noop_right(-1, i + 1, n);
            vstd::arithmetic::div_mod::lemma_add_mod_noop_right(1, i - 1, n);
            vstd::arithmetic::div_mod::lemma_small_mod(i as nat, n as nat);
        }
        assert(0 <= (i + 1) % n < n && 0 <= (i + -1) % n < n) by {
            vstd::arithmetic::div_mod::lemma_mod_bound(i + 1, n);
            vstd::arithmetic::div_mod::lemma_mod_bound(i - 1, n);
        }
    }
}

/// Leaving the picker leads back to the list as it was.
pub proof fn leaving_the_picker_changes_nothing(v: LauncherView, log: Seq<Seq<char>>)
    requires
        v.screen is List,
    ensures
        key_step(v, log, Key::Char('b')).launcher.screen is Run ==> key_step(
            key_step(v, log, Key::Char('b')).launcher,
            log,
            Key::Esc,
        ) == quietly(v, log),
{
}

/// Pressing `l` twice leaves the console as it was.
pub proof fn the_console_toggles(v: LauncherView, log: Seq<Seq<char>>)
    requires
        v.screen is List,
    ensures
        key_step(key_step(v, log, Key::Char('l')).launcher, log, Key::Char('l')).launcher == v,
{
}

/// `R` leaves every app that is not fresh waiting for a build or being built,
/// and drops nothing from the queue.
pub proof fn rebuild_all_covers_every_stale_app(v: LauncherView, log: Seq<Seq<char>>, i: int)
    requires
        v.screen is List,
        0 <= i < v.apps.len(),
        wants_build(v.apps[i]),
    ensures
        build_pending(key_step(v, log, Key::Char('R')).launcher.jobs, v.apps[i].name),
        v.jobs.queue.is_prefix_of(key_step(v, log, Key::Char('R')).launcher.jobs.queue),
{
    every_stale_app_waits(v.jobs, v.apps, i);
    queue_only_grows(v.jobs, v.apps);
}

/// An app that is not fresh waits for a build, or is being built.
proof fn every_stale_app_waits(jobs: JobsView, apps: Seq<AppView>, i: int)
    requires
        0 <= i < apps.len(),
        wants_build(apps[i]),
    ensures
        build_pending(rebuilds_queued(jobs, apps), apps[i].name),
    decreases apps.len(),
{
    let front = apps.drop_last();
    asking_keeps_what_is_pending(rebuilds_queued(jobs, front), apps.last().name, apps[i].name);
    if i < apps.len() - 1 {
        assert(front[i] == apps[i]);
        every_stale_app_waits(jobs, front, i);
    }
}

/// Asking for builds drops nothing from the queue.
proof fn queue_only_grows(jobs: JobsView, apps: Seq<AppView>)
    ensures
        jobs.queue.is_prefix_of(rebuilds_queued(jobs, apps).queue),
    decreases apps.len(),
{
    if apps.len() > 0 {
        queue_only_grows(jobs, apps.drop_last());
        let front = rebuilds_queued(jobs, apps.drop_last()).queue;
        let all = rebuilds_queued(jobs, apps).queue;
        assert(jobs.queue =~= front.subrange(0, jobs.queue.len() as int));
        assert(jobs.queue =~= all.subrange(0, jobs.queue.len() as int));
    } else {
        assert(jobs.queue =~= jobs.queue.subrange(0, jobs.queue.len() as int));
    }
}

} // verus!
