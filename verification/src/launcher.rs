//! The launcher's state, and what keys, the mouse and finished processes do
//! to it. Whatever has to happen outside (starting, killing and waiting for
//! processes) is returned as an [`Effect`] for the caller to carry out; the
//! caller reports back with [`Launcher::background_spawned`] and
//! [`Launcher::foreground_finished`], and asks [`Launcher::next_launch`] for
//! launches that had to wait.

use crate::discover::{
    app_views, kind_label, AppEntry, AppKind, AppView, BinKind, Catalog, CatalogView, Freshness,
    Launch, Prebuilt,
};
use crate::geometry::{contains, Rect};
use crate::job::{
    can_start_run, consistent, enqueued, launch_line, logged, run_started, run_taken, run_waits,
    slot_taken, tagged, CommandLine, CommandView, Jobs, JobsView, Program, ProgramView, Waiting, WaitingView,
};
use crate::paths::{display_path, path_text};
use crate::resolve::{are_resolved, of_kind, prebuilt_of_kind, resolve, Survey};
use crate::text::{decimal, number, pad, padded, texts};
use crate::ui::{freshness_note, freshness_suffix};
use std::path::PathBuf;
use vstd::prelude::*;

verus! {

/// One selectable line in the version picker.
pub struct RunChoice {
    pub label: String,
    /// What Enter on this row does: run the prebuilt as-is, or build + run.
    pub action: RunAction,
    /// The profile this row targets, so `f` can force-rebuild it. `None` for
    /// rows that can't be rebuilt in place (the installed copy).
    pub profile: Option<BinKind>,
}

/// What a picker choice does when confirmed.
pub enum RunAction {
    Exec(PathBuf),
    Cargo { release: bool },
}

impl Clone for RunAction {
    fn clone(&self) -> (r: Self)
        ensures
            r == *self,
    {
        match self {
            RunAction::Exec(path) => RunAction::Exec(path.clone()),
            RunAction::Cargo { release } => RunAction::Cargo { release: *release },
        }
    }
}

/// Which screen is showing. `Run` is a modal version picker over the app list.
pub enum Screen {
    List,
    Run { app: String, kind: AppKind, choices: Vec<RunChoice>, sel: usize },
}

/// The model of a [`RunChoice`].
pub struct ChoiceView {
    pub label: Seq<char>,
    pub action: RunAction,
    pub profile: Option<BinKind>,
}

/// The model of a [`Screen`].
pub enum ScreenView {
    List,
    Run { app: Seq<char>, kind: AppKind, choices: Seq<ChoiceView>, sel: usize },
}

impl View for RunChoice {
    type V = ChoiceView;

    open spec fn view(&self) -> ChoiceView {
        ChoiceView { label: self.label@, action: self.action, profile: self.profile }
    }
}

/// The models of a list of choices.
pub open spec fn choice_views(choices: Seq<RunChoice>) -> Seq<ChoiceView> {
    choices.map_values(|c: RunChoice| c@)
}

impl View for Screen {
    type V = ScreenView;

    open spec fn view(&self) -> ScreenView {
        match *self {
            Screen::List => ScreenView::List,
            Screen::Run { app, kind, choices, sel } => ScreenView::Run {
                app: app@,
                kind,
                choices: choice_views(choices@),
                sel,
            },
        }
    }
}

/// Which app of the list is selected, and which one stands in its first row.
#[derive(Clone, Copy, PartialEq, Eq, Structural, Debug)]
pub struct ListState {
    pub selected: Option<usize>,
    pub offset: usize,
}

/// The list state with another selection. Without one the list starts over
/// at the top.
pub open spec fn with_selection(s: ListState, selected: Option<usize>) -> ListState {
    ListState {
        selected,
        offset: if selected is None {
            0
        } else {
            s.offset
        },
    }
}

impl ListState {
    /// Selects an app, or none.
    pub fn select(&mut self, selected: Option<usize>)
        ensures
            *final(self) == with_selection(*old(self), selected),
    {
        self.selected = selected;
        if selected.is_none() {
            self.offset = 0;
        }
    }
}

/// Everything the launcher knows.
pub struct Launcher {
    pub apps: Vec<AppEntry>,
    pub catalog: Catalog,
    pub state: ListState,
    pub status: String,
    pub screen: Screen,
    pub jobs: Jobs,
    pub tick: u64,
    pub quit: bool,
    pub list_inner: Rect,
    pub picker_inner: Rect,
    pub detail_area: Rect,
    pub console_area: Rect,
}

/// The model of a [`Launcher`].
pub struct LauncherView {
    pub apps: Seq<AppView>,
    pub catalog: CatalogView,
    pub state: ListState,
    pub status: Seq<char>,
    pub screen: ScreenView,
    pub jobs: JobsView,
    pub tick: u64,
    pub quit: bool,
    pub list_inner: Rect,
    pub picker_inner: Rect,
    pub detail_area: Rect,
    pub console_area: Rect,
}

impl View for Launcher {
    type V = LauncherView;

    open spec fn view(&self) -> LauncherView {
        LauncherView {
            apps: app_views(self.apps@),
            catalog: self.catalog@,
            state: self.state,
            status: self.status@,
            screen: self.screen@,
            jobs: self.jobs@,
            tick: self.tick,
            quit: self.quit,
            list_inner: self.list_inner,
            picker_inner: self.picker_inner,
            detail_area: self.detail_area,
            console_area: self.console_area,
        }
    }
}

/// The selected position is that of an app; while there are apps, one is
/// selected.
pub open spec fn selection_ok(state: ListState, count: nat) -> bool {
    &&& state.selected matches Some(i) ==> i < count
    &&& count > 0 ==> state.selected is Some
}

/// The highlighted row of the picker is one of its choices, of which there are
/// at most three.
pub open spec fn screen_ok(screen: ScreenView) -> bool {
    screen matches ScreenView::Run { choices, sel, .. } ==> sel < choices.len() <= 3
}

/// What holds of the launcher at all times.
pub open spec fn launcher_ok(v: LauncherView) -> bool {
    &&& selection_ok(v.state, v.apps.len())
    &&& screen_ok(v.screen)
    &&& consistent(v.jobs)
    &&& v.list_inner.wf()
    &&& v.picker_inner.wf()
    &&& v.detail_area.wf()
    &&& v.console_area.wf()
}

/// A key, as far as the launcher tells keys apart.
#[derive(Clone, Copy, PartialEq, Eq, Structural, Debug)]
pub enum Key {
    Char(char),
    Up,
    Down,
    Enter,
    Esc,
    PageUp,
    PageDown,
    Other,
}

/// What a mouse event is about.
#[derive(Clone, Copy, PartialEq, Eq, Structural, Debug)]
pub enum MouseKind {
    LeftDown,
    RightDown,
    ScrollDown,
    ScrollUp,
    Other,
}

/// A mouse event and where it took place.
#[derive(Clone, Copy, PartialEq, Eq, Structural, Debug)]
pub struct Mouse {
    pub kind: MouseKind,
    pub column: u16,
    pub row: u16,
}

/// What the caller is to do outside.
pub enum Effect {
    Nothing,
    /// Start the command in the background and report to
    /// [`Launcher::background_spawned`].
    Background { name: String, command: CommandLine, cargo: bool },
    /// Hand the terminal over to the command, wait for it and report to
    /// [`Launcher::foreground_finished`]. `how` is shown above its output.
    Foreground { name: String, how: String, command: CommandLine },
    /// Kill the processes of the jobs that stood at these positions.
    Kill(Vec<usize>),
}

/// The model of an [`Effect`].
pub enum EffectView {
    Nothing,
    Background { name: Seq<char>, command: CommandView, cargo: bool },
    Foreground { name: Seq<char>, how: Seq<char>, command: CommandView },
    Kill(Seq<usize>),
}

impl View for Effect {
    type V = EffectView;

    open spec fn view(&self) -> EffectView {
        match *self {
            Effect::Nothing => EffectView::Nothing,
            Effect::Background { name, command, cargo } => EffectView::Background {
                name: name@,
                command: command@,
                cargo,
            },
            Effect::Foreground { name, how, command } => EffectView::Foreground {
                name: name@,
                how: how@,
                command: command@,
            },
            Effect::Kill(at) => EffectView::Kill(at@),
        }
    }
}

/// How a command that had the terminal came out.
pub enum RunOutcome {
    Clean,
    /// It ended without success; the text tells its status.
    Exited(String),
    /// It could not be started; the text tells why.
    NotStarted(String),
}

// --- commands -----------------------------------------------------------

/// The command that runs a prebuilt binary.
pub open spec fn exec_command_view(root: PathBuf, path: PathBuf) -> CommandView {
    CommandView { program: ProgramView::File(path), args: Seq::empty(), dir: root }
}

/// The command that builds and runs an app.
pub open spec fn cargo_run_view(root: PathBuf, name: Seq<char>, release: bool) -> CommandView {
    CommandView {
        program: ProgramView::Named("cargo"@),
        args: if release {
            seq!["run"@, "-p"@, name, "--release"@]
        } else {
            seq!["run"@, "-p"@, name]
        },
        dir: root,
    }
}

/// The command that runs a prebuilt binary.
pub fn exec_command(root: &PathBuf, path: &PathBuf) -> (r: CommandLine)
    ensures
        r@ == exec_command_view(*root, *path),
{
    let args: Vec<String> = Vec::new();
    assert(texts(args@) =~= Seq::<Seq<char>>::empty());
    CommandLine { program: Program::File(path.clone()), args, dir: root.clone() }
}

/// The command that builds and runs an app.
pub fn cargo_run_command(root: &PathBuf, name: &str, release: bool) -> (r: CommandLine)
    ensures
        r@ == cargo_run_view(*root, name@, release),
{
    let mut args: Vec<String> = Vec::new();
    args.push("run".to_owned());
    args.push("-p".to_owned());
    args.push(name.to_owned());
    if release {
        args.push("--release".to_owned());
    }
    assert(texts(args@) =~= cargo_run_view(*root, name@, release).args);
    CommandLine { program: Program::Named("cargo".to_owned()), args, dir: root.clone() }
}

/// The words for what an action runs.
pub open spec fn action_text(name: Seq<char>, action: RunAction) -> Seq<char> {
    match action {
        RunAction::Exec(path) => "ran "@ + path_text(path),
        RunAction::Cargo { release } => if release {
            "cargo run -p "@ + name + " --release"@
        } else {
            "cargo run -p "@ + name
        },
    }
}

/// The command for an action.
pub open spec fn action_command(root: PathBuf, name: Seq<char>, action: RunAction) -> CommandView {
    match action {
        RunAction::Exec(path) => exec_command_view(root, path),
        RunAction::Cargo { release } => cargo_run_view(root, name, release),
    }
}

/// Where a launch goes: windowed apps run in the background, terminal apps
/// get the real terminal.
pub open spec fn launch_effect(
    root: PathBuf,
    name: Seq<char>,
    kind: AppKind,
    action: RunAction,
) -> EffectView {
    match kind {
        AppKind::Windowed => EffectView::Background {
            name,
            command: action_command(root, name, action),
            cargo: action is Cargo,
        },
        AppKind::Terminal => EffectView::Foreground {
            name,
            how: action_text(name, action),
            command: action_command(root, name, action),
        },
    }
}

/// The status line for a launch that waits for cargo.
pub open spec fn waiting_text(name: Seq<char>) -> Seq<char> {
    name + " waits for cargo"@
}

/// The launch has to wait: it is a windowed app's `cargo run`, which takes the
/// cargo slot, and a job holds it or another run waits for it. A terminal app
/// has the terminal to itself and does not wait.
pub open spec fn must_wait(v: LauncherView, kind: AppKind, action: RunAction) -> bool {
    &&& kind == AppKind::Windowed
    &&& action is Cargo
    &&& slot_taken(v.jobs.running) || v.jobs.waiting.len() > 0
}

/// The launcher after a launch was told to wait.
pub open spec fn launch_waits(v: LauncherView, name: Seq<char>, action: RunAction) -> LauncherView {
    LauncherView {
        jobs: run_waits(
            v.jobs,
            WaitingView { name, command: action_command(v.catalog.root, name, action) },
        ),
        status: waiting_text(name),
        ..v
    }
}

/// What a launch comes to: it is handed out, or waits to be.
pub open spec fn dispatched(
    v: LauncherView,
    name: Seq<char>,
    kind: AppKind,
    action: RunAction,
) -> (LauncherView, EffectView) {
    if must_wait(v, kind, action) {
        (launch_waits(v, name, action), EffectView::Nothing)
    } else {
        (v, launch_effect(v.catalog.root, name, kind, action))
    }
}

/// What the launches that wait come to: the first one is handed out, if the
/// cargo slot is free.
pub open spec fn waiting_launched(v: LauncherView) -> (LauncherView, EffectView) {
    if can_start_run(v.jobs) {
        (
            LauncherView { jobs: run_taken(v.jobs), ..v },
            EffectView::Background {
                name: v.jobs.waiting[0].name,
                command: v.jobs.waiting[0].command,
                cargo: true,
            },
        )
    } else {
        (v, EffectView::Nothing)
    }
}

/// The effect of a launch.
fn launch(root: &PathBuf, name: &str, kind: AppKind, action: &RunAction) -> (r: Effect)
    ensures
        r@ == launch_effect(*root, name@, kind, *action),
{
    let command: CommandLine;
    let how: String;
    let cargo: bool;
    match action {
        RunAction::Exec(path) => {
            command = exec_command(root, path);
            let shown = display_path(path);
            let mut text: String = "ran ".to_owned();
            text.append(shown.as_str());
            how = text;
            cargo = false;
        },
        RunAction::Cargo { release } => {
            command = cargo_run_command(root, name, *release);
            let mut text: String = "cargo run -p ".to_owned();
            text.append(name);
            if *release {
                text.append(" --release");
            }
            how = text;
            cargo = true;
        },
    }
    match kind {
        AppKind::Windowed => Effect::Background { name: name.to_owned(), command, cargo },
        AppKind::Terminal => Effect::Foreground { name: name.to_owned(), how, command },
    }
}

/// Routes a resolved launch: windowed apps run in the background (log panel),
/// terminal apps get the real terminal handed over (blocking). A `cargo run` in
/// the background waits while another cargo command runs there; see
/// [`Launcher::next_launch`].
pub fn dispatch(launcher: &mut Launcher, name: &str, kind: AppKind, action: &RunAction) -> (r:
    Effect)
    requires
        old(launcher).wf(),
    ensures
        final(launcher).wf(),
        final(launcher)@ == dispatched(old(launcher)@, name@, kind, *action).0,
        r@ == dispatched(old(launcher)@, name@, kind, *action).1,
{
    match (kind, action) {
        (AppKind::Windowed, RunAction::Cargo { release }) => {
            if launcher.jobs.cargo_active() || launcher.jobs.waiting.len() > 0 {
                let command = cargo_run_command(&launcher.catalog.root, name, *release);
                launcher.jobs.wait_for_slot(Waiting { name: name.to_owned(), command });
                let mut text: String = name.to_owned();
                text.append(" waits for cargo");
                launcher.status = text;
                return Effect::Nothing;
            }
        },
        _ => {},
    }
    launch(&launcher.catalog.root, name, kind, action)
}

// --- the version picker -------------------------------------------------

/// The picker's line for a binary that exists.
pub open spec fn run_label_text(kind: BinKind, path: Seq<char>, freshness: Freshness) -> Seq<char> {
    "run "@ + padded(kind_label(kind), 9) + " "@ + path + freshness_note(freshness)
}

/// The picker's line for a profile without a binary.
pub open spec fn build_label_text(profile: BinKind, name: Seq<char>) -> Seq<char> {
    "build "@ + padded(kind_label(profile), 7) + " cargo run -p "@ + name + if profile
        == BinKind::Release {
        " --release"@
    } else {
        ""@
    }
}

/// The picker's line for a binary that exists, shown as `path`.
pub fn run_label(kind: BinKind, path: &str, freshness: Freshness) -> (r: String)
    ensures
        r@ == run_label_text(kind, path@, freshness),
{
    let mut out: String = "run ".to_owned();
    out.append(pad(kind.label(), 9).as_str());
    out.append(" ");
    out.append(path);
    out.append(freshness_suffix(freshness));
    out
}

/// The picker's line for a profile without a binary.
pub fn build_label(profile: BinKind, name: &str) -> (r: String)
    ensures
        r@ == build_label_text(profile, name@),
{
    let mut out: String = "build ".to_owned();
    out.append(pad(profile.label(), 7).as_str());
    out.append(" cargo run -p ");
    out.append(name);
    out.append(
        match profile {
            BinKind::Release => " --release",
            _ => "",
        },
    );
    out
}

/// The row for a binary that exists: Enter runs it as it is.
pub open spec fn exec_choice(p: Prebuilt, profile: Option<BinKind>) -> ChoiceView {
    ChoiceView {
        label: run_label_text(p.kind, path_text(p.path), p.freshness),
        action: RunAction::Exec(p.path),
        profile,
    }
}

/// The row for a profile: the binary if there is one, else a build.
pub open spec fn profile_choice(app: AppView, profile: BinKind) -> ChoiceView {
    match of_kind(app.prebuilts, profile) {
        Some(p) => exec_choice(p, Some(profile)),
        None => ChoiceView {
            label: build_label_text(profile, app.name),
            action: RunAction::Cargo { release: profile == BinKind::Release },
            profile: Some(profile),
        },
    }
}

/// The rows of the picker: release, debug, and the installed copy if there is
/// one, which can be run but not rebuilt in place.
pub open spec fn picker_choices(app: AppView) -> Seq<ChoiceView> {
    let profiles = seq![
        profile_choice(app, BinKind::Release),
        profile_choice(app, BinKind::Debug),
    ];
    match of_kind(app.prebuilts, BinKind::Installed) {
        Some(p) => profiles.push(exec_choice(p, None)),
        None => profiles,
    }
}

/// The picker for an app, with its first row highlighted.
pub open spec fn picker_for(app: AppView) -> ScreenView {
    ScreenView::Run { app: app.name, kind: app.kind, choices: picker_choices(app), sel: 0 }
}

/// The row for a binary that exists.
fn choice_to_run(p: &Prebuilt, profile: Option<BinKind>) -> (r: RunChoice)
    ensures
        r@ == exec_choice(*p, profile),
{
    let shown = display_path(&p.path);
    RunChoice {
        label: run_label(p.kind, shown.as_str(), p.freshness),
        action: RunAction::Exec(p.path.clone()),
        profile,
    }
}

/// The row for a profile.
fn choice_for(app: &AppEntry, profile: BinKind) -> (r: RunChoice)
    ensures
        r@ == profile_choice(app@, profile),
{
    match prebuilt_of_kind(&app.prebuilts, profile) {
        Some(p) => choice_to_run(p, Some(profile)),
        None => RunChoice {
            label: build_label(profile, app.name.as_str()),
            action: RunAction::Cargo {
                release: match profile {
                    BinKind::Release => true,
                    _ => false,
                },
            },
            profile: Some(profile),
        },
    }
}

/// The picker for an app.
pub fn run_picker(app: &AppEntry) -> (r: Screen)
    ensures
        r@ == picker_for(app@),
{
    let mut choices: Vec<RunChoice> = Vec::new();
    choices.push(choice_for(app, BinKind::Release));
    choices.push(choice_for(app, BinKind::Debug));
    match prebuilt_of_kind(&app.prebuilts, BinKind::Installed) {
        Some(p) => {
            choices.push(choice_to_run(p, None));
        },
        None => {},
    }
    assert(choice_views(choices@) =~= picker_choices(app@));
    Screen::Run { app: app.name.clone(), kind: app.kind, choices, sel: 0 }
}

// --- moving about -------------------------------------------------------

/// `(cur + delta)` modulo `len`.
fn wrap(cur: usize, delta: isize, len: usize) -> (r: usize)
    requires
        len > 0,
    ensures
        r == (cur + delta) % len as int,
        r < len,
{
    let n: i128 = len as i128;
    let at: i128 = (cur % len) as i128;
    let far: i128 = delta as i128;
    if far >= 0 {
        let d: i128 = far % n;
        let r: i128 = (at + d) % n;
        proof {
            vstd::arithmetic::div_mod::lemma_add_mod_noop(cur as int, delta as int, len as int);
        }
        r as usize
    } else {
        let back: i128 = -far;
        let d: i128 = back % n;
        let r: i128 = (at + (n - d)) % n;
        proof {
            vstd::arithmetic::div_mod::lemma_sub_mod_noop(cur as int, back as int, len as int);
            vstd::arithmetic::div_mod::lemma_mod_add_multiples_vanish(at - d, len as int);
        }
        r as usize
    }
}

/// The selection, moved by `delta` apps, around the ends of the list.
pub open spec fn selection_moved(v: LauncherView, delta: int) -> LauncherView {
    if v.apps.len() == 0 {
        v
    } else {
        let cur = match v.state.selected {
            Some(i) => i as int,
            None => 0,
        };
        LauncherView {
            state: with_selection(
                v.state,
                Some(((cur + delta) % v.apps.len() as int) as usize),
            ),
            ..v
        }
    }
}

/// The app at `i` is selected.
pub open spec fn selection_set(v: LauncherView, i: int) -> LauncherView {
    LauncherView { state: with_selection(v.state, Some(i as usize)), ..v }
}

/// The selected app.
pub open spec fn selected_app(v: LauncherView) -> Option<AppView> {
    match v.state.selected {
        Some(i) => if i < v.apps.len() {
            Some(v.apps[i as int])
        } else {
            None
        },
        None => None,
    }
}

/// How many choices the picker has.
pub open spec fn choice_count(screen: ScreenView) -> nat {
    match screen {
        ScreenView::Run { choices, .. } => choices.len(),
        ScreenView::List => 0,
    }
}

/// The picker with its highlighted row moved by `delta`, around the ends.
pub open spec fn picker_moved(v: LauncherView, delta: int) -> LauncherView {
    match v.screen {
        ScreenView::Run { app, kind, choices, sel } => if choices.len() > 0 {
            LauncherView {
                screen: ScreenView::Run {
                    app,
                    kind,
                    choices,
                    sel: ((sel + delta) % choices.len() as int) as usize,
                },
                ..v
            }
        } else {
            v
        },
        ScreenView::List => v,
    }
}

/// The picker with the row at `i` highlighted.
pub open spec fn picker_set(v: LauncherView, i: usize) -> LauncherView {
    match v.screen {
        ScreenView::Run { app, kind, choices, .. } => LauncherView {
            screen: ScreenView::Run { app, kind, choices, sel: i },
            ..v
        },
        ScreenView::List => v,
    }
}

/// The picker for the selected app is open.
pub open spec fn picker_opened(v: LauncherView) -> LauncherView {
    match selected_app(v) {
        Some(app) => LauncherView { screen: picker_for(app), ..v },
        None => v,
    }
}

/// The app list is showing.
pub open spec fn picker_closed(v: LauncherView) -> LauncherView {
    LauncherView { screen: ScreenView::List, ..v }
}

/// The entry that a click hits in a list of `count` entries, of which the one
/// at `offset` stands in the first row of `area`.
pub open spec fn row_hit(area: Rect, offset: int, count: int, col: int, row: int) -> Option<int> {
    if area.covers(col, row) && offset + (row - area.y) < count {
        Some(offset + (row - area.y))
    } else {
        None
    }
}

/// The app that a click hits.
pub open spec fn list_row_hit(v: LauncherView, col: int, row: int) -> Option<int> {
    row_hit(v.list_inner, v.state.offset as int, v.apps.len() as int, col, row)
}

/// The choice that a click hits.
pub open spec fn picker_row_hit(v: LauncherView, col: int, row: int) -> Option<int> {
    row_hit(v.picker_inner, 0, choice_count(v.screen) as int, col, row)
}

/// The entry that a click hits.
fn hit(area: Rect, offset: usize, count: usize, col: u16, row: u16) -> (r: Option<usize>)
    requires
        area.wf(),
    ensures
        match r {
            Some(i) => row_hit(area, offset as int, count as int, col as int, row as int) == Some(
                i as int,
            ),
            None => row_hit(area, offset as int, count as int, col as int, row as int) is None,
        },
{
    if !contains(area, col, row) {
        return None;
    }
    let down: usize = (row - area.y) as usize;
    if down < count && offset < count - down {
        Some(offset + down)
    } else {
        None
    }
}

/// The app needs a background rebuild: it is not fresh.
pub open spec fn wants_build(app: AppView) -> bool {
    match app.launch {
        Launch::BuildOnly => true,
        Launch::Prebuilt { freshness, .. } => freshness == Freshness::Stale,
    }
}

/// An app worth a background rebuild: not already fresh.
pub fn needs_build(app: &AppEntry) -> (r: bool)
    ensures
        r == wants_build(app@),
{
    match &app.launch {
        Launch::BuildOnly => true,
        Launch::Prebuilt { freshness, .. } => match freshness {
            Freshness::Stale => true,
            Freshness::Fresh => false,
        },
    }
}

/// The jobs after a build of every app that is not fresh is asked for.
pub open spec fn rebuilds_queued(jobs: JobsView, apps: Seq<AppView>) -> JobsView
    decreases apps.len(),
{
    if apps.len() == 0 {
        jobs
    } else {
        let front = rebuilds_queued(jobs, apps.drop_last());
        if wants_build(apps.last()) {
            enqueued(front, apps.last().name)
        } else {
            front
        }
    }
}

/// How many of the apps are not fresh.
pub open spec fn rebuild_count(apps: Seq<AppView>) -> nat {
    apps.filter(|a: AppView| wants_build(a)).len()
}

/// The launcher after a rebuild of everything is asked for.
pub open spec fn all_rebuilt(v: LauncherView) -> LauncherView {
    LauncherView {
        jobs: rebuilds_queued(v.jobs, v.apps),
        status: if rebuild_count(v.apps) == 0 {
            "everything is already fresh"@
        } else {
            "queued "@ + decimal(rebuild_count(v.apps)) + " build(s)"@
        },
        ..v
    }
}

/// Where the selection goes when the list holds `count` apps afterwards.
pub open spec fn selection_kept(state: ListState, count: nat) -> ListState {
    if count == 0 {
        with_selection(state, None)
    } else if state.selected is None || state.selected->0 >= count {
        with_selection(state, Some((count - 1) as usize))
    } else {
        state
    }
}

/// `after` is `before` with its apps resolved anew.
pub open spec fn is_refreshed(before: LauncherView, survey: Survey, after: LauncherView) -> bool {
    &&& are_resolved(before.catalog, survey, after.apps)
    &&& after == LauncherView {
        apps: after.apps,
        state: selection_kept(before.state, after.apps.len()),
        ..before
    }
}

/// The status line after a windowed app was launched.
pub open spec fn launched_text(name: Seq<char>) -> Seq<char> {
    "launched "@ + name + " — press l for its log"@
}

/// The launcher after a launch in the background, which may have failed.
pub open spec fn launch_reported(
    v: LauncherView,
    name: Seq<char>,
    cargo: bool,
    error: Option<String>,
) -> LauncherView {
    LauncherView {
        jobs: if error is None {
            run_started(v.jobs, name, cargo)
        } else {
            v.jobs
        },
        status: launched_text(name),
        ..v
    }
}

/// The launcher after another turn of the event loop.
pub open spec fn ticked(v: LauncherView) -> LauncherView {
    LauncherView {
        tick: if v.tick == u64::MAX {
            0
        } else {
            (v.tick + 1) as u64
        },
        ..v
    }
}

/// The status line after a command gave the terminal back.
pub open spec fn outcome_text(name: Seq<char>, outcome: RunOutcome) -> Seq<char> {
    match outcome {
        RunOutcome::Clean => name + " exited cleanly"@,
        RunOutcome::Exited(s) => name + " exited ("@ + s@ + ")"@,
        RunOutcome::NotStarted(e) => "failed to launch "@ + name + ": "@ + e@,
    }
}

/// The status line after a command gave the terminal back.
pub fn outcome_message(name: &str, outcome: &RunOutcome) -> (r: String)
    ensures
        r@ == outcome_text(name@, *outcome),
{
    match outcome {
        RunOutcome::Clean => {
            let mut out: String = name.to_owned();
            out.append(" exited cleanly");
            out
        },
        RunOutcome::Exited(s) => {
            let mut out: String = name.to_owned();
            out.append(" exited (");
            out.append(s.as_str());
            out.append(")");
            out
        },
        RunOutcome::NotStarted(e) => {
            let mut out: String = "failed to launch ".to_owned();
            out.append(name);
            out.append(": ");
            out.append(e.as_str());
            out
        },
    }
}

/// What Enter on the list does with an app: run the chosen binary as it is, or
/// build where there is none.
pub open spec fn default_action(app: AppView) -> RunAction {
    match app.launch {
        Launch::Prebuilt { path, .. } => RunAction::Exec(path),
        Launch::BuildOnly => RunAction::Cargo { release: false },
    }
}

/// What a profile shortcut does with an app: run that binary as it is, or
/// build it where there is none.
pub open spec fn profile_action(app: AppView, want: BinKind) -> RunAction {
    match of_kind(app.prebuilts, want) {
        Some(p) => RunAction::Exec(p.path),
        None => RunAction::Cargo { release: want == BinKind::Release },
    }
}

/// What launching the selected app comes to.
pub open spec fn selected_launch(v: LauncherView) -> (LauncherView, EffectView) {
    match selected_app(v) {
        Some(app) => dispatched(v, app.name, app.kind, default_action(app)),
        None => (v, EffectView::Nothing),
    }
}

/// What running a profile of the selected app comes to.
pub open spec fn profile_launch(v: LauncherView, want: BinKind) -> (LauncherView, EffectView) {
    match selected_app(v) {
        Some(app) => dispatched(v, app.name, app.kind, profile_action(app, want)),
        None => (v, EffectView::Nothing),
    }
}

impl Launcher {
    /// The maps hold each key once, and what holds at all times does.
    pub open spec fn wf(&self) -> bool {
        &&& self.catalog.wf()
        &&& self.jobs.wf()
        &&& launcher_ok(self@)
    }

    /// A launcher for these apps, with the first one selected.
    pub fn new(apps: Vec<AppEntry>, catalog: Catalog) -> (r: Self)
        requires
            catalog.wf(),
        ensures
            r.wf(),
            r@ == launcher_start(app_views(apps@), catalog@),
    {
        let mut state = ListState { selected: None, offset: 0 };
        if apps.len() > 0 {
            state.select(Some(0));
        }
        let jobs = Jobs::new(catalog.root.clone());
        Launcher {
            apps,
            catalog,
            state,
            status: String::new(),
            screen: Screen::List,
            jobs,
            tick: 0,
            quit: false,
            list_inner: Rect::empty(),
            picker_inner: Rect::empty(),
            detail_area: Rect::empty(),
            console_area: Rect::empty(),
        }
    }

    /// The workspace's root directory.
    pub fn root(&self) -> (r: PathBuf)
        ensures
            r == self@.catalog.root,
    {
        self.catalog.root.clone()
    }

    /// Moves the selection by `delta` apps.
    pub fn move_selection(&mut self, delta: isize)
        requires
            old(self).wf(),
        ensures
            final(self).wf(),
            final(self)@ == selection_moved(old(self)@, delta as int),
    {
        if self.apps.len() == 0 {
            return;
        }
        let cur: usize = match self.state.selected {
            Some(i) => i,
            None => 0,
        };
        self.state.select(Some(wrap(cur, delta, self.apps.len())));
    }

    /// The selected app.
    pub fn selected(&self) -> (r: Option<&AppEntry>)
        ensures
            r is Some <==> selected_app(self@) is Some,
            r matches Some(app) ==> app@ == selected_app(self@)->0,
    {
        match self.state.selected {
            Some(i) => if i < self.apps.len() {
                Some(&self.apps[i])
            } else {
                None
            },
            None => None,
        }
    }

    /// Re-resolves freshness after a build or launch. The selection stays
    /// where it is, or goes to the last app.
    pub fn refresh(&mut self, survey: &Survey)
        requires
            old(self).wf(),
            survey.covers(old(self)@.catalog),
        ensures
            final(self).wf(),
            is_refreshed(old(self)@, *survey, final(self)@),
    {
        self.apps = resolve(&self.catalog, survey);
        if self.apps.len() == 0 {
            self.state.select(None);
        } else {
            let lost = match self.state.selected {
                Some(s) => s >= self.apps.len(),
                None => true,
            };
            if lost {
                self.state.select(Some(self.apps.len() - 1));
            }
        }
    }

    /// Queues a build of every app that is not fresh.
    pub fn rebuild_all(&mut self)
        requires
            old(self).wf(),
        ensures
            final(self).wf(),
            final(self)@ == all_rebuilt(old(self)@),
    {
        let ghost apps = self@.apps;
        let ghost before = self.jobs@;
        let ghost p = |a: AppView| wants_build(a);
        let mut count: usize = 0;
        let mut i: usize = 0;
        proof {
            reveal(Seq::filter);
            assert(apps.take(0) =~= Seq::<AppView>::empty());
        }
        while i < self.apps.len()
            invariant
                p == (|a: AppView| wants_build(a)),
                apps == app_views(self.apps@),
                self.jobs.wf(),
                i <= apps.len(),
                count <= i,
                count == apps.take(i as int).filter(p).len(),
                self.jobs@ == rebuilds_queued(before, apps.take(i as int)),
                self@ == (LauncherView { jobs: self.jobs@, ..old(self)@ }),
                self.catalog == old(self).catalog,
            decreases apps.len() - i,
        {
            proof {
                assert(apps.take(i + 1) =~= apps.take(i as int).push(apps[i as int]));
                assert(apps.take(i + 1).drop_last() =~= apps.take(i as int));
                apps.take(i as int).lemma_filter_push(apps[i as int], p);
            }
            if needs_build(&self.apps[i]) {
                let name: String = self.apps[i].name.clone();
                self.jobs.enqueue_build(name.as_str());
                count = count + 1;
            }
            i = i + 1;
        }
        assert(apps.take(i as int) =~= apps);
        if count == 0 {
            self.status = "everything is already fresh".to_owned();
        } else {
            let mut text: String = "queued ".to_owned();
            text.append(number(count).as_str());
            text.append(" build(s)");
            self.status = text;
        }
    }

    /// Opens the version picker for the selected app: one row per profile. If
    /// a profile's binary exists, Enter runs it as-is (even stale); if not,
    /// Enter builds + runs it. `f` on any release/debug row forces a rebuild
    /// first. The installed copy is run-only.
    pub fn open_run_picker(&mut self)
        requires
            old(self).wf(),
        ensures
            final(self).wf(),
            final(self)@ == picker_opened(old(self)@),
    {
        let screen: Option<Screen> = match self.selected() {
            Some(app) => Some(run_picker(app)),
            None => None,
        };
        match screen {
            Some(s) => {
                self.screen = s;
            },
            None => {},
        }
    }

    /// How many choices the picker has.
    pub fn picker_len(&self) -> (r: usize)
        ensures
            r == choice_count(self@.screen),
    {
        match &self.screen {
            Screen::Run { choices, .. } => choices.len(),
            Screen::List => 0,
        }
    }

    /// Moves the picker's highlighted row by `delta`.
    pub fn picker_move(&mut self, delta: isize)
        requires
            old(self).wf(),
        ensures
            final(self).wf(),
            final(self)@ == picker_moved(old(self)@, delta as int),
    {
        let len: usize = self.picker_len();
        if len > 0 {
            if let Screen::Run { sel, .. } = &mut self.screen {
                *sel = wrap(*sel, delta, len);
            }
        }
    }

    /// Highlights the picker's row at `i`.
    pub fn set_picker_sel(&mut self, i: usize)
        requires
            old(self).wf(),
        ensures
            final(self)@ == picker_set(old(self)@, i),
            i < choice_count(old(self)@.screen) ==> final(self).wf(),
    {
        if let Screen::Run { sel, .. } = &mut self.screen {
            *sel = i;
        }
    }

    /// The app that a click hits.
    pub fn list_hit(&self, col: u16, row: u16) -> (r: Option<usize>)
        requires
            self.wf(),
        ensures
            match r {
                Some(i) => list_row_hit(self@, col as int, row as int) == Some(i as int),
                None => list_row_hit(self@, col as int, row as int) is None,
            },
    {
        hit(self.list_inner, self.state.offset, self.apps.len(), col, row)
    }

    /// The choice that a click hits.
    pub fn picker_hit(&self, col: u16, row: u16) -> (r: Option<usize>)
        requires
            self.wf(),
        ensures
            match r {
                Some(i) => picker_row_hit(self@, col as int, row as int) == Some(i as int),
                None => picker_row_hit(self@, col as int, row as int) is None,
            },
    {
        hit(self.picker_inner, 0, self.picker_len(), col, row)
    }

    /// Is the cell on the detail panel?
    pub fn on_detail(&self, col: u16, row: u16) -> (r: bool)
        requires
            self.wf(),
        ensures
            r == self@.detail_area.covers(col as int, row as int),
    {
        contains(self.detail_area, col, row)
    }

    /// Is the cell on the log console?
    pub fn on_console(&self, col: u16, row: u16) -> (r: bool)
        requires
            self.wf(),
        ensures
            r == self@.console_area.covers(col as int, row as int),
    {
        contains(self.console_area, col, row)
    }

    /// Takes note that a windowed app was launched, or why it could not be. A
    /// `cargo run` takes the cargo slot, which has to be free.
    pub fn background_spawned(
        &mut self,
        name: &str,
        cargo: bool,
        error: Option<String>,
        log: &mut Vec<String>,
    )
        requires
            old(self).wf(),
            cargo ==> !slot_taken(old(self)@.jobs.running),
        ensures
            final(self).wf(),
            final(self)@ == (LauncherView {
                jobs: if error is None {
                    run_started(old(self)@.jobs, name@, cargo)
                } else {
                    old(self)@.jobs
                },
                status: launched_text(name@),
                ..old(self)@
            }),
            error is None ==> texts(final(log)@) == logged(
                texts(old(log)@),
                tagged(name@, "launched"@),
            ),
            error matches Some(e) ==> texts(final(log)@) == logged(
                texts(old(log)@),
                tagged(name@, "failed to launch: "@ + e@),
            ),
            final(self)@ == launch_reported(old(self)@, name@, cargo, error),
            texts(final(log)@) == logged(texts(old(log)@), launch_line(name@, error)),
    {
        self.jobs.spawn_run(name, cargo, error, log);
        let mut text: String = "launched ".to_owned();
        text.append(name);
        text.append(" — press l for its log");
        self.status = text;
    }

    /// Takes note of how a command that had the terminal came out, and
    /// re-resolves freshness.
    pub fn foreground_finished(&mut self, name: &str, outcome: &RunOutcome, survey: &Survey)
        requires
            old(self).wf(),
            survey.covers(old(self)@.catalog),
        ensures
            final(self).wf(),
            is_refreshed(
                LauncherView { status: outcome_text(name@, *outcome), ..old(self)@ },
                *survey,
                final(self)@,
            ),
    {
        self.status = outcome_message(name, outcome);
        self.refresh(survey);
    }

    /// Counts another turn of the event loop.
    pub fn advance_tick(&mut self)
        requires
            old(self).wf(),
        ensures
            final(self).wf(),
            final(self)@ == (LauncherView {
                tick: ((old(self)@.tick + 1) % 0x1_0000_0000_0000_0000) as u64,
                ..old(self)@
            }),
            final(self)@ == ticked(old(self)@),
    {
        self.tick = if self.tick == u64::MAX {
            0
        } else {
            self.tick + 1
        };
    }

    /// Hands out the launch that has waited longest for cargo, if no cargo
    /// command runs in the background.
    pub fn next_launch(&mut self) -> (r: Effect)
        requires
            old(self).wf(),
        ensures
            final(self).wf(),
            final(self)@ == waiting_launched(old(self)@).0,
            r@ == waiting_launched(old(self)@).1,
    {
        match self.jobs.next_run() {
            Some(run) => Effect::Background { name: run.name, command: run.command, cargo: true },
            None => Effect::Nothing,
        }
    }

    /// Enter / left-click on the list: run the chosen binary, or `cargo run`
    /// when there is none.
    pub fn launch_selected(&mut self) -> (r: Effect)
        requires
            old(self).wf(),
        ensures
            final(self).wf(),
            final(self)@ == selected_launch(old(self)@).0,
            r@ == selected_launch(old(self)@).1,
    {
        let chosen: Option<(String, AppKind, RunAction)> = match self.selected() {
            Some(app) => {
                let action = match &app.launch {
                    Launch::Prebuilt { path, .. } => RunAction::Exec(path.clone()),
                    Launch::BuildOnly => RunAction::Cargo { release: false },
                };
                Some((app.name.clone(), app.kind, action))
            },
            None => None,
        };
        match chosen {
            Some((name, kind, action)) => dispatch(self, name.as_str(), kind, &action),
            None => Effect::Nothing,
        }
    }

    /// Direct profile shortcut (`r` = release, `d` = debug): run that
    /// profile's prebuilt as-is, even if stale, so a quick demo never waits on
    /// a compile. Falls back to a `cargo run` that builds it only when no such
    /// binary exists.
    pub fn run_profile(&mut self, want: BinKind) -> (r: Effect)
        requires
            old(self).wf(),
        ensures
            final(self).wf(),
            final(self)@ == profile_launch(old(self)@, want).0,
            r@ == profile_launch(old(self)@, want).1,
    {
        let chosen: Option<(String, AppKind, RunAction)> = match self.selected() {
            Some(app) => {
                let action = match prebuilt_of_kind(&app.prebuilts, want) {
                    Some(p) => RunAction::Exec(p.path.clone()),
                    None => RunAction::Cargo {
                        release: match want {
                            BinKind::Release => true,
                            _ => false,
                        },
                    },
                };
                Some((app.name.clone(), app.kind, action))
            },
            None => None,
        };
        match chosen {
            Some((name, kind, action)) => dispatch(self, name.as_str(), kind, &action),
            None => Effect::Nothing,
        }
    }
}

/// The state in which a launcher starts.
pub open spec fn launcher_start(apps: Seq<AppView>, catalog: CatalogView) -> LauncherView {
    LauncherView {
        apps,
        catalog,
        state: ListState {
            selected: if apps.len() > 0 {
                Some(0)
            } else {
                None
            },
            offset: 0,
        },
        status: Seq::empty(),
        screen: ScreenView::List,
        jobs: JobsView {
            root: catalog.root,
            console_visible: false,
            console_scroll: 0,
            queue: Seq::empty(),
            waiting: Seq::empty(),
            running: Seq::empty(),
            status: Map::empty(),
        },
        tick: 0,
        quit: false,
        list_inner: crate::geometry::no_area(),
        picker_inner: crate::geometry::no_area(),
        detail_area: crate::geometry::no_area(),
        console_area: crate::geometry::no_area(),
    }
}

} // verus!
