//! Laws of the launcher: what each key and click does, which command a launch
//! hands out and where it runs, and what a rebuild of everything asks for.

use crate::discover::{AppKind, AppView, BinKind, CatalogView, Freshness, Launch, Prebuilt};
use crate::events::{asks_to_quit, key_step, loading_next, mouse_step, LoadingView, Progress, Step};
use crate::geometry::Rect;
use crate::job::{
    canceled, cancellations_logged, AppStatus, CommandView, JobKind, JobView, JobsView, ProgramView,
    WaitingView,
};
use crate::launcher::{
    build_label_text, choice_count, dispatched, is_refreshed, launch_reported, launched_text,
    launcher_start, must_wait, outcome_text, picker_choices, picker_moved, picker_set,
    rebuild_count, rebuilds_queued, run_label_text, selection_moved, ticked, waiting_launched,
    wants_build, ChoiceView, EffectView, Key, LauncherView, ListState, Mouse, MouseKind, RunAction,
    RunOutcome, ScreenView,
};
use crate::laws::jobs::{
    asking_queues_at_the_end, cargo_is_free, live_build, only_cargo_needs_the_slot,
};
use crate::paths::path_text;
use crate::resolve::{first_of_kind, first_of_kind_is_first, of_kind, Survey};
use crate::text::{decimal, padded};
use std::path::PathBuf;
use vstd::prelude::*;

verus! {

// --- commands -----------------------------------------------------------

/// The command is `cargo run -p` with the app's name, with `--release` exactly
/// if that is asked for, and runs in `root`.
pub open spec fn is_cargo_run(
    command: CommandView,
    root: PathBuf,
    name: Seq<char>,
    release: bool,
) -> bool {
    &&& command.program == ProgramView::Named("cargo"@)
    &&& command.args.len() == if release {
        4int
    } else {
        3int
    }
    &&& command.args[0] == "run"@
    &&& command.args[1] == "-p"@
    &&& command.args[2] == name
    &&& release ==> command.args[3] == "--release"@
    &&& command.dir == root
}

/// The command is the binary without arguments, and runs in `root`.
pub open spec fn is_run_of(command: CommandView, root: PathBuf, path: PathBuf) -> bool {
    &&& command.program == ProgramView::File(path)
    &&& command.args.len() == 0
    &&& command.dir == root
}

/// What `cargo run` is called above its output.
pub open spec fn cargo_run_words(name: Seq<char>, release: bool) -> Seq<char> {
    if release {
        "cargo run -p "@ + name + " --release"@
    } else {
        "cargo run -p "@ + name
    }
}

/// The binary at `path` was handed out: in the background for a windowed app,
/// in the terminal for a terminal app. The launcher stays as it was.
pub open spec fn binary_is_run(
    before: LauncherView,
    name: Seq<char>,
    kind: AppKind,
    path: PathBuf,
    after: LauncherView,
    effect: EffectView,
) -> bool {
    &&& after == before
    &&& kind is Windowed ==> {
        &&& effect is Background
        &&& effect->Background_name == name
        &&& is_run_of(effect->Background_command, before.catalog.root, path)
        &&& !effect->cargo
    }
    &&& kind is Terminal ==> {
        &&& effect is Foreground
        &&& effect->Foreground_name == name
        &&& effect->how == "ran "@ + path_text(path)
        &&& is_run_of(effect->Foreground_command, before.catalog.root, path)
    }
}

/// A cargo command is live in the background, or a launch waits for one to end.
pub open spec fn cargo_is_wanted(v: LauncherView) -> bool {
    !cargo_is_free(v.jobs.running) || v.jobs.waiting.len() > 0
}

/// `cargo run` was handed out, in the background for a windowed app, in the
/// terminal for a terminal app; or, for a windowed app while cargo is wanted, it
/// stands behind the launches that wait.
pub open spec fn cargo_is_run(
    before: LauncherView,
    name: Seq<char>,
    kind: AppKind,
    release: bool,
    after: LauncherView,
    effect: EffectView,
) -> bool {
    &&& kind is Windowed && cargo_is_wanted(before) ==> {
        let waiting = after.jobs.waiting;
        &&& effect is Nothing
        &&& waiting.len() == before.jobs.waiting.len() + 1
        &&& waiting.drop_last() == before.jobs.waiting
        &&& waiting.last().name == name
        &&& is_cargo_run(waiting.last().command, before.catalog.root, name, release)
        &&& after.status == name + " waits for cargo"@
        &&& after == LauncherView {
            status: after.status,
            jobs: JobsView { waiting, ..before.jobs },
            ..before
        }
    }
    &&& kind is Windowed && !cargo_is_wanted(before) ==> {
        &&& effect is Background
        &&& effect->Background_name == name
        &&& is_cargo_run(effect->Background_command, before.catalog.root, name, release)
        &&& effect->cargo
        &&& after == before
    }
    &&& kind is Terminal ==> {
        &&& effect is Foreground
        &&& effect->Foreground_name == name
        &&& effect->how == cargo_run_words(name, release)
        &&& is_cargo_run(effect->Foreground_command, before.catalog.root, name, release)
        &&& after == before
    }
}

/// A launch hands out what it was asked for, and waits only as a windowed
/// `cargo run` while cargo is wanted.
pub proof fn a_launch_is_what_was_asked_for(
    v: LauncherView,
    name: Seq<char>,
    kind: AppKind,
    action: RunAction,
)
    ensures
        must_wait(v, kind, action) <==> kind is Windowed && action is Cargo && cargo_is_wanted(v),
        match action {
            RunAction::Exec(path) => binary_is_run(
                v,
                name,
                kind,
                path,
                dispatched(v, name, kind, action).0,
                dispatched(v, name, kind, action).1,
            ),
            RunAction::Cargo { release } => cargo_is_run(
                v,
                name,
                kind,
                release,
                dispatched(v, name, kind, action).0,
                dispatched(v, name, kind, action).1,
            ),
        },
{
    only_cargo_needs_the_slot(v.jobs.running);
    let after = dispatched(v, name, kind, action).0;
    if must_wait(v, kind, action) {
        assert(after.jobs.waiting.drop_last() =~= v.jobs.waiting);
    }
}

/// Enter on the list runs the selected app: its chosen binary, or `cargo run`
/// without `--release` if it has none. The log stays.
pub proof fn enter_runs_the_selected_app(v: LauncherView, log: Seq<Seq<char>>, i: usize)
    requires
        v.screen is List,
        v.state.selected == Some(i),
        i < v.apps.len(),
    ensures
        ({
            let app = v.apps[i as int];
            let step = key_step(v, log, Key::Enter);
            &&& step.log == log
            &&& match app.launch {
                Launch::Prebuilt { path, .. } => binary_is_run(
                    v,
                    app.name,
                    app.kind,
                    path,
                    step.launcher,
                    step.effect,
                ),
                Launch::BuildOnly => cargo_is_run(
                    v,
                    app.name,
                    app.kind,
                    false,
                    step.launcher,
                    step.effect,
                ),
            }
        }),
{
    let app = v.apps[i as int];
    a_launch_is_what_was_asked_for(v, app.name, app.kind, crate::launcher::default_action(app));
}

/// `r` and `d` on the list run the selected app's first release or debug
/// binary, or `cargo run` of that profile if it has none. The log stays.
pub proof fn r_and_d_run_their_profile(
    v: LauncherView,
    log: Seq<Seq<char>>,
    i: usize,
    want: BinKind,
    at: int,
)
    requires
        v.screen is List,
        v.state.selected == Some(i),
        i < v.apps.len(),
        want is Release || want is Debug,
        0 <= at <= v.apps[i as int].prebuilts.len(),
        forall|k: int| 0 <= k < at ==> (#[trigger] v.apps[i as int].prebuilts[k]).kind != want,
        at < v.apps[i as int].prebuilts.len() ==> v.apps[i as int].prebuilts[at].kind == want,
    ensures
        ({
            let app = v.apps[i as int];
            let step = key_step(
                v,
                log,
                if want is Release {
                    Key::Char('r')
                } else {
                    Key::Char('d')
                },
            );
            &&& step.log == log
            &&& if at < app.prebuilts.len() {
                binary_is_run(
                    v,
                    app.name,
                    app.kind,
                    app.prebuilts[at].path,
                    step.launcher,
                    step.effect,
                )
            } else {
                cargo_is_run(v, app.name, app.kind, want is Release, step.launcher, step.effect)
            }
        }),
{
    let app = v.apps[i as int];
    first_is_at(app.prebuilts, want, at);
    a_launch_is_what_was_asked_for(
        v,
        app.name,
        app.kind,
        crate::launcher::profile_action(app, want),
    );
}

/// The first binary of a kind stands where no earlier one is of that kind.
proof fn first_is_at(prebuilts: Seq<Prebuilt>, kind: BinKind, at: int)
    requires
        0 <= at <= prebuilts.len(),
        forall|k: int| 0 <= k < at ==> (#[trigger] prebuilts[k]).kind != kind,
        at < prebuilts.len() ==> prebuilts[at].kind == kind,
    ensures
        of_kind(prebuilts, kind) == if at < prebuilts.len() {
            Some(prebuilts[at])
        } else {
            None
        },
{
    first_of_kind_is_first(prebuilts, kind);
    let found = first_of_kind(prebuilts, kind);
    if found < at {
        assert(prebuilts[found].kind != kind);
    } else if at < found {
        assert(prebuilts[at].kind == kind);
    }
}

/// Without a selected app Enter, `r`, `d` and `b` do nothing.
pub proof fn nothing_is_launched_without_a_selection(v: LauncherView, log: Seq<Seq<char>>)
    requires
        v.screen is List,
        v.state.selected is None,
    ensures
        is_quiet(v, log, key_step(v, log, Key::Enter)),
        is_quiet(v, log, key_step(v, log, Key::Char('r'))),
        is_quiet(v, log, key_step(v, log, Key::Char('d'))),
        is_quiet(v, log, key_step(v, log, Key::Char('b'))),
{
}

/// The list again, with nothing else changed.
pub open spec fn on_the_list(v: LauncherView) -> LauncherView {
    LauncherView { screen: ScreenView::List, ..v }
}

/// In the picker Enter closes it and does what the row says; `f` closes it and
/// compiles the row's profile, and does nothing on a row without one.
pub proof fn the_picker_does_what_its_row_says(v: LauncherView, log: Seq<Seq<char>>)
    requires
        v.screen is Run,
        v.screen->sel < v.screen->choices.len(),
    ensures
        ({
            let row = v.screen->choices[v.screen->sel as int];
            let enter = key_step(v, log, Key::Enter);
            let force = key_step(v, log, Key::Char('f'));
            let closed = on_the_list(v);
            &&& enter.log == log
            &&& force.log == log
            &&& match row.action {
                RunAction::Exec(path) => binary_is_run(
                    closed,
                    v.screen->app,
                    v.screen->Run_kind,
                    path,
                    enter.launcher,
                    enter.effect,
                ),
                RunAction::Cargo { release } => cargo_is_run(
                    closed,
                    v.screen->app,
                    v.screen->Run_kind,
                    release,
                    enter.launcher,
                    enter.effect,
                ),
            }
            &&& match row.profile {
                Some(BinKind::Release) => cargo_is_run(
                    closed,
                    v.screen->app,
                    v.screen->Run_kind,
                    true,
                    force.launcher,
                    force.effect,
                ),
                Some(BinKind::Debug) => cargo_is_run(
                    closed,
                    v.screen->app,
                    v.screen->Run_kind,
                    false,
                    force.launcher,
                    force.effect,
                ),
                _ => is_quiet(v, log, force),
            }
        }),
{
    let row = v.screen->choices[v.screen->sel as int];
    let name = v.screen->app;
    let kind = v.screen->Run_kind;
    let closed = on_the_list(v);
    a_launch_is_what_was_asked_for(closed, name, kind, row.action);
    a_launch_is_what_was_asked_for(closed, name, kind, RunAction::Cargo { release: true });
    a_launch_is_what_was_asked_for(closed, name, kind, RunAction::Cargo { release: false });
}

/// The command of a launch runs in `root`, and is a binary without arguments or
/// `cargo run` of the named app.
pub open spec fn runs_in(
    command: CommandView,
    root: PathBuf,
    name: Seq<char>,
    cargo: bool,
) -> bool {
    &&& command.dir == root
    &&& cargo ==> is_cargo_run(command, root, name, true) || is_cargo_run(
        command,
        root,
        name,
        false,
    )
    &&& !cargo ==> command.program is File && command.args.len() == 0
}

/// Every launch that waits is a `cargo run` in the workspace root.
pub open spec fn waits_in_root(v: LauncherView) -> bool {
    forall|i: int|
        0 <= i < v.jobs.waiting.len() ==> runs_in(
            (#[trigger] v.jobs.waiting[i]).command,
            v.catalog.root,
            v.jobs.waiting[i].name,
            true,
        )
}

/// Whatever the effect starts runs in `root`.
pub open spec fn starts_in(effect: EffectView, root: PathBuf) -> bool {
    match effect {
        EffectView::Background { name, command, cargo } => runs_in(command, root, name, cargo),
        EffectView::Foreground { name, command, .. } => runs_in(command, root, name, true)
            || runs_in(command, root, name, false),
        _ => true,
    }
}

/// A launch starts in the workspace root, and so do those that wait.
proof fn a_launch_stays_in_root(
    v: LauncherView,
    name: Seq<char>,
    kind: AppKind,
    action: RunAction,
)
    requires
        waits_in_root(v),
    ensures
        waits_in_root(dispatched(v, name, kind, action).0),
        starts_in(dispatched(v, name, kind, action).1, v.catalog.root),
{
    a_launch_is_what_was_asked_for(v, name, kind, action);
    let after = dispatched(v, name, kind, action).0;
    if must_wait(v, kind, action) {
        assert forall|i: int| 0 <= i < after.jobs.waiting.len() implies runs_in(
            (#[trigger] after.jobs.waiting[i]).command,
            after.catalog.root,
            after.jobs.waiting[i].name,
            true,
        ) by {
            if i < v.jobs.waiting.len() {
                assert(after.jobs.waiting[i] == after.jobs.waiting.drop_last()[i]);
                assert(after.jobs.waiting[i] == v.jobs.waiting[i]);
            }
        }
    }
}

/// Every command that a key, a click or a waiting launch starts, in the
/// background or in the terminal, runs in the workspace root, `cargo run` as
/// well as a binary; and every launch that is made to wait will.
pub proof fn every_launch_runs_in_the_workspace_root(
    v: LauncherView,
    log: Seq<Seq<char>>,
    key: Key,
    m: Mouse,
)
    requires
        waits_in_root(v),
    ensures
        starts_in(key_step(v, log, key).effect, v.catalog.root),
        waits_in_root(key_step(v, log, key).launcher),
        starts_in(mouse_step(v, log, m).effect, v.catalog.root),
        waits_in_root(mouse_step(v, log, m).launcher),
        starts_in(waiting_launched(v).1, v.catalog.root),
        waits_in_root(waiting_launched(v).0),
{
    keys_launch_in_root(v, log, key);
    clicks_launch_in_root(v, log, m);
    if v.jobs.waiting.len() > 0 {
        let first = v.jobs.waiting[0];
        assert(runs_in(first.command, v.catalog.root, first.name, true));
        let after = waiting_launched(v).0;
        assert forall|i: int| 0 <= i < after.jobs.waiting.len() implies runs_in(
            (#[trigger] after.jobs.waiting[i]).command,
            after.catalog.root,
            after.jobs.waiting[i].name,
            true,
        ) by {
            assert(after.jobs.waiting[i] == v.jobs.waiting[i] || after.jobs.waiting[i]
                == v.jobs.waiting[i + 1]);
        }
    }
}

/// What keys start runs in the workspace root.
proof fn keys_launch_in_root(v: LauncherView, log: Seq<Seq<char>>, key: Key)
    requires
        waits_in_root(v),
    ensures
        starts_in(key_step(v, log, key).effect, v.catalog.root),
        waits_in_root(key_step(v, log, key).launcher),
{
    if v.screen is List {
        asking_leaves_the_rest(v.jobs, v.apps);
        match crate::launcher::selected_app(v) {
            Some(app) => {
                a_launch_stays_in_root(
                    v,
                    app.name,
                    app.kind,
                    crate::launcher::default_action(app),
                );
                a_launch_stays_in_root(
                    v,
                    app.name,
                    app.kind,
                    crate::launcher::profile_action(app, BinKind::Release),
                );
                a_launch_stays_in_root(
                    v,
                    app.name,
                    app.kind,
                    crate::launcher::profile_action(app, BinKind::Debug),
                );
            },
            None => {},
        }
    } else {
        picker_launches_in_root(v);
    }
}

/// What the picker starts runs in the workspace root.
proof fn picker_launches_in_root(v: LauncherView)
    requires
        waits_in_root(v),
        v.screen is Run,
    ensures
        waits_in_root(crate::events::choice_run(v).0),
        starts_in(crate::events::choice_run(v).1, v.catalog.root),
        waits_in_root(crate::events::choice_rebuilt(v).0),
        starts_in(crate::events::choice_rebuilt(v).1, v.catalog.root),
{
    let closed = on_the_list(v);
    let row = v.screen->choices[v.screen->sel as int];
    let name = v.screen->app;
    let kind = v.screen->Run_kind;
    a_launch_stays_in_root(closed, name, kind, row.action);
    a_launch_stays_in_root(closed, name, kind, RunAction::Cargo { release: true });
    a_launch_stays_in_root(closed, name, kind, RunAction::Cargo { release: false });
}

/// What clicks start runs in the workspace root.
proof fn clicks_launch_in_root(v: LauncherView, log: Seq<Seq<char>>, m: Mouse)
    requires
        waits_in_root(v),
    ensures
        starts_in(mouse_step(v, log, m).effect, v.catalog.root),
        waits_in_root(mouse_step(v, log, m).launcher),
{
    if v.screen is List {
        keys_launch_in_root(v, log, Key::Enter);
        match crate::launcher::list_row_hit(v, m.column as int, m.row as int) {
            Some(i) => {
                keys_launch_in_root(crate::launcher::selection_set(v, i), log, Key::Enter);
            },
            None => {},
        }
    } else {
        match crate::launcher::picker_row_hit(v, m.column as int, m.row as int) {
            Some(i) => {
                picker_launches_in_root(crate::launcher::picker_set(v, i as usize));
            },
            None => {},
        }
    }
}

/// A launch that waits is handed out in the background, as it waits and under
/// its name, exactly when no cargo command is live; it leaves the row then, and
/// nothing else changes.
pub proof fn the_first_waiting_launch_is_handed_out(v: LauncherView)
    ensures
        v.jobs.waiting.len() > 0 && cargo_is_free(v.jobs.running) ==> {
            &&& waiting_launched(v).1 == (EffectView::Background {
                name: v.jobs.waiting[0].name,
                command: v.jobs.waiting[0].command,
                cargo: true,
            })
            &&& waiting_launched(v).0 == (LauncherView {
                jobs: JobsView { waiting: v.jobs.waiting.skip(1), ..v.jobs },
                ..v
            })
        },
        v.jobs.waiting.len() == 0 || !cargo_is_free(v.jobs.running) ==> waiting_launched(v) == (
            v,
            EffectView::Nothing,
        ),
{
    crate::laws::jobs::runs_wait_in_a_row(
        v.jobs,
        WaitingView {
            name: Seq::empty(),
            command: CommandView {
                program: ProgramView::Named(Seq::empty()),
                args: Seq::empty(),
                dir: v.catalog.root,
            },
        },
    );
}

// --- rebuilding everything ----------------------------------------------

/// The app has no binary, or a stale one.
pub open spec fn is_not_fresh(app: AppView) -> bool {
    ||| app.launch is BuildOnly
    ||| app.launch is Prebuilt && app.launch->freshness is Stale
}

/// An app with the name is not fresh.
pub open spec fn some_not_fresh(apps: Seq<AppView>, name: Seq<char>) -> bool {
    exists|i: int|
        0 <= i < apps.len() && (#[trigger] apps[i]).name == name && is_not_fresh(apps[i])
}

/// Asking for builds changes the queue and the marks alone.
proof fn asking_leaves_the_rest(jobs: JobsView, apps: Seq<AppView>)
    ensures
        ({
            let after = rebuilds_queued(jobs, apps);
            after == JobsView { queue: after.queue, status: after.status, ..jobs }
        }),
    decreases apps.len(),
{
    if apps.len() > 0 {
        asking_leaves_the_rest(jobs, apps.drop_last());
    }
}

/// What asking for every build leaves in the queue.
proof fn asking_covers_what_is_not_fresh(jobs: JobsView, apps: Seq<AppView>)
    ensures
        ({
            let after = rebuilds_queued(jobs, apps);
            &&& forall|i: int|
                0 <= i < apps.len() && is_not_fresh(#[trigger] apps[i]) ==> after.queue.contains(
                    apps[i].name,
                ) || live_build(jobs.running, apps[i].name)
            &&& after.queue.len() >= jobs.queue.len()
            &&& after.queue.take(jobs.queue.len() as int) == jobs.queue
            &&& forall|k: int|
                jobs.queue.len() <= k < after.queue.len() ==> {
                    &&& some_not_fresh(apps, #[trigger] after.queue[k])
                    &&& !jobs.queue.contains(after.queue[k])
                    &&& !live_build(jobs.running, after.queue[k])
                    &&& after.status.contains_key(after.queue[k])
                    &&& after.status[after.queue[k]] == AppStatus::Queued
                }
            &&& forall|n: Seq<char>|
                !some_not_fresh(apps, n) ==> (#[trigger] after.status.contains_key(n)
                    <==> jobs.status.contains_key(n)) && (after.status.contains_key(n)
                    ==> after.status[n] == jobs.status[n])
        }),
    decreases apps.len(),
{
    let after = rebuilds_queued(jobs, apps);
    let held = jobs.queue.len() as int;
    if apps.len() == 0 {
        assert(after.queue.take(held) =~= jobs.queue);
    } else {
        let front = apps.drop_last();
        let mid = rebuilds_queued(jobs, front);
        let last = apps.last();
        let end = apps.len() - 1;
        asking_covers_what_is_not_fresh(jobs, front);
        asking_leaves_the_rest(jobs, front);
        asking_queues_at_the_end(mid, last.name);
        assert(apps[end] == last);
        assert(is_not_fresh(last) == wants_build(last));
        assert forall|n: Seq<char>| some_not_fresh(front, n) implies some_not_fresh(apps, n) by {
            let i = choose|i: int|
                0 <= i < front.len() && (#[trigger] front[i]).name == n && is_not_fresh(front[i]);
            assert(apps[i] == front[i]);
        }
        assert(is_not_fresh(last) ==> some_not_fresh(apps, last.name));
        let pushed = mid.queue.push(last.name);
        assert(pushed[mid.queue.len() as int] == last.name);
        assert forall|n: Seq<char>| mid.queue.contains(n) implies after.queue.contains(n) by {
            let k = choose|k: int| 0 <= k < mid.queue.len() && mid.queue[k] == n;
            assert(after.queue[k] == n);
        }
        assert(after.queue.take(held) =~= mid.queue.take(held));
        assert forall|i: int| 0 <= i < apps.len() && is_not_fresh(
            #[trigger] apps[i],
        ) implies after.queue.contains(apps[i].name) || live_build(
            jobs.running,
            apps[i].name,
        ) by {
            if i < end {
                assert(front[i] == apps[i]);
            }
        }
        assert forall|k: int| held <= k < after.queue.len() implies {
            &&& some_not_fresh(apps, #[trigger] after.queue[k])
            &&& !jobs.queue.contains(after.queue[k])
            &&& !live_build(jobs.running, after.queue[k])
            &&& after.status.contains_key(after.queue[k])
            &&& after.status[after.queue[k]] == AppStatus::Queued
        } by {
            if k < mid.queue.len() {
                assert(after.queue[k] == mid.queue[k]);
            } else {
                assert(after.queue[k] == last.name);
                if jobs.queue.contains(last.name) {
                    let j = choose|j: int| 0 <= j < jobs.queue.len() && jobs.queue[j] == last.name;
                    assert(mid.queue.take(held)[j] == mid.queue[j]);
                    assert(mid.queue.contains(last.name));
                }
            }
        }
        assert forall|n: Seq<char>| !some_not_fresh(apps, n) implies (
        #[trigger] after.status.contains_key(n) <==> jobs.status.contains_key(n)) && (
        after.status.contains_key(n) ==> after.status[n] == jobs.status[n]) by {
            assert(!some_not_fresh(front, n));
            assert(mid.status.contains_key(n) <==> jobs.status.contains_key(n));
        }
    }
}

/// After `R` every app without a binary and every app whose chosen binary is
/// stale, of whatever kind of build, is queued or being built. What is new in
/// the queue are names of such apps alone, each marked as queued; what was
/// queued stays in front. No mark of another app changes, and besides queue,
/// marks and status line nothing does.
pub proof fn rebuilding_asks_for_exactly_what_is_not_fresh(v: LauncherView, log: Seq<Seq<char>>)
    requires
        v.screen is List,
    ensures
        ({
            let step = key_step(v, log, Key::Char('R'));
            let jobs = step.launcher.jobs;
            &&& step.effect is Nothing
            &&& step.log == log
            &&& step.launcher == LauncherView {
                status: step.launcher.status,
                jobs: JobsView { queue: jobs.queue, status: jobs.status, ..v.jobs },
                ..v
            }
            &&& forall|i: int|
                0 <= i < v.apps.len() && ((#[trigger] v.apps[i]).launch is BuildOnly || (
                v.apps[i].launch is Prebuilt && v.apps[i].launch->freshness is Stale))
                    ==> jobs.queue.contains(v.apps[i].name) || live_build(
                    v.jobs.running,
                    v.apps[i].name,
                )
            &&& jobs.queue.len() >= v.jobs.queue.len()
            &&& jobs.queue.take(v.jobs.queue.len() as int) == v.jobs.queue
            &&& forall|k: int|
                v.jobs.queue.len() <= k < jobs.queue.len() ==> {
                    &&& some_not_fresh(v.apps, #[trigger] jobs.queue[k])
                    &&& !v.jobs.queue.contains(jobs.queue[k])
                    &&& !live_build(v.jobs.running, jobs.queue[k])
                    &&& jobs.status.contains_key(jobs.queue[k])
                    &&& jobs.status[jobs.queue[k]] == AppStatus::Queued
                }
            &&& forall|n: Seq<char>|
                !some_not_fresh(v.apps, n) ==> (#[trigger] jobs.status.contains_key(n)
                    <==> v.jobs.status.contains_key(n)) && (jobs.status.contains_key(n)
                    ==> jobs.status[n] == v.jobs.status[n])
        }),
{
    asking_covers_what_is_not_fresh(v.jobs, v.apps);
    asking_leaves_the_rest(v.jobs, v.apps);
    let jobs = key_step(v, log, Key::Char('R')).launcher.jobs;
    assert forall|i: int|
        0 <= i < v.apps.len() && ((#[trigger] v.apps[i]).launch is BuildOnly || (
        v.apps[i].launch is Prebuilt
            && v.apps[i].launch->freshness is Stale)) implies jobs.queue.contains(v.apps[i].name)
        || live_build(v.jobs.running, v.apps[i].name) by {
        assert(is_not_fresh(v.apps[i]));
    }
}

/// The status line tells how many apps are not fresh, counted one by one, or
/// that all are.
pub proof fn rebuilding_tells_how_many(v: LauncherView, log: Seq<Seq<char>>)
    requires
        v.screen is List,
    ensures
        ({
            let count = v.apps.filter(|a: AppView| is_not_fresh(a)).len();
            let told = key_step(v, log, Key::Char('R')).launcher.status;
            &&& count == 0 ==> told == "everything is already fresh"@
            &&& count > 0 ==> told == "queued "@ + decimal(count) + " build(s)"@
        }),
{
    let p = |a: AppView| is_not_fresh(a);
    let q = |a: AppView| wants_build(a);
    assert(p =~= q) by {
        assert forall|a: AppView| #[trigger] p(a) == q(a) by {}
    }
    assert(v.apps.filter(p).len() == rebuild_count(v.apps));
}

// --- keys ---------------------------------------------------------------

/// The step changes nothing, notes nothing and starts nothing.
pub open spec fn is_quiet(v: LauncherView, log: Seq<Seq<char>>, step: Step) -> bool {
    step.launcher == v && step.log == log && step.effect is Nothing
}

/// The step leads to `after` and neither notes nor starts anything.
pub open spec fn leads_to(after: LauncherView, log: Seq<Seq<char>>, step: Step) -> bool {
    step.launcher == after && step.log == log && step.effect is Nothing
}

/// `to` is the place behind `from` among `count`, the first behind the last.
pub open spec fn is_next(from: usize, to: usize, count: nat) -> bool {
    if from + 1 < count {
        to == from + 1
    } else {
        to == 0
    }
}

/// Going around among `count` places.
proof fn going_around(i: int, count: int)
    requires
        0 <= i < count,
    ensures
        (i + 1) % count == if i + 1 < count {
            i + 1
        } else {
            0
        },
        (i + -1) % count == if i > 0 {
            i - 1
        } else {
            count - 1
        },
{
    if i + 1 < count {
        vstd::arithmetic::div_mod::lemma_small_mod((i + 1) as nat, count as nat);
    } else {
        vstd::arithmetic::div_mod::lemma_mod_self_0(count);
    }
    if i > 0 {
        vstd::arithmetic::div_mod::lemma_small_mod((i - 1) as nat, count as nat);
    } else {
        vstd::arithmetic::div_mod::lemma_mod_add_multiples_vanish(-1, count);
        vstd::arithmetic::div_mod::lemma_small_mod((count - 1) as nat, count as nat);
    }
}

/// On the list Down and `j` select the app behind the selected one, Up and `k`
/// the one before, around the ends. Nothing else changes; without apps nothing
/// does.
pub proof fn the_selection_moves_by_one(v: LauncherView, log: Seq<Seq<char>>, i: usize)
    requires
        v.screen is List,
        v.state.selected == Some(i),
        i < v.apps.len() <= usize::MAX,
    ensures
        ({
            let down = key_step(v, log, Key::Down);
            let up = key_step(v, log, Key::Up);
            let to = down.launcher.state.selected->0;
            let from = up.launcher.state.selected->0;
            &&& key_step(v, log, Key::Char('j')) == down
            &&& key_step(v, log, Key::Char('k')) == up
            &&& down.launcher.state.selected is Some
            &&& up.launcher.state.selected is Some
            &&& is_next(i, to, v.apps.len())
            &&& is_next(from, i, v.apps.len())
            &&& from < v.apps.len()
            &&& leads_to(
                LauncherView {
                    state: ListState { selected: Some(to), offset: v.state.offset },
                    ..v
                },
                log,
                down,
            )
            &&& leads_to(
                LauncherView {
                    state: ListState { selected: Some(from), offset: v.state.offset },
                    ..v
                },
                log,
                up,
            )
        }),
{
    going_around(i as int, v.apps.len() as int);
}

/// In the picker Down and `j` select the row behind the selected one, Up and
/// `k` the one before, around the ends. Nothing else changes.
pub proof fn the_picker_moves_by_one(v: LauncherView, log: Seq<Seq<char>>)
    requires
        v.screen is Run,
        v.screen->sel < v.screen->choices.len() <= usize::MAX,
    ensures
        ({
            let down = key_step(v, log, Key::Down);
            let up = key_step(v, log, Key::Up);
            let app = v.screen->app;
            let kind = v.screen->Run_kind;
            let choices = v.screen->choices;
            let to = down.launcher.screen->sel;
            let from = up.launcher.screen->sel;
            &&& key_step(v, log, Key::Char('j')) == down
            &&& key_step(v, log, Key::Char('k')) == up
            &&& is_next(v.screen->sel, to, choices.len())
            &&& is_next(from, v.screen->sel, choices.len())
            &&& from < choices.len()
            &&& leads_to(
                LauncherView { screen: ScreenView::Run { app, kind, choices, sel: to }, ..v },
                log,
                down,
            )
            &&& leads_to(
                LauncherView { screen: ScreenView::Run { app, kind, choices, sel: from }, ..v },
                log,
                up,
            )
        }),
{
    going_around(v.screen->sel as int, v.screen->choices.len() as int);
}

/// Where `x` ends up among `n` places differs from `x` by whole rounds.
proof fn rounds_do_not_count(x: int, n: int)
    requires
        n > 0,
    ensures
        0 <= x % n < n,
        (x % n - x) % n == 0,
{
    vstd::arithmetic::div_mod::lemma_mod_bound(x, n);
    vstd::arithmetic::div_mod::lemma_fundamental_div_mod(x, n);
    let back = -(x / n);
    assert(x % n - x == back * n) by (nonlinear_arith)
        requires
            x == n * (x / n) + x % n,
            back == -(x / n),
    ;
    vstd::arithmetic::div_mod::lemma_mod_multiples_basic(back, n);
}

/// Moving by any number of places selects the app that many places on, counted
/// around the ends as often as needed, from the first where none was selected.
/// Nothing else changes; without apps nothing does.
pub proof fn the_selection_goes_around(v: LauncherView, delta: int)
    requires
        v.apps.len() <= usize::MAX,
    ensures
        v.apps.len() == 0 ==> selection_moved(v, delta) == v,
        v.apps.len() > 0 ==> {
            let after = selection_moved(v, delta);
            let from = if v.state.selected is Some {
                v.state.selected->0 as int
            } else {
                0
            };
            let to = after.state.selected->0;
            &&& after.state.selected is Some
            &&& to < v.apps.len()
            &&& (to - (from + delta)) % (v.apps.len() as int) == 0
            &&& after == LauncherView {
                state: ListState { selected: Some(to), offset: v.state.offset },
                ..v
            }
        },
{
    if v.apps.len() > 0 {
        let from = if v.state.selected is Some {
            v.state.selected->0 as int
        } else {
            0
        };
        rounds_do_not_count(from + delta, v.apps.len() as int);
    }
}

/// Moving in the picker by any number of rows selects the row that many rows on,
/// counted around the ends as often as needed; going to a row selects that row.
/// Nothing else changes, and on the list nothing does.
pub proof fn the_picker_goes_around(v: LauncherView, delta: int, i: usize)
    requires
        v.screen is Run ==> 0 < v.screen->choices.len() <= usize::MAX,
    ensures
        v.screen is List ==> picker_moved(v, delta) == v && picker_set(v, i) == v && choice_count(
            v.screen,
        ) == 0,
        v.screen is Run ==> {
            let rows = v.screen->choices;
            let to = picker_moved(v, delta).screen->sel;
            &&& choice_count(v.screen) == rows.len()
            &&& to < rows.len()
            &&& (to - (v.screen->sel + delta)) % (rows.len() as int) == 0
            &&& picker_moved(v, delta) == at_row(v, to)
            &&& picker_set(v, i) == at_row(v, i)
        },
{
    if v.screen is Run {
        rounds_do_not_count(v.screen->sel + delta, v.screen->choices.len() as int);
    }
}

/// The launcher with the picker's row `i` selected.
pub open spec fn at_row(v: LauncherView, i: usize) -> LauncherView {
    LauncherView {
        screen: ScreenView::Run {
            app: v.screen->app,
            kind: v.screen->Run_kind,
            choices: v.screen->choices,
            sel: i,
        },
        ..v
    }
}

/// On the list `q` and Esc ask to leave; in the picker they lead back to the
/// list. Nothing else asks to leave, and nothing takes it back.
pub proof fn only_q_and_esc_leave(v: LauncherView, log: Seq<Seq<char>>, key: Key, m: Mouse)
    ensures
        v.screen is List ==> {
            &&& leads_to(LauncherView { quit: true, ..v }, log, key_step(v, log, Key::Esc))
            &&& leads_to(LauncherView { quit: true, ..v }, log, key_step(v, log, Key::Char('q')))
        },
        v.screen is Run ==> {
            &&& leads_to(on_the_list(v), log, key_step(v, log, Key::Esc))
            &&& leads_to(on_the_list(v), log, key_step(v, log, Key::Char('q')))
        },
        v.screen is Run || (key != Key::Esc && key != Key::Char('q')) ==> key_step(
            v,
            log,
            key,
        ).launcher.quit == v.quit,
        mouse_step(v, log, m).launcher.quit == v.quit,
{
}

/// The apps, the catalogue, the ticks, the areas and the root of the builds are
/// not for keys and clicks to change.
pub proof fn keys_and_clicks_leave_the_workspace_alone(
    v: LauncherView,
    log: Seq<Seq<char>>,
    key: Key,
    m: Mouse,
)
    ensures
        same_workspace(v, key_step(v, log, key).launcher),
        same_workspace(v, mouse_step(v, log, m).launcher),
{
    asking_leaves_the_rest(v.jobs, v.apps);
}

/// Apart from selection, status line, screen, jobs and the wish to leave, the
/// launcher is the same.
pub open spec fn same_workspace(before: LauncherView, after: LauncherView) -> bool {
    &&& after.apps == before.apps
    &&& after.catalog == before.catalog
    &&& after.tick == before.tick
    &&& after.list_inner == before.list_inner
    &&& after.picker_inner == before.picker_inner
    &&& after.detail_area == before.detail_area
    &&& after.console_area == before.console_area
    &&& after.jobs.root == before.jobs.root
}

/// The key has a meaning on the list.
pub open spec fn list_knows(key: Key) -> bool {
    match key {
        Key::Char(c) => c == 'q' || c == 'k' || c == 'j' || c == 'b' || c == 'r' || c == 'd' || c
            == 'R' || c == 'l' || c == 'x',
        Key::Other => false,
        _ => true,
    }
}

/// The key has a meaning in the picker.
pub open spec fn picker_knows(key: Key) -> bool {
    match key {
        Key::Char(c) => c == 'q' || c == 'k' || c == 'j' || c == 'f',
        Key::Up | Key::Down | Key::Enter | Key::Esc => true,
        _ => false,
    }
}

/// Every other key does nothing.
pub proof fn other_keys_do_nothing(v: LauncherView, log: Seq<Seq<char>>, key: Key)
    ensures
        v.screen is List && !list_knows(key) ==> is_quiet(v, log, key_step(v, log, key)),
        v.screen is Run && !picker_knows(key) ==> is_quiet(v, log, key_step(v, log, key)),
{
}

/// The launcher with its console scrolled to `scroll`.
pub open spec fn scrolled_to(v: LauncherView, scroll: u16) -> LauncherView {
    LauncherView { jobs: JobsView { console_scroll: scroll, ..v.jobs }, ..v }
}

/// `to` lies `by` lines above `from`, or below where `by` is negative, as far as
/// there are lines.
pub open spec fn scrolls_by(from: u16, by: int, to: u16) -> bool {
    if from + by < 0 {
        to == 0
    } else if from + by > 65535 {
        to == 65535
    } else {
        to == from + by
    }
}

/// On the list `l` shows or hides the console, PageUp and PageDown scroll it by
/// five lines, and nothing else changes.
pub proof fn the_console_follows_its_keys(v: LauncherView, log: Seq<Seq<char>>)
    requires
        v.screen is List,
    ensures
        leads_to(
            LauncherView {
                jobs: JobsView { console_visible: !v.jobs.console_visible, ..v.jobs },
                ..v
            },
            log,
            key_step(v, log, Key::Char('l')),
        ),
        ({
            let up = key_step(v, log, Key::PageUp);
            let down = key_step(v, log, Key::PageDown);
            let above = up.launcher.jobs.console_scroll;
            let below = down.launcher.jobs.console_scroll;
            &&& scrolls_by(v.jobs.console_scroll, 5, above)
            &&& scrolls_by(v.jobs.console_scroll, -5, below)
            &&& leads_to(scrolled_to(v, above), log, up)
            &&& leads_to(scrolled_to(v, below), log, down)
        }),
{
}

/// `x` cancels: it kills the processes of exactly the builds, notes each of
/// them, and changes nothing but the jobs.
pub proof fn x_cancels_the_builds(v: LauncherView, log: Seq<Seq<char>>)
    requires
        v.screen is List,
        v.jobs.running.len() <= usize::MAX,
    ensures
        ({
            let step = key_step(v, log, Key::Char('x'));
            &&& step.launcher == LauncherView { jobs: canceled(v.jobs), ..v }
            &&& step.log == cancellations_logged(log, v.jobs.running)
            &&& step.effect is Kill
            &&& forall|i: int|
                0 <= i < v.jobs.running.len() ==> (step.effect->Kill_0.contains(i as usize) <==> (
                #[trigger] v.jobs.running[i]).kind is Build)
            &&& forall|k: int|
                0 <= k < step.effect->Kill_0.len() ==> #[trigger] step.effect->Kill_0[k]
                    < v.jobs.running.len()
        }),
{
    crate::laws::jobs::exactly_the_builds_are_killed(v.jobs.running);
}

/// Nothing but `x` on the list kills anything.
pub proof fn only_x_kills(v: LauncherView, log: Seq<Seq<char>>, key: Key, m: Mouse)
    ensures
        key_step(v, log, key).effect is Kill ==> v.screen is List && key == Key::Char('x'),
        !(mouse_step(v, log, m).effect is Kill),
        !(waiting_launched(v).1 is Kill),
{
}

// --- the picker ---------------------------------------------------------

/// The row runs the binary as it is: its label tells the kind of build, the
/// path and whether it is stale.
pub open spec fn row_runs(row: ChoiceView, p: Prebuilt, word: Seq<char>) -> bool {
    &&& row.action == RunAction::Exec(p.path)
    &&& p.freshness is Stale ==> row.label == "run "@ + padded(word, 9) + " "@ + path_text(p.path)
        + "  (stale)"@
    &&& p.freshness is Fresh ==> row.label == "run "@ + padded(word, 9) + " "@ + path_text(p.path)
        + "  (fresh)"@
}

/// The row compiles: its label tells the profile and the command.
pub open spec fn row_builds(
    row: ChoiceView,
    name: Seq<char>,
    word: Seq<char>,
    release: bool,
) -> bool {
    &&& row.action == (RunAction::Cargo { release })
    &&& release ==> row.label == "build "@ + padded(word, 7) + " cargo run -p "@ + name
        + " --release"@
    &&& !release ==> row.label == "build "@ + padded(word, 7) + " cargo run -p "@ + name
}

/// No binary before `at` is of the kind, and the one at `at`, if there is one,
/// is.
pub open spec fn first_stands_at(ps: Seq<Prebuilt>, kind: BinKind, at: int) -> bool {
    &&& 0 <= at <= ps.len()
    &&& forall|k: int| 0 <= k < at ==> (#[trigger] ps[k]).kind != kind
    &&& at < ps.len() ==> ps[at].kind == kind
}

/// The picker has a row for release, then one for debug, and one for the
/// installed copy exactly if there is one. A row runs the first binary of its
/// kind; the first two compile where there is none, and they alone name a
/// profile to compile.
pub proof fn the_picker_offers_every_build(app: AppView, release: int, debug: int, installed: int)
    requires
        first_stands_at(app.prebuilts, BinKind::Release, release),
        first_stands_at(app.prebuilts, BinKind::Debug, debug),
        first_stands_at(app.prebuilts, BinKind::Installed, installed),
    ensures
        ({
            let rows = picker_choices(app);
            let ps = app.prebuilts;
            &&& rows.len() == if installed < ps.len() {
                3int
            } else {
                2int
            }
            &&& rows[0].profile == Some(BinKind::Release)
            &&& rows[1].profile == Some(BinKind::Debug)
            &&& if release < ps.len() {
                row_runs(rows[0], ps[release], "release"@)
            } else {
                row_builds(rows[0], app.name, "release"@, true)
            }
            &&& if debug < ps.len() {
                row_runs(rows[1], ps[debug], "debug"@)
            } else {
                row_builds(rows[1], app.name, "debug"@, false)
            }
            &&& installed < ps.len() ==> rows[2].profile is None && row_runs(
                rows[2],
                ps[installed],
                "installed"@,
            )
        }),
{
    first_is_at(app.prebuilts, BinKind::Release, release);
    first_is_at(app.prebuilts, BinKind::Debug, debug);
    first_is_at(app.prebuilts, BinKind::Installed, installed);
    reveal_strlit("");
    let plain = "build "@ + padded("debug"@, 7) + " cargo run -p "@ + app.name;
    assert(plain + ""@ =~= plain);
}

/// The label of a row that compiles names `--release` for the release profile
/// alone, and the label of one that runs tells the kind of build and the path,
/// whatever they are.
pub proof fn labels_tell_build_and_command(
    kind: BinKind,
    name: Seq<char>,
    path: Seq<char>,
    freshness: Freshness,
)
    ensures
        kind is Release ==> build_label_text(kind, name) == "build "@ + padded("release"@, 7)
            + " cargo run -p "@ + name + " --release"@,
        kind is Debug ==> build_label_text(kind, name) == "build "@ + padded("debug"@, 7)
            + " cargo run -p "@ + name,
        kind is Installed ==> build_label_text(kind, name) == "build "@ + padded("installed"@, 7)
            + " cargo run -p "@ + name,
        run_label_text(kind, path, freshness) == "run "@ + padded(
            match kind {
                BinKind::Release => "release"@,
                BinKind::Debug => "debug"@,
                BinKind::Installed => "installed"@,
            },
            9,
        ) + " "@ + path + if freshness is Stale {
            "  (stale)"@
        } else {
            "  (fresh)"@
        },
{
    reveal_strlit("");
    let debug = "build "@ + padded("debug"@, 7) + " cargo run -p "@ + name;
    assert(debug + ""@ =~= debug);
    let installed = "build "@ + padded("installed"@, 7) + " cargo run -p "@ + name;
    assert(installed + ""@ =~= installed);
}

/// `b` opens the picker of the selected app, on its first row, and changes
/// nothing else.
pub proof fn b_opens_the_picker(v: LauncherView, log: Seq<Seq<char>>, i: usize)
    requires
        v.screen is List,
        v.state.selected == Some(i),
        i < v.apps.len(),
    ensures
        leads_to(
            LauncherView {
                screen: ScreenView::Run {
                    app: v.apps[i as int].name,
                    kind: v.apps[i as int].kind,
                    choices: picker_choices(v.apps[i as int]),
                    sel: 0,
                },
                ..v
            },
            log,
            key_step(v, log, Key::Char('b')),
        ),
{
}

// --- the mouse ----------------------------------------------------------

/// The cell lies in the area.
pub open spec fn lies_in(area: Rect, column: u16, row: u16) -> bool {
    &&& area.x <= column
    &&& column < area.x + area.width
    &&& area.y <= row
    &&& row < area.y + area.height
}

/// The cell shows the app at `i`: it lies in the list, `i` rows below the first
/// app less those that are scrolled away.
pub open spec fn shows_app(v: LauncherView, column: u16, row: u16, i: int) -> bool {
    &&& lies_in(v.list_inner, column, row)
    &&& i - v.state.offset == row - v.list_inner.y
    &&& 0 <= i < v.apps.len()
}

/// The launcher with the app at `i` selected.
pub open spec fn at_app(v: LauncherView, i: int) -> LauncherView {
    LauncherView {
        state: ListState { selected: Some(i as usize), offset: v.state.offset },
        ..v
    }
}

/// On the list a left click on an app selects and launches it, a right click
/// selects it and opens its picker. On the detail panel they do so for the
/// selected app. Anywhere else they do nothing.
pub proof fn clicks_on_the_list(
    v: LauncherView,
    log: Seq<Seq<char>>,
    column: u16,
    row: u16,
    i: int,
)
    requires
        v.screen is List,
        v.apps.len() <= usize::MAX,
    ensures
        ({
            let left = mouse_step(v, log, Mouse { kind: MouseKind::LeftDown, column, row });
            let right = mouse_step(v, log, Mouse { kind: MouseKind::RightDown, column, row });
            &&& shows_app(v, column, row, i) ==> {
                &&& left == key_step(at_app(v, i), log, Key::Enter)
                &&& right == key_step(at_app(v, i), log, Key::Char('b'))
            }
            &&& (forall|k: int| !#[trigger] shows_app(v, column, row, k)) && lies_in(
                v.detail_area,
                column,
                row,
            ) ==> {
                &&& left == key_step(v, log, Key::Enter)
                &&& right == key_step(v, log, Key::Char('b'))
            }
            &&& (forall|k: int| !#[trigger] shows_app(v, column, row, k)) && !lies_in(
                v.detail_area,
                column,
                row,
            ) ==> {
                &&& is_quiet(v, log, left)
                &&& is_quiet(v, log, right)
            }
        }),
{
    let hit = crate::launcher::list_row_hit(v, column as int, row as int);
    if hit is Some {
        assert(shows_app(v, column, row, hit->0));
    }
}

/// On the list the wheel scrolls the console by three lines where the pointer
/// is on it, and moves the selection as the arrow keys do elsewhere.
pub proof fn the_wheel_on_the_list(v: LauncherView, log: Seq<Seq<char>>, column: u16, row: u16)
    requires
        v.screen is List,
    ensures
        ({
            let up = mouse_step(v, log, Mouse { kind: MouseKind::ScrollUp, column, row });
            let down = mouse_step(v, log, Mouse { kind: MouseKind::ScrollDown, column, row });
            let above = up.launcher.jobs.console_scroll;
            let below = down.launcher.jobs.console_scroll;
            &&& lies_in(v.console_area, column, row) ==> {
                &&& scrolls_by(v.jobs.console_scroll, 3, above)
                &&& scrolls_by(v.jobs.console_scroll, -3, below)
                &&& leads_to(scrolled_to(v, above), log, up)
                &&& leads_to(scrolled_to(v, below), log, down)
            }
            &&& !lies_in(v.console_area, column, row) ==> {
                &&& up == key_step(v, log, Key::Up)
                &&& down == key_step(v, log, Key::Down)
            }
        }),
{
}

/// In the picker a left click on a row does what Enter on that row does; any
/// other click closes the picker, and the wheel moves as the arrow keys do.
pub proof fn clicks_in_the_picker(v: LauncherView, log: Seq<Seq<char>>, column: u16, row: u16)
    requires
        v.screen is Run,
        v.screen->choices.len() <= usize::MAX,
    ensures
        ({
            let left = mouse_step(v, log, Mouse { kind: MouseKind::LeftDown, column, row });
            let right = mouse_step(v, log, Mouse { kind: MouseKind::RightDown, column, row });
            let up = mouse_step(v, log, Mouse { kind: MouseKind::ScrollUp, column, row });
            let down = mouse_step(v, log, Mouse { kind: MouseKind::ScrollDown, column, row });
            let sel = row - v.picker_inner.y;
            &&& lies_in(v.picker_inner, column, row) && sel < v.screen->choices.len() ==> left
                == key_step(
                LauncherView {
                    screen: ScreenView::Run {
                        app: v.screen->app,
                        kind: v.screen->Run_kind,
                        choices: v.screen->choices,
                        sel: sel as usize,
                    },
                    ..v
                },
                log,
                Key::Enter,
            )
            &&& !(lies_in(v.picker_inner, column, row) && sel < v.screen->choices.len())
                ==> leads_to(on_the_list(v), log, left)
            &&& leads_to(on_the_list(v), log, right)
            &&& up == key_step(v, log, Key::Up)
            &&& down == key_step(v, log, Key::Down)
        }),
{
}

/// No other movement of the mouse does anything.
pub proof fn other_mouse_events_do_nothing(
    v: LauncherView,
    log: Seq<Seq<char>>,
    column: u16,
    row: u16,
)
    ensures
        is_quiet(v, log, mouse_step(v, log, Mouse { kind: MouseKind::Other, column, row })),
{
}

// --- beginning, refreshing, telling -------------------------------------

/// The launcher begins on the list with the first app selected, if there is
/// one, with nothing queued, waiting, running or marked, the console hidden at
/// the tail, and its builds in the workspace root.
pub proof fn the_launcher_begins_idle(apps: Seq<AppView>, catalog: CatalogView)
    ensures
        ({
            let v = launcher_start(apps, catalog);
            &&& v.apps == apps
            &&& v.catalog == catalog
            &&& v.screen is List
            &&& !v.quit
            &&& v.tick == 0
            &&& v.status.len() == 0
            &&& v.state.offset == 0
            &&& apps.len() > 0 ==> v.state.selected == Some(0usize)
            &&& apps.len() == 0 ==> v.state.selected is None
            &&& v.jobs.root == catalog.root
            &&& !v.jobs.console_visible
            &&& v.jobs.console_scroll == 0
            &&& v.jobs.queue.len() == 0
            &&& v.jobs.waiting.len() == 0
            &&& v.jobs.running.len() == 0
            &&& forall|n: Seq<char>| !#[trigger] v.jobs.status.contains_key(n)
            &&& waits_in_root(v)
            &&& forall|column: u16, row: u16| !#[trigger] lies_in(v.list_inner, column, row)
            &&& forall|column: u16, row: u16| !#[trigger] lies_in(v.picker_inner, column, row)
            &&& forall|column: u16, row: u16| !#[trigger] lies_in(v.detail_area, column, row)
            &&& forall|column: u16, row: u16| !#[trigger] lies_in(v.console_area, column, row)
        }),
{
}

/// A refresh keeps the selection where there still is an app, moves it to the
/// last app where there is none any more, and takes it away without apps. It
/// changes nothing but the apps and the selection.
pub proof fn a_refresh_keeps_the_selection(
    before: LauncherView,
    survey: Survey,
    after: LauncherView,
)
    requires
        is_refreshed(before, survey, after),
        after.apps.len() <= usize::MAX,
    ensures
        after.apps.len() == 0 ==> after.state == (ListState { selected: None, offset: 0 }),
        after.apps.len() > 0 && before.state.selected is Some && before.state.selected->0
            < after.apps.len() ==> after.state == before.state,
        after.apps.len() > 0 && !(before.state.selected is Some && before.state.selected->0
            < after.apps.len()) ==> after.state.selected is Some && after.state.selected->0
            == after.apps.len() - 1 && after.state.offset == before.state.offset,
        after == (LauncherView { apps: after.apps, state: after.state, ..before }),
        after.apps.len() == before.catalog.metas.len(),
        waits_in_root(before) ==> waits_in_root(after),
{
}

/// The status line tells of a launch in the background by its name and where
/// its log is, and of an app in the terminal by how it ended.
pub proof fn outcomes_are_told(name: Seq<char>, text: String)
    ensures
        launched_text(name) == "launched "@ + name + " — press l for its log"@,
        outcome_text(name, RunOutcome::Clean) == name + " exited cleanly"@,
        outcome_text(name, RunOutcome::Exited(text)) == name + " exited ("@ + text@ + ")"@,
        outcome_text(name, RunOutcome::NotStarted(text)) == "failed to launch "@ + name + ": "@
            + text@,
{
}

/// While the workspace is searched, `q`, Esc and Ctrl-C leave; otherwise the
/// search decides, and only a failed or vanished one is a failure.
pub proof fn loading_goes_by_key_and_search(key: Key, control: bool, progress: Progress)
    ensures
        asks_to_quit(key, control) <==> (key == Key::Char('q') || key == Key::Esc || (control
            && key == Key::Char('c'))),
        key == Key::Char('q') || key == Key::Esc || (control && key == Key::Char('c'))
            ==> loading_next(Some((key, control)), progress) == LoadingView::Quit,
        !(key == Key::Char('q') || key == Key::Esc || (control && key == Key::Char('c')))
            ==> loading_next(Some((key, control)), progress) == loading_next(None, progress),
        loading_next(None, progress) == LoadingView::Ready <==> progress is Found,
        loading_next(None, progress) == LoadingView::Wait <==> progress is Pending,
        progress is Failed ==> loading_next(None, progress) == LoadingView::Failed(
            progress->Failed_0@,
        ),
        progress is Gone ==> loading_next(None, progress) == LoadingView::Failed(
            "cargo-bay: discovery thread stopped unexpectedly."@,
        ),
{
}

/// A launch in the background that started runs behind the other jobs, is marked
/// and brings up the console at the tail; one that did not leaves the jobs as
/// they were. Either way the status line names it, and nothing else changes.
pub proof fn a_background_launch_is_reported(
    v: LauncherView,
    name: Seq<char>,
    cargo: bool,
    why: String,
)
    ensures
        ({
            let started = launch_reported(v, name, cargo, None);
            let failed = launch_reported(v, name, cargo, Some(why));
            &&& started.jobs.running == v.jobs.running.push(
                JobView { name, kind: JobKind::Run { cargo } },
            )
            &&& started.jobs.status == v.jobs.status.insert(name, AppStatus::Running)
            &&& started.jobs.console_visible
            &&& started.jobs.console_scroll == 0
            &&& started.jobs.queue == v.jobs.queue
            &&& started.jobs.waiting == v.jobs.waiting
            &&& started.jobs.root == v.jobs.root
            &&& started.status == "launched "@ + name + " — press l for its log"@
            &&& started == LauncherView { jobs: started.jobs, status: started.status, ..v }
            &&& failed == LauncherView { status: started.status, ..v }
        }),
{
}

/// Every turn of the event loop counts one, from the greatest count back to
/// zero, and changes nothing else.
pub proof fn every_turn_counts(v: LauncherView)
    ensures
        v.tick < 0xffff_ffff_ffff_ffff ==> ticked(v).tick == v.tick + 1,
        v.tick == 0xffff_ffff_ffff_ffff ==> ticked(v).tick == 0,
        ticked(v) == (LauncherView { tick: ticked(v).tick, ..v }),
{
}

} // verus!
