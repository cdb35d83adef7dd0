//! Laws of the background jobs: what asking, launching, canceling, reaping and
//! starting change, and what they leave alone.

use crate::job::{
    build_begun, build_command_view, build_count, build_line, builds_at, can_start_build,
    can_start_run, canceled, cancellations_logged, concern, consistent, enqueued, finished_builds,
    is_working, launch_line, logged, pumped, reap, reap_start, reaped, run_started, run_taken,
    run_waits, scrolled, shut_down, slot_taken, spinner_frame, tagged, takes_cargo_slot, unfinished,
    AppStatus, DoneView, Exit, JobKind, JobView, JobsView, ProgramView, Reaped, WaitingView,
};
use std::path::PathBuf;
use vstd::prelude::*;

verus! {

/// A build of the app is live.
pub open spec fn live_build(running: Seq<JobView>, name: Seq<char>) -> bool {
    exists|i: int|
        0 <= i < running.len() && (#[trigger] running[i]).name == name && running[i].kind is Build
}

/// A run of the app is live.
pub open spec fn live_run(running: Seq<JobView>, name: Seq<char>) -> bool {
    exists|i: int|
        0 <= i < running.len() && (#[trigger] running[i]).name == name && running[i].kind is Run
}

/// No build and no `cargo run` is live.
pub open spec fn cargo_is_free(running: Seq<JobView>) -> bool {
    forall|i: int|
        0 <= i < running.len() ==> (#[trigger] running[i]).kind == (JobKind::Run { cargo: false })
}

/// The root and the waiting runs stand as they did.
pub open spec fn rest_is_kept(before: JobsView, after: JobsView) -> bool {
    &&& after.root == before.root
    &&& after.waiting == before.waiting
}

/// The console stands as it did.
pub open spec fn console_is_kept(before: JobsView, after: JobsView) -> bool {
    &&& after.console_visible == before.console_visible
    &&& after.console_scroll == before.console_scroll
}

// --- small things -------------------------------------------------------

/// The spinner shows its four frames in turn.
pub proof fn the_spinner_turns(tick: u64)
    ensures
        tick % 4 == 0 ==> spinner_frame(tick) == '|',
        tick % 4 == 1 ==> spinner_frame(tick) == '/',
        tick % 4 == 2 ==> spinner_frame(tick) == '-',
        tick % 4 == 3 ==> spinner_frame(tick) == '\\',
{
}

/// The log keeps up to four thousand lines, drops from the front what is more,
/// and ends with the line that was added.
pub proof fn the_log_keeps_four_thousand_lines(log: Seq<Seq<char>>, line: Seq<char>)
    ensures
        log.len() < 4000 ==> logged(log, line) == log.push(line),
        log.len() >= 4000 ==> logged(log, line).len() == 4000,
        logged(log, line).last() == line,
        forall|i: int|
            #![trigger logged(log, line)[i]]
            0 <= i < logged(log, line).len() - 1 ==> logged(log, line)[i] == log[log.len()
                - logged(log, line).len() + 1 + i],
{
}

/// A line of a job stands behind its name in brackets.
pub proof fn lines_stand_behind_the_name(name: Seq<char>, rest: Seq<char>)
    ensures
        tagged(name, rest) == seq!['['] + name + seq![']', ' '] + rest,
{
    reveal_strlit("[");
    reveal_strlit("] ");
    assert("["@ =~= seq!['[']);
    assert("] "@ =~= seq![']', ' ']);
}

/// Builds and `cargo run`s need the cargo slot, and a binary that runs does
/// not; the slot is taken exactly if one of the former is live.
pub proof fn only_cargo_needs_the_slot(running: Seq<JobView>)
    ensures
        takes_cargo_slot(JobKind::Build),
        takes_cargo_slot(JobKind::Run { cargo: true }),
        !takes_cargo_slot(JobKind::Run { cargo: false }),
        slot_taken(running) <==> !cargo_is_free(running),
{
    if slot_taken(running) {
        let i = choose|i: int|
            0 <= i < running.len() && takes_cargo_slot((#[trigger] running[i]).kind);
        assert(running[i].kind != (JobKind::Run { cargo: false }));
    }
    if !cargo_is_free(running) {
        let i = choose|i: int|
            0 <= i < running.len() && (#[trigger] running[i]).kind != (JobKind::Run { cargo: false });
        assert(takes_cargo_slot(running[i].kind));
    }
}

/// Each live build counts as one, and no run does.
pub proof fn builds_are_counted(running: Seq<JobView>, job: JobView)
    ensures
        build_count(Seq::empty()) == 0,
        job.kind is Build ==> build_count(running.push(job)) == build_count(running) + 1,
        job.kind is Run ==> build_count(running.push(job)) == build_count(running),
{
    let p = |j: JobView| j.kind == JobKind::Build;
    running.lemma_filter_push(job, p);
    reveal(Seq::filter);
}

/// A build is `cargo build -p` with the app's name, in the workspace root.
pub proof fn a_build_is_cargo_build(root: PathBuf, name: Seq<char>)
    ensures
        build_command_view(root, name).program == ProgramView::Named("cargo"@),
        build_command_view(root, name).args.len() == 3,
        build_command_view(root, name).args[0] == "build"@,
        build_command_view(root, name).args[1] == "-p"@,
        build_command_view(root, name).args[2] == name,
        build_command_view(root, name).dir == root,
{
}

/// Scrolling moves by what it is told, and stops at the tail and at the far
/// end.
pub proof fn scrolling_moves_and_stops(scroll: u16, delta: int)
    ensures
        0 <= scroll + delta <= 65535 ==> scrolled(scroll, delta) == scroll + delta,
        scroll + delta < 0 ==> scrolled(scroll, delta) == 0,
        scroll + delta > 65535 ==> scrolled(scroll, delta) == 65535,
{
}

// --- asking and launching -----------------------------------------------

/// Asking for a build puts the app at the end of the queue and marks it, unless
/// it is queued or being built: then nothing changes. Nothing else does either
/// way.
pub proof fn asking_queues_at_the_end(v: JobsView, name: Seq<char>)
    ensures
        v.queue.contains(name) || live_build(v.running, name) ==> enqueued(v, name) == v,
        !v.queue.contains(name) && !live_build(v.running, name) ==> {
            let after = enqueued(v, name);
            &&& after.queue == v.queue.push(name)
            &&& after.status == v.status.insert(name, AppStatus::Queued)
            &&& after.running == v.running
            &&& rest_is_kept(v, after)
            &&& console_is_kept(v, after)
        },
{
    same_build(v.running, name);
}

/// A live build, in the words of the jobs.
proof fn same_build(running: Seq<JobView>, name: Seq<char>)
    ensures
        live_build(running, name) <==> crate::job::has_job(running, name, true),
        live_run(running, name) <==> crate::job::has_job(running, name, false),
{
    if live_build(running, name) {
        let i = choose|i: int|
            0 <= i < running.len() && (#[trigger] running[i]).name == name && running[i].kind is Build;
        assert(running[i].name == name);
    }
    if live_run(running, name) {
        let i = choose|i: int|
            0 <= i < running.len() && (#[trigger] running[i]).name == name && running[i].kind is Run;
        assert(running[i].name == name);
    }
    if crate::job::has_job(running, name, true) {
        let i = choose|i: int|
            0 <= i < running.len() && (#[trigger] running[i]).name == name && (running[i].kind
                == JobKind::Build) == true;
        assert(running[i].name == name);
    }
    if crate::job::has_job(running, name, false) {
        let i = choose|i: int|
            0 <= i < running.len() && (#[trigger] running[i]).name == name && (running[i].kind
                == JobKind::Build) == false;
        assert(running[i].name == name);
    }
}

/// A launched app runs behind the other jobs, is marked as running, and brings
/// up the console at the tail of the log. The queue and the marks of the other
/// apps stay.
pub proof fn launching_adds_a_run(v: JobsView, name: Seq<char>, cargo: bool)
    ensures
        ({
            let after = run_started(v, name, cargo);
            &&& after.running.len() == v.running.len() + 1
            &&& after.running.drop_last() == v.running
            &&& after.running.last().name == name
            &&& after.running.last().kind == (JobKind::Run { cargo })
            &&& after.status == v.status.insert(name, AppStatus::Running)
            &&& after.console_visible
            &&& after.console_scroll == 0
            &&& after.queue == v.queue
            &&& rest_is_kept(v, after)
        }),
{
    assert(run_started(v, name, cargo).running.drop_last() =~= v.running);
}

/// A run that waits stands behind those that wait already; the one in front is
/// taken, and only while no cargo command is live. Nothing else changes.
pub proof fn runs_wait_in_a_row(v: JobsView, run: WaitingView)
    ensures
        run_waits(v, run) == (JobsView { waiting: v.waiting.push(run), ..v }),
        can_start_run(v) <==> v.waiting.len() > 0 && cargo_is_free(v.running),
        can_start_run(v) ==> run_taken(v) == (JobsView { waiting: v.waiting.skip(1), ..v }),
        !can_start_run(v) ==> run_taken(v) == v,
{
    only_cargo_needs_the_slot(v.running);
    if v.waiting.len() > 0 {
        assert(v.waiting.drop_first() =~= v.waiting.skip(1));
    }
}

/// The log tells of a launch and of the start of a build, and why either failed,
/// under the app's name; and the jobs are at work exactly if one is queued,
/// waits or runs.
pub proof fn starts_are_noted(v: JobsView, name: Seq<char>, why: String)
    ensures
        launch_line(name, None) == seq!['['] + name + seq![']', ' '] + "launched"@,
        launch_line(name, Some(why)) == seq!['['] + name + seq![']', ' '] + ("failed to launch: "@
            + why@),
        build_line(name, None) == seq!['['] + name + seq![']', ' '] + "building…"@,
        build_line(name, Some(why)) == seq!['['] + name + seq![']', ' '] + (
        "failed to start build: "@ + why@),
        !is_working(v) <==> v.queue.len() == 0 && v.waiting.len() == 0 && v.running.len() == 0,
{
    lines_stand_behind_the_name(name, "launched"@);
    lines_stand_behind_the_name(name, "failed to launch: "@ + why@);
    lines_stand_behind_the_name(name, "building…"@);
    lines_stand_behind_the_name(name, "failed to start build: "@ + why@);
}

// --- builds -------------------------------------------------------------

/// A build starts exactly when one is queued, no cargo command is live and no
/// run waits. It is the first of the queue that leaves it; where it started it
/// runs behind the other jobs, and where it could not, it is marked as failed
/// and the console comes up. Nothing else changes.
pub proof fn the_first_of_the_queue_is_built(v: JobsView)
    ensures
        can_start_build(v) <==> v.queue.len() > 0 && cargo_is_free(v.running) && v.waiting.len()
            == 0,
        v.queue.len() > 0 ==> {
            let started = build_begun(v, true);
            let failed = build_begun(v, false);
            &&& started.queue == v.queue.skip(1)
            &&& started.running == v.running.push(
                JobView { name: v.queue[0], kind: JobKind::Build },
            )
            &&& started.status == v.status.insert(v.queue[0], AppStatus::Building)
            &&& rest_is_kept(v, started)
            &&& console_is_kept(v, started)
            &&& failed.queue == v.queue.skip(1)
            &&& failed.running == v.running
            &&& failed.status == v.status.insert(v.queue[0], AppStatus::BuildFailed)
            &&& failed.console_visible
            &&& failed.console_scroll == v.console_scroll
            &&& rest_is_kept(v, failed)
        },
{
    only_cargo_needs_the_slot(v.running);
    if v.queue.len() > 0 {
        assert(v.queue.drop_first() =~= v.queue.skip(1));
    }
}

/// Canceling empties the queue and ends exactly the builds; the runs go on in
/// their order, the console and the waiting runs stay. A mark of a failed build
/// stays, any other app that runs is marked as running, and no other app is
/// marked.
pub proof fn canceling_ends_exactly_the_builds(v: JobsView)
    requires
        consistent(v),
    ensures
        ({
            let after = canceled(v);
            &&& after.queue.len() == 0
            &&& after.running == v.running.filter(|j: JobView| j.kind is Run)
            &&& rest_is_kept(v, after)
            &&& console_is_kept(v, after)
        }),
        forall|n: Seq<char>| #[trigger]
            canceled(v).status.contains_key(n) <==> live_run(v.running, n) || (
            v.status.contains_key(n) && v.status[n] == AppStatus::BuildFailed),
        forall|n: Seq<char>| #[trigger]
            canceled(v).status.contains_key(n) ==> canceled(v).status[n] == if v.status.contains_key(
                n,
            ) && v.status[n] == AppStatus::BuildFailed {
                AppStatus::BuildFailed
            } else {
                AppStatus::Running
            },
{
    let after = canceled(v);
    let p = |j: JobView| j.kind != JobKind::Build;
    let q = |j: JobView| j.kind is Run;
    assert(p =~= q) by {
        assert forall|j: JobView| #[trigger] p(j) == q(j) by {}
    }
    crate::job::canceling_stops_all_builds(v);
    assert forall|n: Seq<char>| #[trigger]
        after.status.contains_key(n) <==> live_run(v.running, n) || (v.status.contains_key(n)
            && v.status[n] == AppStatus::BuildFailed) by {
        same_build(v.running, n);
        same_build(after.running, n);
        if live_run(after.running, n) {
            let i = choose|i: int|
                0 <= i < after.running.len() && (#[trigger] after.running[i]).name == n
                    && after.running[i].kind is Run;
            assert(after.running.contains(after.running[i]));
            let j = choose|j: int| 0 <= j < v.running.len() && v.running[j] == after.running[i];
            assert(v.running[j].name == n);
        }
    }
}

/// What is to be killed are the positions of exactly the builds, in order.
pub proof fn exactly_the_builds_are_killed(jobs: Seq<JobView>)
    requires
        jobs.len() <= usize::MAX,
    ensures
        forall|i: int|
            0 <= i < jobs.len() ==> (builds_at(jobs).contains(i as usize) <==> (
            #[trigger] jobs[i]).kind is Build),
        forall|k: int| 0 <= k < builds_at(jobs).len() ==> #[trigger] builds_at(jobs)[k] < jobs.len(),
        forall|a: int, b: int|
            #![trigger builds_at(jobs)[a], builds_at(jobs)[b]]
            0 <= a < b < builds_at(jobs).len() ==> builds_at(jobs)[a] < builds_at(jobs)[b],
    decreases jobs.len(),
{
    if jobs.len() > 0 {
        let front = jobs.drop_last();
        let end = jobs.len() - 1;
        exactly_the_builds_are_killed(front);
        let f = builds_at(front);
        let all = builds_at(jobs);
        if jobs.last().kind == JobKind::Build {
            assert(all == f.push(end as usize));
            assert(all[f.len() as int] == end as usize);
        }
        assert forall|i: int| 0 <= i < jobs.len() implies (all.contains(i as usize) <==> (
        #[trigger] jobs[i]).kind is Build) by {
            if i < end {
                assert(front[i] == jobs[i]);
                if f.contains(i as usize) {
                    let k = choose|k: int| 0 <= k < f.len() && f[k] == i as usize;
                    assert(all[k] == i as usize);
                }
                if all.contains(i as usize) {
                    let k = choose|k: int| 0 <= k < all.len() && all[k] == i as usize;
                    assert(k < f.len());
                    assert(f[k] == i as usize);
                }
            } else {
                if all.contains(end as usize) && !(jobs.last().kind is Build) {
                    let k = choose|k: int| 0 <= k < all.len() && all[k] == end as usize;
                    assert(f[k] < front.len());
                }
            }
        }
    }
}

/// Without a build nothing is noted as canceled; of one build among the jobs a
/// line is, under its name.
pub proof fn each_canceled_build_is_noted(log: Seq<Seq<char>>, jobs: Seq<JobView>, at: int)
    requires
        forall|i: int| 0 <= i < jobs.len() && i != at ==> (#[trigger] jobs[i]).kind is Run,
    ensures
        !(0 <= at < jobs.len() && jobs[at].kind is Build) ==> cancellations_logged(log, jobs) == log,
        0 <= at < jobs.len() && jobs[at].kind is Build ==> cancellations_logged(log, jobs)
            == logged(log, tagged(jobs[at].name, "build canceled"@)),
    decreases jobs.len(),
{
    if jobs.len() > 0 {
        let front = jobs.drop_last();
        assert forall|i: int| 0 <= i < front.len() && i != at implies (
        #[trigger] front[i]).kind is Run by {
            assert(front[i] == jobs[i]);
        }
        each_canceled_build_is_noted(log, front, at);
        assert(jobs[jobs.len() - 1] == jobs.last());
    }
}

/// Canceled builds are noted one behind the other, in the order of the jobs.
pub proof fn canceled_builds_are_noted_in_order(
    log: Seq<Seq<char>>,
    jobs: Seq<JobView>,
    job: JobView,
)
    ensures
        cancellations_logged(log, Seq::empty()) == log,
        job.kind is Build ==> cancellations_logged(log, jobs.push(job)) == logged(
            cancellations_logged(log, jobs),
            tagged(job.name, "build canceled"@),
        ),
        job.kind is Run ==> cancellations_logged(log, jobs.push(job)) == cancellations_logged(
            log,
            jobs,
        ),
{
    assert(jobs.push(job).drop_last() =~= jobs);
}

/// Shutting down ends every job, empties the queue and the row of waiting runs
/// and takes every mark away; the console stays.
pub proof fn shutting_down_ends_everything(v: JobsView)
    ensures
        ({
            let after = shut_down(v);
            &&& after.running.len() == 0
            &&& after.queue.len() == 0
            &&& after.waiting.len() == 0
            &&& after.status == Map::<Seq<char>, AppStatus>::empty()
            &&& after.root == v.root
            &&& console_is_kept(v, after)
        }),
{
}

// --- finished jobs ------------------------------------------------------

/// `at` are the positions of exactly the jobs that have not ended, in order.
pub open spec fn positions_left(exits: Seq<Option<Exit>>, at: Seq<int>) -> bool {
    &&& forall|k: int|
        0 <= k < at.len() ==> 0 <= #[trigger] at[k] < exits.len() && exits[at[k]] is None
    &&& forall|a: int, b: int| #![trigger at[a], at[b]] 0 <= a < b < at.len() ==> at[a] < at[b]
    &&& forall|i: int|
        0 <= i < exits.len() && (#[trigger] exits[i]) is None ==> at.contains(i)
}

/// `at` are the positions of exactly the builds that have ended, in order.
pub open spec fn positions_done(
    jobs: Seq<JobView>,
    exits: Seq<Option<Exit>>,
    at: Seq<int>,
) -> bool {
    &&& forall|k: int|
        0 <= k < at.len() ==> 0 <= #[trigger] at[k] < jobs.len() && exits[at[k]] is Some
            && jobs[at[k]].kind is Build
    &&& forall|a: int, b: int| #![trigger at[a], at[b]] 0 <= a < b < at.len() ==> at[a] < at[b]
    &&& forall|i: int|
        0 <= i < jobs.len() && exits[i] is Some && (#[trigger] jobs[i]).kind is Build
            ==> at.contains(i)
}

/// Where the jobs that go on stood.
proof fn left_at(jobs: Seq<JobView>, exits: Seq<Option<Exit>>) -> (at: Seq<int>)
    requires
        jobs.len() == exits.len(),
    ensures
        positions_left(exits, at),
        unfinished(jobs, exits) == at.map_values(|i: int| jobs[i]),
    decreases jobs.len(),
{
    if jobs.len() == 0 {
        assert(unfinished(jobs, exits) =~= Seq::<int>::empty().map_values(|i: int| jobs[i]));
        Seq::empty()
    } else {
        let fj = jobs.drop_last();
        let fe = exits.drop_last();
        let end = jobs.len() - 1;
        let f = left_at(fj, fe);
        let at = if exits.last() is None {
            f.push(end)
        } else {
            f
        };
        assert(exits[end] == exits.last());
        assert forall|i: int| 0 <= i < exits.len() && (#[trigger] exits[i]) is None implies at.contains(
            i,
        ) by {
            if i < end {
                assert(fe[i] is None);
                let k = choose|k: int| 0 <= k < f.len() && f[k] == i;
                assert(at[k] == i);
            } else {
                assert(at[f.len() as int] == i);
            }
        }
        assert forall|k: int| 0 <= k < at.len() implies 0 <= #[trigger] at[k] < exits.len()
            && exits[at[k]] is None by {
            if k < f.len() {
                assert(at[k] == f[k]);
                assert(fe[f[k]] is None);
            }
        }
        assert forall|a: int, b: int| #![trigger at[a], at[b]] 0 <= a < b < at.len() implies at[a]
            < at[b] by {
            assert(at[a] == f[a]);
            if b < f.len() {
                assert(at[b] == f[b]);
            }
        }
        assert(unfinished(jobs, exits) =~= at.map_values(|i: int| jobs[i]));
        at
    }
}

/// Where the builds that ended stood.
proof fn done_at(jobs: Seq<JobView>, exits: Seq<Option<Exit>>) -> (at: Seq<int>)
    requires
        jobs.len() == exits.len(),
    ensures
        positions_done(jobs, exits, at),
        finished_builds(jobs, exits) == at.map_values(
            |i: int| DoneView { name: jobs[i].name, success: exits[i]->0.success },
        ),
    decreases jobs.len(),
{
    let told = |i: int| DoneView { name: jobs[i].name, success: exits[i]->0.success };
    if jobs.len() == 0 {
        assert(finished_builds(jobs, exits) =~= Seq::<int>::empty().map_values(told));
        Seq::empty()
    } else {
        let fj = jobs.drop_last();
        let fe = exits.drop_last();
        let end = jobs.len() - 1;
        let f = done_at(fj, fe);
        let at = if exits.last() is Some && jobs.last().kind == JobKind::Build {
            f.push(end)
        } else {
            f
        };
        assert(exits[end] == exits.last() && jobs[end] == jobs.last());
        assert forall|i: int|
            0 <= i < jobs.len() && exits[i] is Some && (
            #[trigger] jobs[i]).kind is Build implies at.contains(i) by {
            if i < end {
                assert(fj[i] == jobs[i] && fe[i] == exits[i]);
                let k = choose|k: int| 0 <= k < f.len() && f[k] == i;
                assert(at[k] == i);
            } else {
                assert(at[f.len() as int] == i);
            }
        }
        assert forall|k: int| 0 <= k < at.len() implies 0 <= #[trigger] at[k] < jobs.len()
            && exits[at[k]] is Some && jobs[at[k]].kind is Build by {
            if k < f.len() {
                assert(at[k] == f[k]);
                assert(fe[f[k]] is Some && fj[f[k]].kind is Build);
            }
        }
        assert forall|a: int, b: int| #![trigger at[a], at[b]] 0 <= a < b < at.len() implies at[a]
            < at[b] by {
            assert(at[a] == f[a]);
            if b < f.len() {
                assert(at[b] == f[b]);
            }
        }
        assert(finished_builds(jobs, exits) =~= at.map_values(told));
        at
    }
}

/// After looking after the jobs, exactly those go on that have not ended, in
/// their order, and exactly the builds that have are reported, in their order,
/// each with its name and its outcome. The queue, the waiting runs and the
/// console's position stay; the console comes up if a build failed, and is
/// never hidden.
pub proof fn exactly_the_unfinished_jobs_go_on(
    v: JobsView,
    exits: Seq<Option<Exit>>,
    log: Seq<Seq<char>>,
)
    requires
        exits.len() == v.running.len(),
    ensures
        exists|at: Seq<int>| #[trigger]
            positions_left(exits, at) && pumped(v, exits, log).running == at.map_values(
                |i: int| v.running[i],
            ),
        exists|at: Seq<int>| #[trigger]
            positions_done(v.running, exits, at) && reaped(v, exits, log).done == at.map_values(
                |i: int| DoneView { name: v.running[i].name, success: exits[i]->0.success },
            ),
        pumped(v, exits, log).queue == v.queue,
        pumped(v, exits, log).console_scroll == v.console_scroll,
        rest_is_kept(v, pumped(v, exits, log)),
        pumped(v, exits, log).console_visible <==> v.console_visible || exists|i: int|
            0 <= i < v.running.len() && (#[trigger] v.running[i]).kind is Build && exits[i] is Some
                && !exits[i]->0.success,
{
    let at = left_at(v.running, exits);
    let done = done_at(v.running, exits);
    crate::job::pump_sorts_out_the_jobs(v, exits, log);
    assert(positions_left(exits, at));
    assert(positions_done(v.running, exits, done));
    if exists|i: int|
        0 <= i < v.running.len() && (#[trigger] v.running[i]).kind is Build && exits[i] is Some
            && !exits[i]->0.success {
        let i = choose|i: int|
            0 <= i < v.running.len() && (#[trigger] v.running[i]).kind is Build && exits[i] is Some
                && !exits[i]->0.success;
        assert(v.running[i].kind == JobKind::Build);
    }
}

/// A job of the app has ended.
pub open spec fn some_ended(
    jobs: Seq<JobView>,
    exits: Seq<Option<Exit>>,
    name: Seq<char>,
) -> bool {
    exists|i: int| 0 <= i < jobs.len() && (#[trigger] jobs[i]).name == name && exits[i] is Some
}

/// Every job of the app that has ended is a build that failed.
pub open spec fn only_failed(
    jobs: Seq<JobView>,
    exits: Seq<Option<Exit>>,
    name: Seq<char>,
) -> bool {
    forall|i: int|
        0 <= i < jobs.len() && (#[trigger] jobs[i]).name == name && exits[i] is Some
            ==> jobs[i].kind is Build && !exits[i]->0.success
}

/// No build of the app that has ended failed.
pub open spec fn none_failed(
    jobs: Seq<JobView>,
    exits: Seq<Option<Exit>>,
    name: Seq<char>,
) -> bool {
    forall|i: int|
        0 <= i < jobs.len() && (#[trigger] jobs[i]).name == name && exits[i] is Some
            && jobs[i].kind is Build ==> exits[i]->0.success
}

/// What reaping makes of one app's mark.
proof fn reaping_marks(
    start: Reaped,
    jobs: Seq<JobView>,
    exits: Seq<Option<Exit>>,
    queue: Seq<Seq<char>>,
    left: Seq<JobView>,
    name: Seq<char>,
)
    requires
        jobs.len() == exits.len(),
    ensures
        ({
            let after = reap(start, jobs, exits, queue, left).status;
            &&& !some_ended(jobs, exits, name) ==> (after.contains_key(name)
                <==> start.status.contains_key(name)) && (after.contains_key(name) ==> after[name]
                == start.status[name])
            &&& some_ended(jobs, exits, name) && only_failed(jobs, exits, name)
                ==> after.contains_key(name) && after[name] == AppStatus::BuildFailed
            &&& some_ended(jobs, exits, name) && none_failed(jobs, exits, name) ==> (
            after.contains_key(name) <==> concern(queue, left, name) is Some) && (
            after.contains_key(name) ==> concern(queue, left, name) == Some(after[name]))
        }),
    decreases jobs.len(),
{
    if jobs.len() > 0 {
        let fj = jobs.drop_last();
        let fe = exits.drop_last();
        let end = jobs.len() - 1;
        reaping_marks(start, fj, fe, queue, left, name);
        assert(jobs[end] == jobs.last() && exits[end] == exits.last());
        if some_ended(fj, fe, name) {
            let i = choose|i: int|
                0 <= i < fj.len() && (#[trigger] fj[i]).name == name && fe[i] is Some;
            assert(jobs[i].name == name && exits[i] is Some);
        }
        if some_ended(jobs, exits, name) && !some_ended(fj, fe, name) {
            let i = choose|i: int|
                0 <= i < jobs.len() && (#[trigger] jobs[i]).name == name && exits[i] is Some;
            if i < end {
                assert(fj[i].name == name && fe[i] is Some);
            }
        }
        assert(only_failed(jobs, exits, name) ==> only_failed(fj, fe, name)) by {
            assert forall|i: int| only_failed(jobs, exits, name) && 0 <= i < fj.len() && (
            #[trigger] fj[i]).name == name && fe[i] is Some implies fj[i].kind is Build
                && !fe[i]->0.success by {
                assert(jobs[i] == fj[i] && exits[i] == fe[i]);
            }
        }
        assert(none_failed(jobs, exits, name) ==> none_failed(fj, fe, name)) by {
            assert forall|i: int| none_failed(jobs, exits, name) && 0 <= i < fj.len() && (
            #[trigger] fj[i]).name == name && fe[i] is Some
                && fj[i].kind is Build implies fe[i]->0.success by {
                assert(jobs[i] == fj[i] && exits[i] == fe[i]);
            }
        }
    }
}

/// The mark of an app none of whose jobs ended stays. Where only failed builds
/// ended, the app is marked as failed. Where none of its builds failed, it is
/// marked as being built, queued or running, as long as it is, in this order,
/// and not at all otherwise.
pub proof fn a_finished_job_leaves_the_right_mark(
    v: JobsView,
    exits: Seq<Option<Exit>>,
    log: Seq<Seq<char>>,
    name: Seq<char>,
)
    requires
        exits.len() == v.running.len(),
    ensures
        ({
            let after = pumped(v, exits, log);
            &&& !some_ended(v.running, exits, name) ==> (after.status.contains_key(name)
                <==> v.status.contains_key(name)) && (v.status.contains_key(name)
                ==> after.status[name] == v.status[name])
            &&& some_ended(v.running, exits, name) && only_failed(v.running, exits, name)
                ==> after.status.contains_key(name) && after.status[name] == AppStatus::BuildFailed
            &&& some_ended(v.running, exits, name) && none_failed(v.running, exits, name) ==> {
                if live_build(after.running, name) {
                    after.status.contains_key(name) && after.status[name] == AppStatus::Building
                } else if v.queue.contains(name) {
                    after.status.contains_key(name) && after.status[name] == AppStatus::Queued
                } else if live_run(after.running, name) {
                    after.status.contains_key(name) && after.status[name] == AppStatus::Running
                } else {
                    !after.status.contains_key(name)
                }
            }
        }),
{
    let left = unfinished(v.running, exits);
    reaping_marks(reap_start(v, log), v.running, exits, v.queue, left, name);
    same_build(left, name);
}

/// While nothing has ended nothing is noted; of one job that has, its outcome
/// is: whether a build went well, or how an app exited.
pub proof fn each_finished_job_is_noted(
    start: Reaped,
    jobs: Seq<JobView>,
    exits: Seq<Option<Exit>>,
    queue: Seq<Seq<char>>,
    left: Seq<JobView>,
    at: int,
)
    requires
        jobs.len() == exits.len(),
        forall|i: int| 0 <= i < exits.len() && i != at ==> (#[trigger] exits[i]) is None,
    ensures
        ({
            let after = reap(start, jobs, exits, queue, left).log;
            if 0 <= at < jobs.len() && exits[at] is Some {
                let name = jobs[at].name;
                let exit = exits[at]->0;
                &&& jobs[at].kind is Build && exit.success ==> after == logged(
                    start.log,
                    tagged(name, "build OK"@),
                )
                &&& jobs[at].kind is Build && !exit.success ==> after == logged(
                    start.log,
                    tagged(name, "build FAILED"@),
                )
                &&& jobs[at].kind is Run ==> after == logged(
                    start.log,
                    tagged(name, "exited ("@ + exit.text@ + ")"@),
                )
            } else {
                after == start.log
            }
        }),
    decreases jobs.len(),
{
    if jobs.len() > 0 {
        let fe = exits.drop_last();
        assert forall|i: int| 0 <= i < fe.len() && i != at implies (#[trigger] fe[i]) is None by {
            assert(fe[i] == exits[i]);
        }
        each_finished_job_is_noted(start, jobs.drop_last(), fe, queue, left, at);
        assert(exits[jobs.len() - 1] == exits.last());
        assert(jobs[jobs.len() - 1] == jobs.last());
    }
}

/// Finished jobs are noted one behind the other, in the order of the jobs: each
/// adds its own line to what was noted before it.
pub proof fn finished_jobs_are_noted_in_order(
    start: Reaped,
    jobs: Seq<JobView>,
    exits: Seq<Option<Exit>>,
    queue: Seq<Seq<char>>,
    left: Seq<JobView>,
    job: JobView,
    exit: Option<Exit>,
)
    requires
        jobs.len() == exits.len(),
    ensures
        reap(start, Seq::empty(), Seq::empty(), queue, left).log == start.log,
        ({
            let before = reap(start, jobs, exits, queue, left).log;
            let after = reap(start, jobs.push(job), exits.push(exit), queue, left).log;
            &&& exit is None ==> after == before
            &&& exit is Some && job.kind is Build && exit->0.success ==> after == logged(
                before,
                tagged(job.name, "build OK"@),
            )
            &&& exit is Some && job.kind is Build && !exit->0.success ==> after == logged(
                before,
                tagged(job.name, "build FAILED"@),
            )
            &&& exit is Some && job.kind is Run ==> after == logged(
                before,
                tagged(job.name, "exited ("@ + exit->0.text@ + ")"@),
            )
        }),
{
    assert(jobs.push(job).drop_last() =~= jobs);
    assert(exits.push(exit).drop_last() =~= exits);
}

} // verus!
