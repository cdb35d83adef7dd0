//! Background process management: a serial build queue plus fire-and-forget
//! windowed-app runs, with their output gathered in a shared log. Cargo
//! commands are serialized because cargo locks the workspace `target/` dir:
//! parallel `cargo build`s would just contend. A `cargo run` that finds the
//! slot taken waits for it, ahead of the queued builds.
//!
//! The processes themselves belong to the caller, who keeps one for each
//! running job, in the same order, and reports what became of it.

use crate::text::{same_text, texts};
use crate::text_map::TextMap;
use std::collections::VecDeque;
use std::path::PathBuf;
use vstd::prelude::*;

verus! {

/// Ring-buffer cap for the log console (oldest lines drop past this).
pub const MAX_LOG_LINES: usize = 4000;

/// The frame that the spinner shows at a tick.
pub open spec fn spinner_frame(tick: u64) -> char {
    if tick % 4 == 0 {
        '|'
    } else if tick % 4 == 1 {
        '/'
    } else if tick % 4 == 2 {
        '-'
    } else {
        '\\'
    }
}

/// The spinner frame for the current tick, for "building" indicators.
pub fn spinner(tick: u64) -> (r: char)
    ensures
        r == spinner_frame(tick),
{
    if tick % 4 == 0 {
        '|'
    } else if tick % 4 == 1 {
        '/'
    } else if tick % 4 == 2 {
        '-'
    } else {
        '\\'
    }
}

/// What a background job is.
#[derive(Clone, Copy, PartialEq, Eq, Structural, Debug)]
pub enum JobKind {
    /// `cargo build -p <name>`: occupies the single cargo slot.
    Build,
    /// A launched windowed app. `cargo` marks whether it's a `cargo run`
    /// (also needs the cargo slot) vs a direct prebuilt-exe run (does not).
    Run { cargo: bool },
}

/// Per-app UI state while a job concerns it.
#[derive(Clone, Copy, PartialEq, Eq, Structural, Debug)]
pub enum AppStatus {
    Queued,
    Building,
    BuildFailed,
    Running,
}

/// A finished build reported back so the caller can refresh freshness tags.
pub struct BuildDone {
    pub name: String,
    pub success: bool,
}

/// The model of a [`BuildDone`].
pub struct DoneView {
    pub name: Seq<char>,
    pub success: bool,
}

impl View for BuildDone {
    type V = DoneView;

    open spec fn view(&self) -> DoneView {
        DoneView { name: self.name@, success: self.success }
    }
}

/// The models of a list of finished builds.
pub open spec fn done_views(done: Seq<BuildDone>) -> Seq<DoneView> {
    done.map_values(|d: BuildDone| d@)
}

/// A job whose process is alive, or was when it was last looked at.
pub struct Job {
    pub name: String,
    pub kind: JobKind,
}

/// The model of a [`Job`].
pub struct JobView {
    pub name: Seq<char>,
    pub kind: JobKind,
}

impl View for Job {
    type V = JobView;

    open spec fn view(&self) -> JobView {
        JobView { name: self.name@, kind: self.kind }
    }
}

/// The models of a list of jobs.
pub open spec fn job_views(jobs: Seq<Job>) -> Seq<JobView> {
    jobs.map_values(|j: Job| j@)
}

/// The job needs the cargo slot.
pub open spec fn takes_cargo_slot(kind: JobKind) -> bool {
    kind == JobKind::Build || kind == (JobKind::Run { cargo: true })
}

impl Job {
    /// Does the job need the cargo slot?
    pub fn is_cargo(&self) -> (r: bool)
        ensures
            r == takes_cargo_slot(self.kind),
    {
        match self.kind {
            JobKind::Build => true,
            JobKind::Run { cargo } => cargo,
        }
    }

    /// Is the job a build?
    pub fn is_build(&self) -> (r: bool)
        ensures
            r == (self.kind == JobKind::Build),
    {
        match self.kind {
            JobKind::Build => true,
            JobKind::Run { .. } => false,
        }
    }
}

/// How a process ended: whether it succeeded, and the text for its status.
pub struct Exit {
    pub success: bool,
    pub text: String,
}

/// The program of a command line.
pub enum Program {
    /// A program that is looked up by name.
    Named(String),
    /// An executable file.
    File(PathBuf),
}

/// A program to start, with its arguments and the directory to start it in.
pub struct CommandLine {
    pub program: Program,
    pub args: Vec<String>,
    pub dir: PathBuf,
}

/// The model of a [`Program`].
pub enum ProgramView {
    Named(Seq<char>),
    File(PathBuf),
}

/// The model of a [`CommandLine`].
pub struct CommandView {
    pub program: ProgramView,
    pub args: Seq<Seq<char>>,
    pub dir: PathBuf,
}

impl View for CommandLine {
    type V = CommandView;

    open spec fn view(&self) -> CommandView {
        CommandView {
            program: match self.program {
                Program::Named(name) => ProgramView::Named(name@),
                Program::File(path) => ProgramView::File(path),
            },
            args: texts(self.args@),
            dir: self.dir,
        }
    }
}

/// `cargo build -p <name>`.
pub open spec fn build_command_view(root: PathBuf, name: Seq<char>) -> CommandView {
    CommandView {
        program: ProgramView::Named("cargo"@),
        args: seq!["build"@, "-p"@, name],
        dir: root,
    }
}

/// `cargo build -p <name>`.
fn build_command(root: &PathBuf, name: &str) -> (r: CommandLine)
    ensures
        r@ == build_command_view(*root, name@),
{
    let mut args: Vec<String> = Vec::new();
    args.push("build".to_owned());
    args.push("-p".to_owned());
    args.push(name.to_owned());
    assert(texts(args@) =~= seq!["build"@, "-p"@, name@]);
    CommandLine { program: Program::Named("cargo".to_owned()), args, dir: root.clone() }
}

/// The `cargo run` of a windowed app that waits for the cargo slot.
pub struct Waiting {
    pub name: String,
    pub command: CommandLine,
}

/// The model of a [`Waiting`].
pub struct WaitingView {
    pub name: Seq<char>,
    pub command: CommandView,
}

impl View for Waiting {
    type V = WaitingView;

    open spec fn view(&self) -> WaitingView {
        WaitingView { name: self.name@, command: self.command@ }
    }
}

/// The models of a list of waiting runs.
pub open spec fn waiting_views(list: Seq<Waiting>) -> Seq<WaitingView> {
    list.map_values(|w: Waiting| w@)
}

/// The log after a line is added: the oldest lines past the cap are gone.
pub open spec fn logged(log: Seq<Seq<char>>, line: Seq<char>) -> Seq<Seq<char>> {
    let all = log.push(line);
    if all.len() > MAX_LOG_LINES {
        all.skip(all.len() - MAX_LOG_LINES)
    } else {
        all
    }
}

/// Adds a line to the log.
pub fn push_line(log: &mut Vec<String>, line: String)
    ensures
        texts(final(log)@) == logged(texts(old(log)@), line@),
{
    let ghost before = log@;
    log.push(line);
    proof {
        assert(texts(log@) =~= texts(before).push(line@));
    }
    if log.len() > MAX_LOG_LINES {
        let overflow: usize = log.len() - MAX_LOG_LINES;
        let ghost full = log@;
        let tail = log.split_off(overflow);
        proof {
            assert(texts(tail@) =~= texts(full).skip(overflow as int));
        }
        *log = tail;
    }
}

/// The log never outgrows its cap, and a line that is added is its last; the
/// lines that stay keep their order.
pub proof fn log_keeps_the_newest_lines(log: Seq<Seq<char>>, line: Seq<char>)
    ensures
        logged(log, line).len() <= MAX_LOG_LINES,
        logged(log, line).last() == line,
        logged(log, line).is_suffix_of(log.push(line)),
        log.len() < MAX_LOG_LINES ==> logged(log, line) == log.push(line),
{
    let all = log.push(line);
    let kept = logged(log, line);
    assert(kept =~= all.subrange(all.len() - kept.len(), all.len() as int));
}

/// `[<name>]`, the mark in front of a job's lines.
pub open spec fn tagged(name: Seq<char>, rest: Seq<char>) -> Seq<char> {
    "["@ + name + "] "@ + rest
}

/// A line of a job's output, as it stands in the log.
pub fn tag_line(name: &str, rest: &str) -> (r: String)
    ensures
        r@ == tagged(name@, rest@),
{
    let mut out: String = "[".to_owned();
    out.append(name);
    out.append("] ");
    out.append(rest);
    out
}

/// Owns the build queue, the runs that wait for the cargo slot, the list of
/// live jobs and the per-app status.
pub struct Jobs {
    pub root: PathBuf,
    pub console_visible: bool,
    /// Lines scrolled up from the bottom (0 = follow the tail).
    pub console_scroll: u16,
    pub queue: VecDeque<String>,
    pub waiting: VecDeque<Waiting>,
    pub running: Vec<Job>,
    pub status: TextMap<AppStatus>,
}

/// The model of [`Jobs`].
pub struct JobsView {
    pub root: PathBuf,
    pub console_visible: bool,
    pub console_scroll: u16,
    pub queue: Seq<Seq<char>>,
    pub waiting: Seq<WaitingView>,
    pub running: Seq<JobView>,
    pub status: Map<Seq<char>, AppStatus>,
}

impl View for Jobs {
    type V = JobsView;

    open spec fn view(&self) -> JobsView {
        JobsView {
            root: self.root,
            console_visible: self.console_visible,
            console_scroll: self.console_scroll,
            queue: texts(self.queue@),
            waiting: waiting_views(self.waiting@),
            running: job_views(self.running@),
            status: self.status@,
        }
    }
}

/// A job of that name is running, a build or an app.
pub open spec fn has_job(running: Seq<JobView>, name: Seq<char>, build: bool) -> bool {
    exists|i: int|
        0 <= i < running.len() && (#[trigger] running[i]).name == name && (running[i].kind
            == JobKind::Build) == build
}

/// How many of the jobs are builds.
pub open spec fn build_count(running: Seq<JobView>) -> nat {
    running.filter(|j: JobView| j.kind == JobKind::Build).len()
}

/// How many of the jobs need the cargo slot.
pub open spec fn slot_count(running: Seq<JobView>) -> nat {
    running.filter(|j: JobView| takes_cargo_slot(j.kind)).len()
}

/// A job that needs the cargo slot is running.
pub open spec fn slot_taken(running: Seq<JobView>) -> bool {
    exists|i: int| 0 <= i < running.len() && takes_cargo_slot((#[trigger] running[i]).kind)
}

/// What concerns an app: a live build, a place in the queue, or a live run, in
/// this order.
pub open spec fn concern(
    queue: Seq<Seq<char>>,
    running: Seq<JobView>,
    name: Seq<char>,
) -> Option<AppStatus> {
    if has_job(running, name, true) {
        Some(AppStatus::Building)
    } else if queue.contains(name) {
        Some(AppStatus::Queued)
    } else if has_job(running, name, false) {
        Some(AppStatus::Running)
    } else {
        None
    }
}

/// The status `s` of an app is backed by the queue or by a running job.
pub open spec fn is_backed(
    queue: Seq<Seq<char>>,
    running: Seq<JobView>,
    name: Seq<char>,
    s: AppStatus,
) -> bool {
    match s {
        AppStatus::Queued => queue.contains(name),
        AppStatus::Building => has_job(running, name, true),
        AppStatus::Running => has_job(running, name, false),
        AppStatus::BuildFailed => true,
    }
}

/// What holds of the jobs at all times: at most one job holds the cargo slot;
/// no app is queued twice, or queued while it is being built; a status that
/// speaks of a queue, a build or a run is backed by one; each app that is
/// queued, being built or running has a status; and an app that is queued or
/// being built has no mark of a failed build.
pub open spec fn consistent(v: JobsView) -> bool {
    &&& slot_count(v.running) <= 1
    &&& v.queue.no_duplicates()
    &&& forall|n: Seq<char>| #[trigger] v.queue.contains(n) ==> !has_job(v.running, n, true)
    &&& forall|n: Seq<char>| #[trigger]
        v.status.contains_key(n) ==> is_backed(v.queue, v.running, n, v.status[n])
    &&& forall|n: Seq<char>| #[trigger]
        concern(v.queue, v.running, n) is Some ==> v.status.contains_key(n)
    &&& forall|n: Seq<char>| #[trigger]
        awaits_build(v.queue, v.running, n) ==> v.status[n] != AppStatus::BuildFailed
}

/// The app is waiting for a build or being built.
pub open spec fn awaits_build(
    queue: Seq<Seq<char>>,
    running: Seq<JobView>,
    name: Seq<char>,
) -> bool {
    queue.contains(name) || has_job(running, name, true)
}

/// The app is waiting for a build or being built.
pub open spec fn build_pending(v: JobsView, name: Seq<char>) -> bool {
    awaits_build(v.queue, v.running, name)
}

/// The jobs after a build is asked for.
pub open spec fn enqueued(v: JobsView, name: Seq<char>) -> JobsView {
    if build_pending(v, name) {
        v
    } else {
        JobsView {
            queue: v.queue.push(name),
            status: v.status.insert(name, AppStatus::Queued),
            ..v
        }
    }
}

/// The jobs after an app was launched in the background. An app that waits for
/// a build goes on waiting for it.
pub open spec fn run_started(v: JobsView, name: Seq<char>, cargo: bool) -> JobsView {
    JobsView {
        status: v.status.insert(name, AppStatus::Running),
        running: v.running.push(JobView { name, kind: JobKind::Run { cargo } }),
        console_visible: true,
        console_scroll: 0,
        ..v
    }
}

/// The line that the log gets of a launch in the background, which may have
/// failed.
pub open spec fn launch_line(name: Seq<char>, error: Option<String>) -> Seq<char> {
    match error {
        None => tagged(name, "launched"@),
        Some(e) => tagged(name, "failed to launch: "@ + e@),
    }
}

/// The line that the log gets of the start of a build, which may have failed.
pub open spec fn build_line(name: Seq<char>, error: Option<String>) -> Seq<char> {
    match error {
        None => tagged(name, "building…"@),
        Some(e) => tagged(name, "failed to start build: "@ + e@),
    }
}

/// Something is queued, waits or runs.
pub open spec fn is_working(v: JobsView) -> bool {
    v.queue.len() > 0 || v.waiting.len() > 0 || v.running.len() > 0
}

/// The console after scrolling: it stops at the tail, and at the far end of
/// what a position can hold.
pub open spec fn scrolled(scroll: u16, delta: int) -> u16 {
    let moved = scroll + delta;
    if moved < 0 {
        0
    } else if moved > u16::MAX {
        u16::MAX
    } else {
        moved as u16
    }
}

/// The statuses once no build is queued or under way and `left` still run: the
/// marks of failed builds stay, and the other apps that run say so.
pub open spec fn unqueued(
    status: Map<Seq<char>, AppStatus>,
    left: Seq<JobView>,
) -> Map<Seq<char>, AppStatus> {
    Map::new(
        |n: Seq<char>|
            has_job(left, n, false) || (status.contains_key(n) && status[n]
                == AppStatus::BuildFailed),
        |n: Seq<char>|
            if status.contains_key(n) && status[n] == AppStatus::BuildFailed {
                AppStatus::BuildFailed
            } else {
                AppStatus::Running
            },
    )
}

/// The log after each build among `jobs` is noted as canceled.
pub open spec fn cancellations_logged(log: Seq<Seq<char>>, jobs: Seq<JobView>) -> Seq<Seq<char>>
    decreases jobs.len(),
{
    if jobs.len() == 0 {
        log
    } else {
        let front = cancellations_logged(log, jobs.drop_last());
        if jobs.last().kind == JobKind::Build {
            logged(front, tagged(jobs.last().name, "build canceled"@))
        } else {
            front
        }
    }
}

/// The jobs that are not builds.
pub open spec fn without_builds(jobs: Seq<JobView>) -> Seq<JobView> {
    jobs.filter(|j: JobView| j.kind != JobKind::Build)
}

/// The positions of the builds among `jobs`, in order.
pub open spec fn builds_at(jobs: Seq<JobView>) -> Seq<usize>
    decreases jobs.len(),
{
    if jobs.len() == 0 {
        Seq::empty()
    } else {
        let front = builds_at(jobs.drop_last());
        if jobs.last().kind == JobKind::Build {
            front.push((jobs.len() - 1) as usize)
        } else {
            front
        }
    }
}

/// The jobs after all builds are canceled.
pub open spec fn canceled(v: JobsView) -> JobsView {
    JobsView {
        queue: Seq::empty(),
        running: without_builds(v.running),
        status: unqueued(v.status, without_builds(v.running)),
        ..v
    }
}

/// The jobs after everything is shut down.
pub open spec fn shut_down(v: JobsView) -> JobsView {
    JobsView {
        queue: Seq::empty(),
        waiting: Seq::empty(),
        running: Seq::empty(),
        status: Map::empty(),
        ..v
    }
}

/// The jobs that have not ended, in their order.
pub open spec fn unfinished(jobs: Seq<JobView>, exits: Seq<Option<Exit>>) -> Seq<JobView>
    decreases jobs.len(),
{
    if jobs.len() == 0 {
        Seq::empty()
    } else {
        let front = unfinished(jobs.drop_last(), exits.drop_last());
        if exits.last() is None {
            front.push(jobs.last())
        } else {
            front
        }
    }
}

/// The statuses after a job of the app `name` has gone: the app's falls back to
/// what still concerns it.
pub open spec fn fallen_back(
    status: Map<Seq<char>, AppStatus>,
    queue: Seq<Seq<char>>,
    left: Seq<JobView>,
    name: Seq<char>,
) -> Map<Seq<char>, AppStatus> {
    match concern(queue, left, name) {
        Some(s) => status.insert(name, s),
        None => status.remove(name),
    }
}

/// What looking after the running jobs changes.
pub struct Reaped {
    pub status: Map<Seq<char>, AppStatus>,
    pub console_visible: bool,
    pub done: Seq<DoneView>,
    pub log: Seq<Seq<char>>,
}

/// What is noted of one job, where `left` are the jobs that go on. A build that
/// failed is marked and brings up the console. After a build that ended well,
/// and after a run, the app's status falls back to what still concerns it.
pub open spec fn reap_one(
    r: Reaped,
    job: JobView,
    exit: Option<Exit>,
    queue: Seq<Seq<char>>,
    left: Seq<JobView>,
) -> Reaped {
    match exit {
        None => r,
        Some(e) => match job.kind {
            JobKind::Build => Reaped {
                status: if e.success {
                    fallen_back(r.status, queue, left, job.name)
                } else {
                    r.status.insert(job.name, AppStatus::BuildFailed)
                },
                console_visible: r.console_visible || !e.success,
                done: r.done.push(DoneView { name: job.name, success: e.success }),
                log: logged(
                    r.log,
                    tagged(
                        job.name,
                        if e.success {
                            "build OK"@
                        } else {
                            "build FAILED"@
                        },
                    ),
                ),
            },
            JobKind::Run { .. } => Reaped {
                status: fallen_back(r.status, queue, left, job.name),
                log: logged(r.log, tagged(job.name, "exited ("@ + e.text@ + ")"@)),
                ..r
            },
        },
    }
}

/// What is noted of all jobs, in their order.
pub open spec fn reap(
    start: Reaped,
    jobs: Seq<JobView>,
    exits: Seq<Option<Exit>>,
    queue: Seq<Seq<char>>,
    left: Seq<JobView>,
) -> Reaped
    decreases jobs.len(),
{
    if jobs.len() == 0 {
        start
    } else {
        reap_one(
            reap(start, jobs.drop_last(), exits.drop_last(), queue, left),
            jobs.last(),
            exits.last(),
            queue,
            left,
        )
    }
}

/// Where looking after the jobs begins.
pub open spec fn reap_start(v: JobsView, log: Seq<Seq<char>>) -> Reaped {
    Reaped { status: v.status, console_visible: v.console_visible, done: Seq::empty(), log }
}

/// What looking after the running jobs comes to.
pub open spec fn reaped(v: JobsView, exits: Seq<Option<Exit>>, log: Seq<Seq<char>>) -> Reaped {
    reap(reap_start(v, log), v.running, exits, v.queue, unfinished(v.running, exits))
}

/// The jobs after looking after those that ran.
pub open spec fn pumped(v: JobsView, exits: Seq<Option<Exit>>, log: Seq<Seq<char>>) -> JobsView {
    let r = reaped(v, exits, log);
    JobsView {
        status: r.status,
        console_visible: r.console_visible,
        running: unfinished(v.running, exits),
        ..v
    }
}

/// The jobs after a run was told to wait for the cargo slot.
pub open spec fn run_waits(v: JobsView, run: WaitingView) -> JobsView {
    JobsView { waiting: v.waiting.push(run), ..v }
}

/// A waiting run may start: no cargo command runs.
pub open spec fn can_start_run(v: JobsView) -> bool {
    v.waiting.len() > 0 && !slot_taken(v.running)
}

/// The jobs after the first waiting run was handed out, where it may start.
pub open spec fn run_taken(v: JobsView) -> JobsView {
    if can_start_run(v) {
        JobsView { waiting: v.waiting.drop_first(), ..v }
    } else {
        v
    }
}

/// A build may start: one is queued, no cargo command runs and no run waits
/// for the slot.
pub open spec fn can_start_build(v: JobsView) -> bool {
    v.queue.len() > 0 && !slot_taken(v.running) && v.waiting.len() == 0
}

/// The jobs after the next queued build was started, or could not be, which
/// brings up the console.
pub open spec fn build_begun(v: JobsView, started: bool) -> JobsView {
    let name = v.queue[0];
    if started {
        JobsView {
            queue: v.queue.drop_first(),
            status: v.status.insert(name, AppStatus::Building),
            running: v.running.push(JobView { name, kind: JobKind::Build }),
            ..v
        }
    } else {
        JobsView {
            queue: v.queue.drop_first(),
            status: v.status.insert(name, AppStatus::BuildFailed),
            console_visible: true,
            ..v
        }
    }
}

/// What a sequence holds after something is pushed.
proof fn push_keeps<A>(s: Seq<A>, x: A)
    ensures
        s.push(x).contains(x),
        forall|y: A| #[trigger] s.push(x).contains(y) <==> s.contains(y) || y == x,
{
    let all = s.push(x);
    assert(all[s.len() as int] == x);
    assert forall|y: A| #[trigger] all.contains(y) <==> s.contains(y) || y == x by {
        if s.contains(y) {
            let i = choose|i: int| 0 <= i < s.len() && s[i] == y;
            assert(all[i] == y);
        }
        if all.contains(y) {
            let i = choose|i: int| 0 <= i < all.len() && all[i] == y;
            if i < s.len() {
                assert(s[i] == y);
            }
        }
    }
}

/// Which jobs run after one is added, and how many need the slot.
proof fn push_keeps_jobs(jobs: Seq<JobView>, job: JobView)
    ensures
        has_job(jobs.push(job), job.name, job.kind == JobKind::Build),
        forall|n: Seq<char>, b: bool| #[trigger]
            has_job(jobs.push(job), n, b) <==> has_job(jobs, n, b) || (n == job.name && b == (
            job.kind == JobKind::Build)),
        slot_count(jobs.push(job)) == slot_count(jobs) + if takes_cargo_slot(job.kind) {
            1nat
        } else {
            0nat
        },
        build_count(jobs.push(job)) == build_count(jobs) + if job.kind == JobKind::Build {
            1nat
        } else {
            0nat
        },
{
    let all = jobs.push(job);
    assert(all[jobs.len() as int] == job);
    assert forall|n: Seq<char>, b: bool| #[trigger]
        has_job(all, n, b) <==> has_job(jobs, n, b) || (n == job.name && b == (job.kind
            == JobKind::Build)) by {
        if has_job(jobs, n, b) {
            let i = choose|i: int|
                0 <= i < jobs.len() && (#[trigger] jobs[i]).name == n && (jobs[i].kind
                    == JobKind::Build) == b;
            assert(all[i] == jobs[i]);
        }
        if has_job(all, n, b) {
            let i = choose|i: int|
                0 <= i < all.len() && (#[trigger] all[i]).name == n && (all[i].kind
                    == JobKind::Build) == b;
            if i < jobs.len() {
                assert(jobs[i] == all[i]);
            }
        }
    }
    jobs.lemma_filter_push(job, |j: JobView| j.kind == JobKind::Build);
    jobs.lemma_filter_push(job, |j: JobView| takes_cargo_slot(j.kind));
}

/// No more builds run than jobs that need the cargo slot.
proof fn builds_need_the_slot(jobs: Seq<JobView>)
    ensures
        build_count(jobs) <= slot_count(jobs),
    decreases jobs.len(),
{
    if jobs.len() == 0 {
        reveal(Seq::filter);
    } else {
        builds_need_the_slot(jobs.drop_last());
        push_keeps_jobs(jobs.drop_last(), jobs.last());
        assert(jobs =~= jobs.drop_last().push(jobs.last()));
    }
}

/// Asking for a build keeps the jobs consistent.
pub proof fn enqueued_is_consistent(v: JobsView, name: Seq<char>)
    requires
        consistent(v),
    ensures
        consistent(enqueued(v, name)),
{
    let after = enqueued(v, name);
    if !build_pending(v, name) {
        push_keeps(v.queue, name);
        assert forall|n: Seq<char>| #[trigger] after.queue.contains(n) implies !has_job(
            after.running,
            n,
            true,
        ) by {
            assert(v.queue.contains(n) || n == name);
        }
        assert forall|n: Seq<char>| #[trigger]
            concern(after.queue, after.running, n) is Some implies after.status.contains_key(n) by {
            assert(v.queue.contains(n) || n == name || !after.queue.contains(n));
            if n != name {
                assert(concern(v.queue, v.running, n) is Some);
            }
        }
        assert forall|n: Seq<char>| #[trigger] after.status.contains_key(n) implies is_backed(
            after.queue,
            after.running,
            n,
            after.status[n],
        ) by {
            if n != name {
                assert(v.status.contains_key(n));
            }
        }
        assert forall|n: Seq<char>| #[trigger]
            awaits_build(after.queue, after.running, n) implies after.status[n]
            != AppStatus::BuildFailed by {
            assert(build_pending(v, n) || n == name);
        }
    }
}

/// Launching an app while the cargo slot is free, or without cargo, keeps the
/// jobs consistent.
pub proof fn run_started_is_consistent(v: JobsView, name: Seq<char>, cargo: bool)
    requires
        consistent(v),
        cargo ==> !slot_taken(v.running),
    ensures
        consistent(run_started(v, name, cargo)),
{
    let after = run_started(v, name, cargo);
    if cargo {
        free_slot_is_not_held(v.running);
    }
    push_keeps_jobs(v.running, JobView { name, kind: JobKind::Run { cargo } });
    assert forall|n: Seq<char>| #[trigger]
        awaits_build(after.queue, after.running, n) implies after.status[n]
        != AppStatus::BuildFailed by {
        assert(build_pending(v, n));
    }
    assert forall|n: Seq<char>| #[trigger]
        concern(after.queue, after.running, n) is Some implies after.status.contains_key(n) by {
        if n != name {
            assert(concern(v.queue, v.running, n) is Some);
        }
    }
    assert forall|n: Seq<char>| #[trigger] after.status.contains_key(n) implies is_backed(
        after.queue,
        after.running,
        n,
        after.status[n],
    ) by {
        if n != name {
            assert(v.status.contains_key(n));
        }
    }
}

/// Where the cargo slot is free no job holds it, and no build runs.
proof fn free_slot_is_not_held(running: Seq<JobView>)
    requires
        !slot_taken(running),
    ensures
        slot_count(running) == 0,
        build_count(running) == 0,
{
    let p = |j: JobView| takes_cargo_slot(j.kind);
    assert forall|i: int| 0 <= i < running.len() implies !p(#[trigger] running[i]) by {
        assert(!takes_cargo_slot(running[i].kind));
    }
    running.lemma_all_neg_filter_empty(p);
    builds_need_the_slot(running);
}

/// Starting a build keeps the jobs consistent.
pub proof fn build_begun_is_consistent(v: JobsView, started: bool)
    requires
        consistent(v),
        can_start_build(v),
    ensures
        consistent(build_begun(v, started)),
{
    let name = v.queue[0];
    let after = build_begun(v, started);
    free_slot_is_not_held(v.running);
    push_keeps_jobs(v.running, JobView { name, kind: JobKind::Build });
    assert forall|n: Seq<char>| #[trigger]
        after.queue.contains(n) <==> v.queue.contains(n) && n != name by {
        if after.queue.contains(n) {
            let i = choose|i: int| 0 <= i < after.queue.len() && after.queue[i] == n;
            assert(v.queue[i + 1] == n);
        }
        if v.queue.contains(n) && n != name {
            let i = choose|i: int| 0 <= i < v.queue.len() && v.queue[i] == n;
            assert(after.queue[i - 1] == n);
        }
    }
    assert forall|n: Seq<char>| #[trigger]
        awaits_build(after.queue, after.running, n) implies after.status[n]
        != AppStatus::BuildFailed by {
        if n == name {
            assert(v.queue.contains(n));
        } else {
            assert(build_pending(v, n));
        }
    }
    assert forall|n: Seq<char>| #[trigger]
        concern(after.queue, after.running, n) is Some implies after.status.contains_key(n) by {
        if n != name {
            assert(concern(v.queue, v.running, n) is Some);
        }
    }
    assert forall|n: Seq<char>| #[trigger] after.status.contains_key(n) implies is_backed(
        after.queue,
        after.running,
        n,
        after.status[n],
    ) by {
        if n != name {
            assert(v.status.contains_key(n));
        }
    }
}

/// A job of that name has ended.
pub open spec fn has_ended(
    jobs: Seq<JobView>,
    exits: Seq<Option<Exit>>,
    name: Seq<char>,
) -> bool {
    exists|i: int| 0 <= i < jobs.len() && (#[trigger] jobs[i]).name == name && exits[i] is Some
}

/// A build of that name has ended.
spec fn build_has_ended(jobs: Seq<JobView>, exits: Seq<Option<Exit>>, name: Seq<char>) -> bool {
    exists|i: int|
        0 <= i < jobs.len() && (#[trigger] jobs[i]).name == name && jobs[i].kind == JobKind::Build
            && exits[i] is Some
}

/// A job of that name, a build or an app, has not ended.
spec fn goes_on(jobs: Seq<JobView>, exits: Seq<Option<Exit>>, name: Seq<char>, build: bool) -> bool {
    exists|i: int|
        0 <= i < jobs.len() && (#[trigger] jobs[i]).name == name && (jobs[i].kind
            == JobKind::Build) == build && exits[i] is None
}

/// What the unfinished jobs have to do with all of them.
proof fn unfinished_are_left(jobs: Seq<JobView>, exits: Seq<Option<Exit>>)
    requires
        jobs.len() == exits.len(),
    ensures
        slot_count(unfinished(jobs, exits)) <= slot_count(jobs),
        forall|n: Seq<char>, b: bool| #[trigger]
            has_job(unfinished(jobs, exits), n, b) ==> has_job(jobs, n, b) && goes_on(
                jobs,
                exits,
                n,
                b,
            ),
        forall|n: Seq<char>, b: bool| #[trigger]
            has_job(jobs, n, b) && !has_ended(jobs, exits, n) ==> has_job(
                unfinished(jobs, exits),
                n,
                b,
            ),
    decreases jobs.len(),
{
    if jobs.len() > 0 {
        let fj = jobs.drop_last();
        let fe = exits.drop_last();
        let last = jobs.last();
        unfinished_are_left(fj, fe);
        push_keeps_jobs(fj, last);
        push_keeps_jobs(unfinished(fj, fe), last);
        assert(jobs =~= fj.push(last));
        assert(jobs[jobs.len() - 1] == last && exits[jobs.len() - 1] == exits.last());
        assert forall|n: Seq<char>, b: bool| #[trigger]
            has_job(unfinished(jobs, exits), n, b) implies has_job(jobs, n, b) && goes_on(
            jobs,
            exits,
            n,
            b,
        ) by {
            if has_job(unfinished(fj, fe), n, b) {
                let i = choose|i: int|
                    0 <= i < fj.len() && (#[trigger] fj[i]).name == n && (fj[i].kind
                        == JobKind::Build) == b && fe[i] is None;
                assert(jobs[i] == fj[i] && exits[i] == fe[i]);
            }
        }
        assert forall|n: Seq<char>, b: bool| #[trigger]
            has_job(jobs, n, b) && !has_ended(jobs, exits, n) implies has_job(
            unfinished(jobs, exits),
            n,
            b,
        ) by {
            if has_ended(fj, fe, n) {
                let i = choose|i: int|
                    0 <= i < fj.len() && (#[trigger] fj[i]).name == n && fe[i] is Some;
                assert(jobs[i].name == n && exits[i] is Some);
            }
            assert(jobs[jobs.len() - 1] == last && exits[jobs.len() - 1] == exits.last());
        }
    }
}

/// What `reap` makes of the statuses: that of an app none of whose jobs ended
/// stays; that of the others is what still concerns the app, unless a failed
/// build is marked.
proof fn reap_follows(
    start: Reaped,
    jobs: Seq<JobView>,
    exits: Seq<Option<Exit>>,
    queue: Seq<Seq<char>>,
    left: Seq<JobView>,
)
    requires
        jobs.len() == exits.len(),
    ensures
        forall|n: Seq<char>| #[trigger]
            has_ended(jobs, exits, n) ==> {
                let after = reap(start, jobs, exits, queue, left).status;
                ||| after.contains_key(n) && after[n] == AppStatus::BuildFailed
                    && build_has_ended(jobs, exits, n)
                ||| after.contains_key(n) && concern(queue, left, n) == Some(after[n])
                ||| !after.contains_key(n) && concern(queue, left, n) is None
            },
        forall|n: Seq<char>|
            !#[trigger] has_ended(jobs, exits, n) ==> {
                let after = reap(start, jobs, exits, queue, left).status;
                &&& after.contains_key(n) <==> start.status.contains_key(n)
                &&& after.contains_key(n) ==> after[n] == start.status[n]
            },
    decreases jobs.len(),
{
    if jobs.len() > 0 {
        let fj = jobs.drop_last();
        let fe = exits.drop_last();
        let end = jobs.len() - 1;
        reap_follows(start, fj, fe, queue, left);
        assert(jobs[end] == jobs.last() && exits[end] == exits.last());
        assert forall|n: Seq<char>| #[trigger]
            build_has_ended(fj, fe, n) implies build_has_ended(jobs, exits, n) by {
            let i = choose|i: int|
                0 <= i < fj.len() && (#[trigger] fj[i]).name == n && fj[i].kind == JobKind::Build
                    && fe[i] is Some;
            assert(jobs[i] == fj[i] && exits[i] == fe[i]);
        }
        assert forall|n: Seq<char>| #[trigger]
            has_ended(jobs, exits, n) <==> has_ended(fj, fe, n) || (jobs.last().name == n
                && exits.last() is Some) by {
            if has_ended(fj, fe, n) {
                let i = choose|i: int|
                    0 <= i < fj.len() && (#[trigger] fj[i]).name == n && fe[i] is Some;
                assert(jobs[i].name == n && exits[i] is Some);
            }
            if has_ended(jobs, exits, n) {
                let i = choose|i: int|
                    0 <= i < jobs.len() && (#[trigger] jobs[i]).name == n && exits[i] is Some;
                if i < end {
                    assert(fj[i].name == n && fe[i] is Some);
                }
            }
        }
    }
}

/// Looking after the jobs keeps them consistent.
pub proof fn pumped_is_consistent(v: JobsView, exits: Seq<Option<Exit>>, log: Seq<Seq<char>>)
    requires
        consistent(v),
        exits.len() == v.running.len(),
    ensures
        consistent(pumped(v, exits, log)),
{
    let after = pumped(v, exits, log);
    unfinished_are_left(v.running, exits);
    reap_follows(reap_start(v, log), v.running, exits, v.queue, after.running);
    assert forall|n: Seq<char>| #[trigger] after.queue.contains(n) implies !has_job(
        after.running,
        n,
        true,
    ) by {
        assert(!has_job(v.running, n, true));
    }
    assert forall|n: Seq<char>| #[trigger] after.status.contains_key(n) implies is_backed(
        after.queue,
        after.running,
        n,
        after.status[n],
    ) by {
        if !has_ended(v.running, exits, n) {
            assert(v.status.contains_key(n));
            assert(has_job(v.running, n, true) ==> has_job(after.running, n, true));
            assert(has_job(v.running, n, false) ==> has_job(after.running, n, false));
        }
    }
    assert forall|n: Seq<char>| #[trigger]
        concern(after.queue, after.running, n) is Some implies after.status.contains_key(n) by {
        if !has_ended(v.running, exits, n) {
            assert(has_job(after.running, n, true) ==> has_job(v.running, n, true));
            assert(has_job(after.running, n, false) ==> has_job(v.running, n, false));
            assert(concern(v.queue, v.running, n) is Some);
        }
    }
    assert forall|n: Seq<char>| #[trigger]
        awaits_build(after.queue, after.running, n) implies after.status[n]
        != AppStatus::BuildFailed by {
        assert(has_job(after.running, n, true) ==> has_job(v.running, n, true));
        assert(build_pending(v, n));
        assert(concern(after.queue, after.running, n) is Some);
        assert(after.status.contains_key(n));
        if !has_ended(v.running, exits, n) {
            assert(after.status[n] == v.status[n]);
        } else if build_has_ended(v.running, exits, n) {
            let i = choose|i: int|
                0 <= i < v.running.len() && (#[trigger] v.running[i]).name == n
                    && v.running[i].kind == JobKind::Build && exits[i] is Some;
            assert(has_job(v.running, n, true));
            assert(!v.queue.contains(n));
            assert(goes_on(v.running, exits, n, true));
            let j = choose|j: int|
                0 <= j < v.running.len() && (#[trigger] v.running[j]).name == n && (
                v.running[j].kind == JobKind::Build) == true && exits[j] is None;
            if i < j {
                two_holders(v.running, i, j);
            } else {
                two_holders(v.running, j, i);
            }
        }
    }
}

/// What is left without the builds: no build, and every run.
proof fn without_builds_are_the_runs(jobs: Seq<JobView>)
    ensures
        slot_count(without_builds(jobs)) <= slot_count(jobs),
        forall|n: Seq<char>, b: bool| #[trigger]
            has_job(without_builds(jobs), n, b) <==> has_job(jobs, n, b) && !b,
    decreases jobs.len(),
{
    let keep = |j: JobView| j.kind != JobKind::Build;
    reveal(Seq::filter);
    if jobs.len() > 0 {
        let front = jobs.drop_last();
        let last = jobs.last();
        without_builds_are_the_runs(front);
        assert(jobs =~= front.push(last));
        front.lemma_filter_push(last, keep);
        push_keeps_jobs(front, last);
        push_keeps_jobs(without_builds(front), last);
    }
}

/// Canceling keeps the jobs consistent. Afterwards no build runs, none is
/// queued and no app waits for one, while every app that ran goes on running.
/// The status of an app without a build to cancel stays, and an app that runs
/// says so, unless it bears the mark of a failed build.
pub proof fn canceling_stops_all_builds(v: JobsView)
    requires
        consistent(v),
    ensures
        consistent(canceled(v)),
        build_count(canceled(v).running) == 0,
        canceled(v).queue.len() == 0,
        forall|n: Seq<char>| !#[trigger] build_pending(canceled(v), n),
        forall|i: int|
            0 <= i < v.running.len() && v.running[i].kind != JobKind::Build ==> canceled(
                v,
            ).running.contains(#[trigger] v.running[i]),
        forall|j: JobView| #[trigger] canceled(v).running.contains(j) ==> v.running.contains(j),
        forall|n: Seq<char>| #[trigger]
            has_job(v.running, n, false) ==> has_job(canceled(v).running, n, false),
        forall|n: Seq<char>| #[trigger]
            has_job(canceled(v).running, n, false) ==> canceled(v).status.contains_key(n)
                && canceled(v).status[n] == if v.status[n] == AppStatus::BuildFailed {
                AppStatus::BuildFailed
            } else {
                AppStatus::Running
            },
        forall|n: Seq<char>|
            !#[trigger] build_pending(v, n) ==> (canceled(v).status.contains_key(n)
                <==> v.status.contains_key(n)),
        forall|n: Seq<char>|
            !#[trigger] build_pending(v, n) && v.status.contains_key(n) ==> canceled(v).status[n]
                == v.status[n],
{
    let after = canceled(v);
    let keep = |j: JobView| j.kind != JobKind::Build;
    let build = |j: JobView| j.kind == JobKind::Build;
    without_builds_are_the_runs(v.running);
    assert forall|i: int| 0 <= i < after.running.len() implies !build(
        #[trigger] after.running[i],
    ) by {
        v.running.lemma_filter_pred(keep, i);
    }
    after.running.lemma_all_neg_filter_empty(build);
    assert forall|i: int|
        0 <= i < v.running.len() && v.running[i].kind
            != JobKind::Build implies after.running.contains(#[trigger] v.running[i]) by {
        v.running.lemma_filter_contains(keep, i);
    }
    assert forall|j: JobView| #[trigger] after.running.contains(j) implies v.running.contains(
        j,
    ) by {
        v.running.lemma_filter_contains_rev(keep, j);
    }
    assert forall|n: Seq<char>| !#[trigger] build_pending(after, n) by {
        assert(!has_job(after.running, n, true));
    }
    assert forall|n: Seq<char>| #[trigger]
        concern(after.queue, after.running, n) is Some implies after.status.contains_key(n) by {
        assert(!has_job(after.running, n, true));
    }
    assert forall|n: Seq<char>| #[trigger] has_job(after.running, n, false) implies {
        &&& after.status.contains_key(n)
        &&& v.status.contains_key(n)
    } by {
        assert(concern(v.queue, v.running, n) is Some);
    }
    assert forall|n: Seq<char>| !#[trigger] build_pending(v, n) implies {
        &&& after.status.contains_key(n) <==> v.status.contains_key(n)
        &&& v.status.contains_key(n) ==> after.status[n] == v.status[n]
    } by {
        if has_job(v.running, n, false) {
            assert(has_job(after.running, n, false));
        }
    }
}

/// Is a job of that name running, a build or an app?
fn has_live(running: &Vec<Job>, name: &str, build: bool) -> (r: bool)
    ensures
        r == has_job(job_views(running@), name@, build),
{
    let ghost views = job_views(running@);
    let mut i: usize = 0;
    while i < running.len()
        invariant
            views == job_views(running@),
            i <= running@.len(),
            forall|j: int|
                0 <= j < i ==> !((#[trigger] views[j]).name == name@ && (views[j].kind
                    == JobKind::Build) == build),
        decreases running@.len() - i,
    {
        assert(views[i as int] == running@[i as int]@);
        if same_text(running[i].name.as_str(), name) && running[i].is_build() == build {
            return true;
        }
        i = i + 1;
    }
    false
}

/// Does the app stand in the queue?
fn is_queued(queue: &VecDeque<String>, name: &str) -> (r: bool)
    ensures
        r == texts(queue@).contains(name@),
{
    let mut i: usize = 0;
    while i < queue.len()
        invariant
            i <= queue@.len(),
            forall|j: int| 0 <= j < i ==> #[trigger] texts(queue@)[j] != name@,
        decreases queue@.len() - i,
    {
        if same_text(queue[i].as_str(), name) {
            assert(texts(queue@)[i as int] == name@);
            return true;
        }
        i = i + 1;
    }
    false
}

/// Lets the status of an app fall back to what still concerns it.
fn fall_back(
    status: &mut TextMap<AppStatus>,
    queue: &VecDeque<String>,
    left: &Vec<Job>,
    name: &str,
)
    requires
        old(status).wf(),
    ensures
        final(status).wf(),
        final(status)@ == fallen_back(old(status)@, texts(queue@), job_views(left@), name@),
{
    if has_live(left, name, true) {
        status.insert(name.to_owned(), AppStatus::Building);
    } else if is_queued(queue, name) {
        status.insert(name.to_owned(), AppStatus::Queued);
    } else if has_live(left, name, false) {
        status.insert(name.to_owned(), AppStatus::Running);
    } else {
        status.remove(name);
    }
}

/// The statuses once no build is queued or under way and `left` still run.
fn drop_pending(status: &TextMap<AppStatus>, left: &Vec<Job>) -> (r: TextMap<AppStatus>)
    requires
        status.wf(),
        forall|n: Seq<char>| #[trigger]
            has_job(job_views(left@), n, false) ==> status@.contains_key(n),
    ensures
        r.wf(),
        r@ == unqueued(status@, job_views(left@)),
{
    let mut out: TextMap<AppStatus> = TextMap::new();
    let ghost keys = status.keys();
    let ghost wanted = unqueued(status@, job_views(left@));
    let mut i: usize = 0;
    proof {
        status.keys_are_the_domain();
    }
    while i < status.len()
        invariant
            status.wf(),
            out.wf(),
            keys == status.keys(),
            wanted == unqueued(status@, job_views(left@)),
            i <= keys.len(),
            forall|n: Seq<char>| #[trigger]
                out@.contains_key(n) <==> wanted.contains_key(n) && keys.take(i as int).contains(n),
            forall|n: Seq<char>| #[trigger] out@.contains_key(n) ==> out@[n] == wanted[n],
        decreases keys.len() - i,
    {
        let s: AppStatus = *status.value_at(i);
        let ghost key = keys[i as int];
        let failed = match s {
            AppStatus::BuildFailed => true,
            _ => false,
        };
        proof {
            assert(keys.take(i + 1) =~= keys.take(i as int).push(key));
            push_keeps(keys.take(i as int), key);
        }
        if failed {
            out.insert(status.key_at(i).clone(), AppStatus::BuildFailed);
        } else if has_live(left, status.key_at(i).as_str(), false) {
            out.insert(status.key_at(i).clone(), AppStatus::Running);
        }
        i = i + 1;
    }
    proof {
        assert(keys.take(i as int) =~= keys);
        assert forall|n: Seq<char>| #[trigger] out@.contains_key(n) <==> wanted.contains_key(n) by {
            if wanted.contains_key(n) {
                assert(status@.contains_key(n));
                assert(keys.contains(n));
            }
        }
        assert(out@ =~= wanted);
    }
    out
}

/// The jobs that have not ended.
fn jobs_left(running: &Vec<Job>, exits: &Vec<Option<Exit>>) -> (r: Vec<Job>)
    requires
        running@.len() == exits@.len(),
    ensures
        job_views(r@) == unfinished(job_views(running@), exits@),
{
    let ghost was = job_views(running@);
    let mut still: Vec<Job> = Vec::new();
    let mut i: usize = 0;
    assert(job_views(still@) =~= unfinished(was.take(0), exits@.take(0)));
    while i < running.len()
        invariant
            was == job_views(running@),
            exits@.len() == was.len(),
            i <= was.len(),
            job_views(still@) == unfinished(was.take(i as int), exits@.take(i as int)),
        decreases was.len() - i,
    {
        let ghost kept = still@;
        proof {
            assert(was.take(i + 1).drop_last() =~= was.take(i as int));
            assert(exits@.take(i + 1).drop_last() =~= exits@.take(i as int));
        }
        if exits[i].is_none() {
            still.push(Job { name: running[i].name.clone(), kind: running[i].kind });
            assert(job_views(still@) =~= job_views(kept).push(was[i as int]));
        }
        i = i + 1;
    }
    assert(was.take(i as int) =~= was);
    assert(exits@.take(i as int) =~= exits@);
    still
}

impl Jobs {
    /// The jobs are consistent, and the status map holds each app once.
    pub open spec fn wf(&self) -> bool {
        &&& self.status.wf()
        &&& consistent(self@)
    }

    /// No jobs, for the workspace at `root`.
    pub fn new(root: PathBuf) -> (r: Self)
        ensures
            r.wf(),
            r@ == (JobsView {
                root,
                console_visible: false,
                console_scroll: 0,
                queue: Seq::empty(),
                waiting: Seq::empty(),
                running: Seq::empty(),
                status: Map::empty(),
            }),
    {
        let r = Jobs {
            root,
            console_visible: false,
            console_scroll: 0,
            queue: VecDeque::new(),
            waiting: VecDeque::new(),
            running: Vec::new(),
            status: TextMap::new(),
        };
        proof {
            assert(r@.queue =~= Seq::<Seq<char>>::empty());
            assert(r@.waiting =~= Seq::<WaitingView>::empty());
            assert(r@.running =~= Seq::<JobView>::empty());
            reveal(Seq::filter);
        }
        r
    }

    /// What is going on with an app.
    pub fn status_of(&self, name: &str) -> (r: Option<&AppStatus>)
        requires
            self.wf(),
        ensures
            r is Some <==> self@.status.contains_key(name@),
            r matches Some(s) ==> *s == self@.status[name@],
    {
        self.status.get(name)
    }

    /// (building, queued) counts for the footer summary.
    pub fn counts(&self) -> (r: (usize, usize))
        ensures
            r.0 == build_count(self@.running),
            r.1 == self@.queue.len(),
    {
        let ghost p = |j: JobView| j.kind == JobKind::Build;
        let mut building: usize = 0;
        let mut i: usize = 0;
        proof {
            reveal(Seq::filter);
            assert(self@.running.take(0) =~= Seq::<JobView>::empty());
        }
        while i < self.running.len()
            invariant
                p == (|j: JobView| j.kind == JobKind::Build),
                i <= self.running@.len(),
                building <= i,
                building == self@.running.take(i as int).filter(p).len(),
            decreases self.running@.len() - i,
        {
            proof {
                assert(self@.running.take(i + 1) =~= self@.running.take(i as int).push(
                    self@.running[i as int],
                ));
                self@.running.take(i as int).lemma_filter_push(self@.running[i as int], p);
            }
            if self.running[i].is_build() {
                building = building + 1;
            }
            i = i + 1;
        }
        assert(self@.running.take(i as int) =~= self@.running);
        (building, self.queue.len())
    }

    /// Is anything queued, waiting or running?
    pub fn is_busy(&self) -> (r: bool)
        ensures
            r == (self@.queue.len() > 0 || self@.waiting.len() > 0 || self@.running.len() > 0),
            r == is_working(self@),
    {
        self.queue.len() > 0 || self.waiting.len() > 0 || self.running.len() > 0
    }

    /// Does a running job hold the cargo slot?
    pub fn cargo_active(&self) -> (r: bool)
        ensures
            r == slot_taken(self@.running),
    {
        let mut i: usize = 0;
        while i < self.running.len()
            invariant
                i <= self.running@.len(),
                forall|j: int|
                    0 <= j < i ==> !takes_cargo_slot((#[trigger] self@.running[j]).kind),
            decreases self.running@.len() - i,
        {
            if self.running[i].is_cargo() {
                assert(takes_cargo_slot(self@.running[i as int].kind));
                return true;
            }
            i = i + 1;
        }
        false
    }

    /// Queue a dev build unless the app is already queued or building.
    pub fn enqueue_build(&mut self, name: &str)
        requires
            old(self).wf(),
        ensures
            final(self).wf(),
            final(self)@ == enqueued(old(self)@, name@),
    {
        proof {
            enqueued_is_consistent(self@, name@);
        }
        let active = is_queued(&self.queue, name) || has_live(&self.running, name, true);
        if !active {
            self.queue.push_back(name.to_owned());
            self.status.insert(name.to_owned(), AppStatus::Queued);
            assert(self@.queue =~= old(self)@.queue.push(name@));
        }
    }

    /// Takes note that a windowed app was launched in the background, or why
    /// it could not be. A `cargo run` takes the cargo slot, which has to be
    /// free.
    pub fn spawn_run(
        &mut self,
        name: &str,
        cargo: bool,
        error: Option<String>,
        log: &mut Vec<String>,
    )
        requires
            old(self).wf(),
            cargo ==> !slot_taken(old(self)@.running),
        ensures
            final(self).wf(),
            error is None ==> final(self)@ == run_started(old(self)@, name@, cargo) && texts(
                final(log)@,
            ) == logged(texts(old(log)@), tagged(name@, "launched"@)),
            error matches Some(e) ==> final(self)@ == old(self)@ && texts(final(log)@) == logged(
                texts(old(log)@),
                tagged(name@, "failed to launch: "@ + e@),
            ),
            texts(final(log)@) == logged(texts(old(log)@), launch_line(name@, error)),
    {
        match error {
            None => {
                proof {
                    run_started_is_consistent(self@, name@, cargo);
                }
                self.status.insert(name.to_owned(), AppStatus::Running);
                self.running.push(Job { name: name.to_owned(), kind: JobKind::Run { cargo } });
                self.console_visible = true;
                self.console_scroll = 0;
                push_line(log, tag_line(name, "launched"));
                assert(self@.running =~= old(self)@.running.push(
                    JobView { name: name@, kind: JobKind::Run { cargo } },
                ));
            },
            Some(e) => {
                let mut text: String = "failed to launch: ".to_owned();
                text.append(e.as_str());
                push_line(log, tag_line(name, text.as_str()));
            },
        }
    }

    /// Shows the console, or hides it.
    pub fn toggle_console(&mut self)
        requires
            old(self).wf(),
        ensures
            final(self).wf(),
            final(self)@ == (JobsView { console_visible: !old(self)@.console_visible, ..old(self)@ }),
    {
        self.console_visible = !self.console_visible;
    }

    /// Scrolls the console up by `delta` lines.
    pub fn scroll(&mut self, delta: i32)
        requires
            old(self).wf(),
        ensures
            final(self).wf(),
            final(self)@ == (JobsView {
                console_scroll: scrolled(old(self)@.console_scroll, delta as int),
                ..old(self)@
            }),
    {
        let moved: i64 = self.console_scroll as i64 + delta as i64;
        self.console_scroll = if moved < 0 {
            0
        } else if moved > 65535 {
            65535
        } else {
            moved as u16
        };
    }

    /// Cancels the builds and drops the queue; leaves running apps alone. The
    /// processes of the builds, whose positions are returned, are to be killed.
    pub fn cancel_builds(&mut self, log: &mut Vec<String>) -> (r: Vec<usize>)
        requires
            old(self).wf(),
        ensures
            final(self).wf(),
            final(self)@ == canceled(old(self)@),
            texts(final(log)@) == cancellations_logged(texts(old(log)@), old(self)@.running),
            r@ == builds_at(old(self)@.running),
    {
        proof {
            canceling_stops_all_builds(self@);
        }
        let ghost was = self@.running;
        let ghost lines = texts(log@);
        let ghost p = |j: JobView| j.kind != JobKind::Build;
        self.queue.clear();
        let mut keep: Vec<Job> = Vec::new();
        let mut killed: Vec<usize> = Vec::new();
        let mut i: usize = 0;
        proof {
            reveal(Seq::filter);
            assert(was.take(0) =~= Seq::<JobView>::empty());
            assert(job_views(keep@) =~= was.take(0).filter(p));
        }
        while i < self.running.len()
            invariant
                p == (|j: JobView| j.kind != JobKind::Build),
                was == job_views(self.running@),
                self.root == old(self).root,
                self.console_visible == old(self).console_visible,
                self.console_scroll == old(self).console_scroll,
                self.queue@.len() == 0,
                self.waiting == old(self).waiting,
                self.status == old(self).status,
                i <= was.len(),
                job_views(keep@) == was.take(i as int).filter(p),
                texts(log@) == cancellations_logged(lines, was.take(i as int)),
                killed@ == builds_at(was.take(i as int)),
            decreases was.len() - i,
        {
            let ghost next = was.take(i + 1);
            let ghost kept = keep@;
            proof {
                assert(next =~= was.take(i as int).push(was[i as int]));
                assert(next.drop_last() =~= was.take(i as int));
                was.take(i as int).lemma_filter_push(was[i as int], p);
            }
            let name: String = self.running[i].name.clone();
            let kind: JobKind = self.running[i].kind;
            if self.running[i].is_build() {
                push_line(log, tag_line(name.as_str(), "build canceled"));
                killed.push(i);
            } else {
                keep.push(Job { name, kind });
                assert(job_views(keep@) =~= job_views(kept).push(was[i as int]));
            }
            i = i + 1;
        }
        proof {
            assert(was.take(i as int) =~= was);
            without_builds_are_the_runs(was);
            assert forall|n: Seq<char>| #[trigger]
                has_job(job_views(keep@), n, false) implies self.status@.contains_key(n) by {
                assert(concern(old(self)@.queue, was, n) is Some);
            }
        }
        self.status = drop_pending(&self.status, &keep);
        self.running = keep;
        assert(self@.queue =~= Seq::<Seq<char>>::empty());
        killed
    }

    /// Forgets everything on shutdown. The processes of the jobs that are
    /// returned are to be killed, so that no child outlives the launcher.
    pub fn kill_all(&mut self) -> (r: Vec<Job>)
        requires
            old(self).wf(),
        ensures
            final(self).wf(),
            final(self)@ == shut_down(old(self)@),
            r@ == old(self).running@,
    {
        self.queue.clear();
        self.waiting.clear();
        let mut stopped: Vec<Job> = Vec::new();
        std::mem::swap(&mut stopped, &mut self.running);
        self.status = TextMap::new();
        proof {
            assert(self@.queue =~= Seq::<Seq<char>>::empty());
            assert(self@.waiting =~= Seq::<WaitingView>::empty());
            assert(self@.running =~= Seq::<JobView>::empty());
            reveal(Seq::filter);
        }
        stopped
    }

    /// Takes note of finished jobs; `exits` tells for each running job how it
    /// ended, if it did. Returns any builds that just finished so the caller
    /// can refresh.
    pub fn pump(&mut self, exits: &Vec<Option<Exit>>, log: &mut Vec<String>) -> (done: Vec<BuildDone>)
        requires
            old(self).wf(),
            exits@.len() == old(self)@.running.len(),
        ensures
            final(self).wf(),
            final(self)@ == pumped(old(self)@, exits@, texts(old(log)@)),
            texts(final(log)@) == reaped(old(self)@, exits@, texts(old(log)@)).log,
            done_views(done@) == reaped(old(self)@, exits@, texts(old(log)@)).done,
    {
        let ghost was = self@.running;
        let ghost queue = self@.queue;
        let ghost left = unfinished(was, exits@);
        let ghost start = reap_start(self@, texts(log@));
        proof {
            pumped_is_consistent(self@, exits@, texts(log@));
        }
        let still = jobs_left(&self.running, exits);
        let mut done: Vec<BuildDone> = Vec::new();
        let mut i: usize = 0;
        proof {
            assert(was.take(0) =~= Seq::<JobView>::empty());
            assert(done_views(done@) =~= start.done);
        }
        while i < self.running.len()
            invariant
                was == job_views(self.running@),
                left == job_views(still@),
                queue == texts(self.queue@),
                exits@.len() == was.len(),
                self.root == old(self).root,
                self.console_scroll == old(self).console_scroll,
                self.queue == old(self).queue,
                self.waiting == old(self).waiting,
                self.status.wf(),
                i <= was.len(),
                ({
                    let r = reap(start, was.take(i as int), exits@.take(i as int), queue, left);
                    &&& self.status@ == r.status
                    &&& self.console_visible == r.console_visible
                    &&& done_views(done@) == r.done
                    &&& texts(log@) == r.log
                }),
            decreases was.len() - i,
        {
            let ghost reported = done@;
            proof {
                assert(was.take(i + 1).drop_last() =~= was.take(i as int));
                assert(exits@.take(i + 1).drop_last() =~= exits@.take(i as int));
            }
            let name: String = self.running[i].name.clone();
            let kind: JobKind = self.running[i].kind;
            match &exits[i] {
                Some(exit) => {
                    match kind {
                        JobKind::Build => {
                            if exit.success {
                                push_line(log, tag_line(name.as_str(), "build OK"));
                                fall_back(&mut self.status, &self.queue, &still, name.as_str());
                            } else {
                                push_line(log, tag_line(name.as_str(), "build FAILED"));
                                self.status.insert(name.clone(), AppStatus::BuildFailed);
                                self.console_visible = true;
                            }
                            done.push(BuildDone { name, success: exit.success });
                            assert(done_views(done@) =~= done_views(reported).push(
                                DoneView { name: was[i as int].name, success: exit.success },
                            ));
                        },
                        JobKind::Run { .. } => {
                            let mut text: String = "exited (".to_owned();
                            text.append(exit.text.as_str());
                            text.append(")");
                            push_line(log, tag_line(name.as_str(), text.as_str()));
                            fall_back(&mut self.status, &self.queue, &still, name.as_str());
                        },
                    }
                },
                None => {},
            }
            i = i + 1;
        }
        proof {
            assert(was.take(i as int) =~= was);
            assert(exits@.take(i as int) =~= exits@);
        }
        self.running = still;
        done
    }

    /// Lets the `cargo run` of a windowed app wait for the cargo slot.
    pub fn wait_for_slot(&mut self, run: Waiting)
        requires
            old(self).wf(),
        ensures
            final(self).wf(),
            final(self)@ == run_waits(old(self)@, run@),
    {
        self.waiting.push_back(run);
        assert(self@.waiting =~= old(self)@.waiting.push(run@));
    }

    /// Hands out the run that has waited longest, if the cargo slot is free.
    pub fn next_run(&mut self) -> (r: Option<Waiting>)
        requires
            old(self).wf(),
        ensures
            final(self).wf(),
            final(self)@ == run_taken(old(self)@),
            r is Some <==> can_start_run(old(self)@),
            r matches Some(w) ==> w@ == old(self)@.waiting[0],
    {
        if self.waiting.len() > 0 && !self.cargo_active() {
            let r = self.waiting.pop_front();
            assert(self@.waiting =~= old(self)@.waiting.drop_first());
            r
        } else {
            None
        }
    }

    /// The command for the next queued build, if the cargo slot is free and no
    /// run waits for it.
    pub fn next_build(&self) -> (r: Option<CommandLine>)
        ensures
            r is Some <==> can_start_build(self@),
            r matches Some(c) ==> c@ == build_command_view(self.root, self@.queue[0]),
    {
        if self.queue.len() > 0 && self.waiting.len() == 0 && !self.cargo_active() {
            Some(build_command(&self.root, self.queue[0].as_str()))
        } else {
            None
        }
    }

    /// Takes note that the next queued build was started, or why it could not
    /// be.
    pub fn build_spawned(&mut self, error: Option<String>, log: &mut Vec<String>)
        requires
            old(self).wf(),
            can_start_build(old(self)@),
        ensures
            final(self).wf(),
            final(self)@ == build_begun(old(self)@, error is None),
            error is None ==> texts(final(log)@) == logged(
                texts(old(log)@),
                tagged(old(self)@.queue[0], "building…"@),
            ),
            error matches Some(e) ==> texts(final(log)@) == logged(
                texts(old(log)@),
                tagged(old(self)@.queue[0], "failed to start build: "@ + e@),
            ),
            texts(final(log)@) == logged(
                texts(old(log)@),
                build_line(old(self)@.queue[0], error),
            ),
    {
        proof {
            build_begun_is_consistent(self@, error is None);
        }
        match self.queue.pop_front() {
            Some(name) => {
                assert(self@.queue =~= old(self)@.queue.drop_first());
                assert(name@ == old(self)@.queue[0]);
                match error {
                    None => {
                        self.status.insert(name.clone(), AppStatus::Building);
                        push_line(log, tag_line(name.as_str(), "building…"));
                        self.running.push(Job { name, kind: JobKind::Build });
                        assert(self@.running =~= old(self)@.running.push(
                            JobView { name: old(self)@.queue[0], kind: JobKind::Build },
                        ));
                    },
                    Some(e) => {
                        let mut text: String = "failed to start build: ".to_owned();
                        text.append(e.as_str());
                        push_line(log, tag_line(name.as_str(), text.as_str()));
                        self.status.insert(name, AppStatus::BuildFailed);
                        self.console_visible = true;
                    },
                }
            },
            None => {},
        }
    }
}

/// The builds that have ended, in their order.
pub open spec fn finished_builds(jobs: Seq<JobView>, exits: Seq<Option<Exit>>) -> Seq<DoneView>
    decreases jobs.len(),
{
    if jobs.len() == 0 {
        Seq::empty()
    } else {
        let front = finished_builds(jobs.drop_last(), exits.drop_last());
        if exits.last() is Some && jobs.last().kind == JobKind::Build {
            front.push(DoneView { name: jobs.last().name, success: exits.last()->0.success })
        } else {
            front
        }
    }
}

/// What `reap` reports, and when it brings up the console.
proof fn reap_sorts_out(
    start: Reaped,
    jobs: Seq<JobView>,
    exits: Seq<Option<Exit>>,
    queue: Seq<Seq<char>>,
    left: Seq<JobView>,
)
    requires
        jobs.len() == exits.len(),
        start.done.len() == 0,
    ensures
        reap(start, jobs, exits, queue, left).done == finished_builds(jobs, exits),
        reap(start, jobs, exits, queue, left).console_visible == (start.console_visible
            || exists|i: int|
            0 <= i < jobs.len() && (#[trigger] jobs[i]).kind == JobKind::Build && exits[i] is Some
                && !exits[i]->0.success),
    decreases jobs.len(),
{
    if jobs.len() == 0 {
        assert(start.done =~= Seq::<DoneView>::empty());
    } else {
        let fj = jobs.drop_last();
        let fe = exits.drop_last();
        reap_sorts_out(start, fj, fe, queue, left);
        let last = jobs.len() - 1;
        assert(jobs[last] == jobs.last() && exits[last] == exits.last());
        if exists|i: int|
            0 <= i < fj.len() && (#[trigger] fj[i]).kind == JobKind::Build && fe[i] is Some
                && !fe[i]->0.success {
            let i = choose|i: int|
                0 <= i < fj.len() && (#[trigger] fj[i]).kind == JobKind::Build && fe[i] is Some
                    && !fe[i]->0.success;
            assert(jobs[i] == fj[i] && exits[i] == fe[i]);
        }
        if exists|i: int|
            0 <= i < jobs.len() && (#[trigger] jobs[i]).kind == JobKind::Build && exits[i] is Some
                && !exits[i]->0.success {
            let i = choose|i: int|
                0 <= i < jobs.len() && (#[trigger] jobs[i]).kind == JobKind::Build
                    && exits[i] is Some && !exits[i]->0.success;
            if i < last {
                assert(jobs[i] == fj[i] && exits[i] == fe[i]);
            }
        }
    }
}

/// Looking after the jobs keeps exactly those that have not ended, reports
/// exactly the builds that have, and brings up the console if one failed (and
/// never hides it). The app of a finished job is left with a mark for a failed
/// build or with what still concerns it; the status of the others stays.
pub proof fn pump_sorts_out_the_jobs(v: JobsView, exits: Seq<Option<Exit>>, log: Seq<Seq<char>>)
    requires
        exits.len() == v.running.len(),
    ensures
        pumped(v, exits, log).running == unfinished(v.running, exits),
        reaped(v, exits, log).done == finished_builds(v.running, exits),
        pumped(v, exits, log).console_visible == (v.console_visible || exists|i: int|
            0 <= i < v.running.len() && (#[trigger] v.running[i]).kind == JobKind::Build
                && exits[i] is Some && !exits[i]->0.success),
        forall|n: Seq<char>| #[trigger]
            has_ended(v.running, exits, n) ==> {
                let after = pumped(v, exits, log);
                ||| after.status.contains_key(n) && after.status[n] == AppStatus::BuildFailed
                ||| after.status.contains_key(n) && concern(after.queue, after.running, n) == Some(
                    after.status[n],
                )
                ||| !after.status.contains_key(n) && concern(after.queue, after.running, n) is None
            },
        forall|n: Seq<char>|
            !#[trigger] has_ended(v.running, exits, n) ==> {
                let after = pumped(v, exits, log);
                &&& after.status.contains_key(n) <==> v.status.contains_key(n)
                &&& after.status.contains_key(n) ==> after.status[n] == v.status[n]
            },
{
    let left = unfinished(v.running, exits);
    reap_sorts_out(reap_start(v, log), v.running, exits, v.queue, left);
    reap_follows(reap_start(v, log), v.running, exits, v.queue, left);
}

/// Once everything is shut down, nothing runs, waits or is marked.
pub proof fn shutdown_leaves_nothing(v: JobsView)
    ensures
        shut_down(v).running.len() == 0,
        shut_down(v).queue.len() == 0,
        shut_down(v).waiting.len() == 0,
        forall|n: Seq<char>| !#[trigger] shut_down(v).status.contains_key(n),
        consistent(shut_down(v)),
{
    reveal(Seq::filter);
}

/// No app waits for two builds: asking for a build of an app that waits for
/// one, or is being built, changes nothing, whatever was launched in between.
pub proof fn a_build_is_queued_once(v: JobsView, name: Seq<char>, launched: Seq<char>, cargo: bool)
    requires
        consistent(v),
    ensures
        build_pending(enqueued(v, name), name),
        enqueued(v, name).queue.no_duplicates(),
        build_pending(v, name) ==> enqueued(v, name) == v,
        enqueued(enqueued(v, name), name) == enqueued(v, name),
        enqueued(run_started(enqueued(v, name), launched, cargo), name) == run_started(
            enqueued(v, name),
            launched,
            cargo,
        ),
{
    enqueued_is_consistent(v, name);
    push_keeps(v.queue, name);
    push_keeps_jobs(v.running, JobView { name: launched, kind: JobKind::Run { cargo } });
}

/// Asking for a build keeps every app waiting that did.
pub proof fn asking_keeps_what_is_pending(v: JobsView, name: Seq<char>, other: Seq<char>)
    ensures
        build_pending(enqueued(v, name), name),
        build_pending(v, other) ==> build_pending(enqueued(v, name), other),
{
    push_keeps(v.queue, name);
}

/// At most one build runs, and none beside a `cargo run`.
pub proof fn cargo_commands_are_serialized(v: JobsView)
    requires
        consistent(v),
    ensures
        build_count(v.running) <= 1,
        forall|i: int, j: int|
            #![trigger v.running[i], v.running[j]]
            0 <= i < j < v.running.len() ==> !(takes_cargo_slot(v.running[i].kind)
                && takes_cargo_slot(v.running[j].kind)),
{
    builds_need_the_slot(v.running);
    assert forall|i: int, j: int|
        #![trigger v.running[i], v.running[j]]
        0 <= i < j < v.running.len() implies !(takes_cargo_slot(v.running[i].kind)
        && takes_cargo_slot(v.running[j].kind)) by {
        if takes_cargo_slot(v.running[i].kind) && takes_cargo_slot(v.running[j].kind) {
            two_holders(v.running, i, j);
        }
    }
}

/// A `cargo run` starts alone: while a build runs, or another `cargo run`, none
/// is handed out, and once it runs it is the only cargo command.
pub proof fn a_cargo_run_starts_alone(v: JobsView, name: Seq<char>)
    requires
        consistent(v),
    ensures
        slot_taken(v.running) ==> !can_start_run(v) && run_taken(v) == v,
        build_count(v.running) > 0 ==> !can_start_run(v),
        can_start_run(v) ==> slot_count(run_started(v, name, true).running) == 1 && build_count(
            run_started(v, name, true).running,
        ) == 0,
{
    if !slot_taken(v.running) {
        free_slot_is_not_held(v.running);
        push_keeps_jobs(v.running, JobView { name, kind: JobKind::Run { cargo: true } });
    }
}

/// A run that waits for the slot goes on waiting, in its place, until it is
/// handed out or everything is shut down.
pub proof fn waiting_runs_are_not_lost(
    v: JobsView,
    exits: Seq<Option<Exit>>,
    log: Seq<Seq<char>>,
    name: Seq<char>,
    cargo: bool,
    started: bool,
    run: WaitingView,
)
    ensures
        pumped(v, exits, log).waiting == v.waiting,
        canceled(v).waiting == v.waiting,
        enqueued(v, name).waiting == v.waiting,
        run_started(v, name, cargo).waiting == v.waiting,
        build_begun(v, started).waiting == v.waiting,
        v.waiting.is_prefix_of(run_waits(v, run).waiting),
        can_start_run(v) ==> v.waiting == seq![v.waiting[0]] + run_taken(v).waiting,
        !can_start_run(v) ==> run_taken(v).waiting == v.waiting,
{
    let n = v.waiting.len() as int;
    assert(v.waiting =~= run_waits(v, run).waiting.subrange(0, n));
    if can_start_run(v) {
        assert(v.waiting =~= seq![v.waiting[0]] + run_taken(v).waiting);
    }
}

/// Two jobs that need the slot count as two.
proof fn two_holders(jobs: Seq<JobView>, i: int, j: int)
    requires
        0 <= i < j < jobs.len(),
        takes_cargo_slot(jobs[i].kind),
        takes_cargo_slot(jobs[j].kind),
    ensures
        slot_count(jobs) >= 2,
    decreases jobs.len(),
{
    let front = jobs.drop_last();
    push_keeps_jobs(front, jobs.last());
    assert(jobs =~= front.push(jobs.last()));
    if j < front.len() {
        two_holders(front, i, j);
    } else {
        let p = |x: JobView| takes_cargo_slot(x.kind);
        front.lemma_filter_contains(p, i);
    }
}

/// A build starts only while no cargo command runs, and the builds start in
/// the order in which they were asked for. Once it has started, no other
/// build can.
pub proof fn builds_run_one_at_a_time(v: JobsView)
    requires
        consistent(v),
        can_start_build(v),
    ensures
        build_count(v.running) == 0,
        build_count(build_begun(v, true).running) == 1,
        build_begun(v, true).running.last().name == v.queue[0],
        build_begun(v, true).queue == v.queue.drop_first(),
        !can_start_build(build_begun(v, true)),
{
    free_slot_is_not_held(v.running);
    let job = JobView { name: v.queue[0], kind: JobKind::Build };
    push_keeps_jobs(v.running, job);
    let after = build_begun(v, true).running;
    assert(takes_cargo_slot(after[after.len() - 1].kind));
}

} // verus!
