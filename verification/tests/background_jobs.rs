use cargo_bay::job::{
    push_line, spinner, tag_line, AppStatus, CommandLine, Exit, Job, JobKind, Jobs, Program,
    Waiting, MAX_LOG_LINES,
};
use std::path::PathBuf;

fn jobs() -> Jobs {
    Jobs::new(PathBuf::from("/ws"))
}

fn ended(success: bool, text: &str) -> Option<Exit> {
    Some(Exit { success, text: text.to_string() })
}

fn start_next(jobs: &mut Jobs, log: &mut Vec<String>) {
    assert!(jobs.next_build().is_some());
    jobs.build_spawned(None, log);
}

fn names(jobs: &[Job]) -> Vec<&str> {
    jobs.iter().map(|j| j.name.as_str()).collect()
}

fn program(c: &CommandLine) -> &str {
    match &c.program {
        Program::Named(name) => name,
        Program::File(_) => panic!("a file"),
    }
}

#[test]
fn the_spinner_turns() {
    let frames: Vec<char> = (0..6).map(spinner).collect();
    assert_eq!(frames, ['|', '/', '-', '\\', '|', '/']);
    assert_eq!(spinner(u64::MAX), '\\');
}

#[test]
fn the_log_keeps_the_newest_lines() {
    let mut log = Vec::new();
    for i in 0..MAX_LOG_LINES + 3 {
        push_line(&mut log, i.to_string());
    }
    assert_eq!(log.len(), MAX_LOG_LINES);
    assert_eq!(log[0], "3");
    assert_eq!(log[MAX_LOG_LINES - 1], (MAX_LOG_LINES + 2).to_string());
}

#[test]
fn an_overlong_log_is_cut_to_the_cap() {
    let mut log: Vec<String> = (0..MAX_LOG_LINES + 10).map(|i| i.to_string()).collect();
    push_line(&mut log, "last".to_string());
    assert_eq!(log.len(), MAX_LOG_LINES);
    assert_eq!(log[0], "11");
    assert_eq!(log[MAX_LOG_LINES - 1], "last");
}

#[test]
fn lines_carry_the_job_name() {
    assert_eq!(tag_line("app", "hello"), "[app] hello");
    assert_eq!(tag_line("", ""), "[] ");
}

#[test]
fn nothing_goes_on_at_first() {
    let jobs = jobs();
    assert!(!jobs.is_busy());
    assert!(!jobs.cargo_active());
    assert_eq!(jobs.counts(), (0, 0));
    assert!(jobs.next_build().is_none());
    assert!(jobs.status_of("a").is_none());
    assert!(!jobs.console_visible);
    assert_eq!(jobs.console_scroll, 0);
}

#[test]
fn a_build_is_queued_only_once() {
    let mut jobs = jobs();
    jobs.enqueue_build("a");
    jobs.enqueue_build("b");
    jobs.enqueue_build("a");
    assert_eq!(jobs.counts(), (0, 2));
    assert_eq!(jobs.status_of("a"), Some(&AppStatus::Queued));
    assert!(jobs.is_busy());

    let mut log = Vec::new();
    start_next(&mut jobs, &mut log);
    jobs.enqueue_build("a");
    assert_eq!(jobs.counts(), (1, 1));
}

#[test]
fn a_launch_does_not_queue_a_build_again() {
    let mut jobs = jobs();
    let mut log = Vec::new();
    jobs.enqueue_build("a");
    jobs.spawn_run("a", false, None, &mut log);
    assert_eq!(jobs.status_of("a"), Some(&AppStatus::Running));
    jobs.enqueue_build("a");
    assert_eq!(jobs.counts(), (0, 1));
    start_next(&mut jobs, &mut log);
    jobs.spawn_run("a", false, None, &mut log);
    jobs.enqueue_build("a");
    assert_eq!(jobs.counts(), (1, 0));
}

#[test]
fn the_end_of_a_run_leaves_the_queue_alone() {
    let mut jobs = jobs();
    let mut log = Vec::new();
    jobs.spawn_run("a", false, None, &mut log);
    jobs.enqueue_build("a");
    assert_eq!(jobs.status_of("a"), Some(&AppStatus::Queued));
    jobs.pump(&vec![ended(true, "exit status: 0")], &mut log);
    assert_eq!(jobs.status_of("a"), Some(&AppStatus::Queued));
    jobs.enqueue_build("a");
    assert_eq!(jobs.counts(), (0, 1));
}

#[test]
fn a_status_falls_back_to_what_still_concerns_the_app() {
    let mut jobs = jobs();
    let mut log = Vec::new();
    jobs.enqueue_build("a");
    start_next(&mut jobs, &mut log);
    jobs.spawn_run("a", false, None, &mut log);
    jobs.spawn_run("a", false, None, &mut log);
    assert_eq!(jobs.status_of("a"), Some(&AppStatus::Running));
    jobs.pump(&vec![None, ended(true, "exit status: 0"), None], &mut log);
    assert_eq!(jobs.status_of("a"), Some(&AppStatus::Building));
    jobs.pump(&vec![ended(true, "exit status: 0"), None], &mut log);
    assert_eq!(jobs.status_of("a"), Some(&AppStatus::Running));
    jobs.pump(&vec![ended(true, "exit status: 0")], &mut log);
    assert!(jobs.status_of("a").is_none());
}

#[test]
fn builds_start_one_at_a_time_in_order() {
    let mut jobs = jobs();
    let mut log = Vec::new();
    jobs.enqueue_build("a");
    jobs.enqueue_build("b");
    let c = jobs.next_build().unwrap();
    assert_eq!(program(&c), "cargo");
    assert_eq!(c.args, ["build", "-p", "a"]);
    assert_eq!(c.dir, PathBuf::from("/ws"));
    jobs.build_spawned(None, &mut log);
    assert_eq!(jobs.status_of("a"), Some(&AppStatus::Building));
    assert!(jobs.cargo_active());
    assert!(jobs.next_build().is_none());

    let done = jobs.pump(&vec![ended(true, "exit status: 0")], &mut log);
    assert_eq!(done.len(), 1);
    assert_eq!(done[0].name, "a");
    assert!(done[0].success);
    assert!(jobs.status_of("a").is_none());
    assert_eq!(jobs.next_build().unwrap().args, ["build", "-p", "b"]);
    assert_eq!(log, ["[a] building…", "[a] build OK"]);
    assert!(!jobs.console_visible);
}

#[test]
fn a_failed_build_is_marked_and_brings_up_the_console() {
    let mut jobs = jobs();
    let mut log = Vec::new();
    jobs.enqueue_build("a");
    start_next(&mut jobs, &mut log);
    let done = jobs.pump(&vec![ended(false, "exit status: 101")], &mut log);
    assert!(!done[0].success);
    assert_eq!(jobs.status_of("a"), Some(&AppStatus::BuildFailed));
    assert!(jobs.console_visible);
    assert_eq!(log.last().unwrap(), "[a] build FAILED");
    jobs.enqueue_build("a");
    assert_eq!(jobs.status_of("a"), Some(&AppStatus::Queued));
}

#[test]
fn a_build_that_cannot_start_is_marked() {
    let mut jobs = jobs();
    let mut log = Vec::new();
    jobs.enqueue_build("a");
    jobs.enqueue_build("b");
    assert!(jobs.next_build().is_some());
    jobs.build_spawned(Some("no such file".to_string()), &mut log);
    assert_eq!(jobs.status_of("a"), Some(&AppStatus::BuildFailed));
    assert_eq!(jobs.counts(), (0, 1));
    assert!(jobs.console_visible);
    assert_eq!(log, ["[a] failed to start build: no such file"]);
    assert_eq!(jobs.next_build().unwrap().args, ["build", "-p", "b"]);
}

#[test]
fn a_launched_app_shows_the_console() {
    let mut jobs = jobs();
    let mut log = Vec::new();
    jobs.scroll(7);
    jobs.spawn_run("game", false, None, &mut log);
    assert_eq!(jobs.status_of("game"), Some(&AppStatus::Running));
    assert!(jobs.console_visible);
    assert_eq!(jobs.console_scroll, 0);
    assert!(!jobs.cargo_active());
    assert_eq!(jobs.counts(), (0, 0));
    assert!(jobs.is_busy());
    assert_eq!(log, ["[game] launched"]);

    let done = jobs.pump(&vec![ended(false, "signal: 9 (SIGKILL)")], &mut log);
    assert!(done.is_empty());
    assert!(jobs.status_of("game").is_none());
    assert_eq!(log[1], "[game] exited (signal: 9 (SIGKILL))");
}

#[test]
fn an_app_that_cannot_be_launched_only_leaves_a_line() {
    let mut jobs = jobs();
    let mut log = Vec::new();
    jobs.spawn_run("game", true, Some("denied".to_string()), &mut log);
    assert!(!jobs.is_busy());
    assert!(!jobs.console_visible);
    assert!(jobs.status_of("game").is_none());
    assert_eq!(log, ["[game] failed to launch: denied"]);
}

#[test]
fn cargo_runs_hold_the_slot() {
    let mut jobs = jobs();
    let mut log = Vec::new();
    jobs.enqueue_build("a");
    jobs.spawn_run("game", true, None, &mut log);
    assert!(jobs.cargo_active());
    assert!(jobs.next_build().is_none());
    jobs.pump(&vec![ended(true, "exit status: 0")], &mut log);
    assert!(jobs.next_build().is_some());
}

#[test]
fn unfinished_jobs_go_on() {
    let mut jobs = jobs();
    let mut log = Vec::new();
    jobs.spawn_run("one", false, None, &mut log);
    jobs.enqueue_build("b");
    start_next(&mut jobs, &mut log);
    jobs.spawn_run("two", false, None, &mut log);
    let done = jobs.pump(&vec![None, ended(true, "exit status: 0"), None], &mut log);
    assert_eq!(done.len(), 1);
    assert_eq!(names(&jobs.running), ["one", "two"]);
    assert_eq!(jobs.running[0].kind, JobKind::Run { cargo: false });
    assert_eq!(jobs.status_of("two"), Some(&AppStatus::Running));
}

#[test]
fn canceling_leaves_running_apps_alone() {
    let mut jobs = jobs();
    let mut log = Vec::new();
    jobs.spawn_run("game", false, None, &mut log);
    for name in ["a", "b", "c"] {
        jobs.enqueue_build(name);
    }
    start_next(&mut jobs, &mut log);
    let killed = jobs.cancel_builds(&mut log);
    assert_eq!(killed, [1]);
    assert_eq!(names(&jobs.running), ["game"]);
    assert_eq!(jobs.counts(), (0, 0));
    assert_eq!(jobs.status_of("game"), Some(&AppStatus::Running));
    for name in ["a", "b", "c"] {
        assert!(jobs.status_of(name).is_none());
    }
    assert_eq!(log.last().unwrap(), "[a] build canceled");
}

#[test]
fn canceling_a_build_leaves_the_run_of_the_app_alone() {
    let mut jobs = jobs();
    let mut log = Vec::new();
    jobs.enqueue_build("a");
    start_next(&mut jobs, &mut log);
    jobs.spawn_run("a", false, None, &mut log);
    jobs.spawn_run("b", false, None, &mut log);
    jobs.enqueue_build("b");
    assert_eq!(jobs.cancel_builds(&mut log), [0]);
    assert_eq!(names(&jobs.running), ["a", "b"]);
    assert_eq!(jobs.status_of("a"), Some(&AppStatus::Running));
    assert_eq!(jobs.status_of("b"), Some(&AppStatus::Running));
}

#[test]
fn canceling_keeps_the_mark_of_failed_builds() {
    let mut jobs = jobs();
    let mut log = Vec::new();
    jobs.enqueue_build("a");
    jobs.enqueue_build("b");
    jobs.build_spawned(Some("no".to_string()), &mut log);
    assert!(jobs.cancel_builds(&mut log).is_empty());
    assert_eq!(jobs.status_of("a"), Some(&AppStatus::BuildFailed));
    assert!(jobs.status_of("b").is_none());
}

#[test]
fn canceling_keeps_the_mark_of_a_failed_build_on_a_running_app() {
    let mut jobs = jobs();
    let mut log = Vec::new();
    jobs.enqueue_build("a");
    start_next(&mut jobs, &mut log);
    jobs.spawn_run("a", false, None, &mut log);
    jobs.pump(&vec![ended(false, "exit status: 101"), None], &mut log);
    assert_eq!(jobs.status_of("a"), Some(&AppStatus::BuildFailed));
    assert!(jobs.cancel_builds(&mut log).is_empty());
    assert_eq!(jobs.status_of("a"), Some(&AppStatus::BuildFailed));
    assert_eq!(names(&jobs.running), ["a"]);
}

fn waiting(name: &str) -> Waiting {
    Waiting {
        name: name.to_string(),
        command: CommandLine {
            program: Program::Named("cargo".to_string()),
            args: vec!["run".to_string()],
            dir: PathBuf::from("/ws"),
        },
    }
}

#[test]
fn waiting_runs_come_before_queued_builds() {
    let mut jobs = jobs();
    let mut log = Vec::new();
    jobs.enqueue_build("a");
    jobs.enqueue_build("b");
    start_next(&mut jobs, &mut log);
    jobs.wait_for_slot(waiting("one"));
    jobs.wait_for_slot(waiting("two"));
    assert!(jobs.next_run().is_none());
    assert!(jobs.next_build().is_none());

    jobs.cancel_builds(&mut log);
    jobs.enqueue_build("b");
    assert!(jobs.next_build().is_none());
    let run = jobs.next_run().unwrap();
    assert_eq!(run.name, "one");
    assert_eq!(run.command.args, ["run"]);
    jobs.spawn_run("one", true, None, &mut log);
    assert!(jobs.next_run().is_none());

    jobs.pump(&vec![ended(true, "exit status: 0")], &mut log);
    assert_eq!(jobs.next_run().unwrap().name, "two");
    assert!(jobs.next_run().is_none());
    assert_eq!(jobs.next_build().unwrap().args, ["build", "-p", "b"]);
}

#[test]
fn waiting_runs_are_dropped_on_shutdown() {
    let mut jobs = jobs();
    jobs.wait_for_slot(waiting("one"));
    assert!(jobs.is_busy());
    assert!(jobs.kill_all().is_empty());
    assert!(!jobs.is_busy());
    assert!(jobs.next_run().is_none());
}

#[test]
fn shutting_down_gives_every_job_back() {
    let mut jobs = jobs();
    let mut log = Vec::new();
    jobs.spawn_run("game", false, None, &mut log);
    jobs.enqueue_build("a");
    jobs.enqueue_build("b");
    start_next(&mut jobs, &mut log);
    let stopped = jobs.kill_all();
    assert_eq!(names(&stopped), ["game", "a"]);
    assert!(!jobs.is_busy());
    assert!(jobs.status_of("game").is_none());
    assert!(jobs.status_of("b").is_none());
}

#[test]
fn scrolling_stops_at_the_tail() {
    let mut jobs = jobs();
    jobs.scroll(5);
    jobs.scroll(3);
    assert_eq!(jobs.console_scroll, 8);
    jobs.scroll(-5);
    assert_eq!(jobs.console_scroll, 3);
    jobs.scroll(-5);
    assert_eq!(jobs.console_scroll, 0);
    jobs.scroll(65_535);
    assert_eq!(jobs.console_scroll, 65_535);
    jobs.scroll(1);
    assert_eq!(jobs.console_scroll, 65_535);
    jobs.scroll(i32::MAX);
    assert_eq!(jobs.console_scroll, 65_535);
    jobs.scroll(i32::MIN);
    assert_eq!(jobs.console_scroll, 0);
}

#[test]
fn the_console_is_toggled() {
    let mut jobs = jobs();
    jobs.toggle_console();
    assert!(jobs.console_visible);
    jobs.toggle_console();
    assert!(!jobs.console_visible);
}

#[test]
fn job_kinds_know_the_cargo_slot() {
    let job = |kind| Job { name: "x".to_string(), kind };
    assert!(job(JobKind::Build).is_cargo());
    assert!(job(JobKind::Build).is_build());
    assert!(job(JobKind::Run { cargo: true }).is_cargo());
    assert!(!job(JobKind::Run { cargo: true }).is_build());
    assert!(!job(JobKind::Run { cargo: false }).is_cargo());
}
