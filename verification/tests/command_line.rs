use cargo_bay::cli::{no_apps_message, parse, usage, Cli, Config};
use std::path::PathBuf;

fn read(args: &[&str]) -> Cli {
    parse(args.iter().map(|a| a.to_string()).collect())
}

fn config(args: &[&str]) -> Config {
    match read(args) {
        Cli::Run(cfg) => cfg,
        Cli::Help => panic!("help"),
        Cli::Error(e) => panic!("{e}"),
    }
}

fn error(args: &[&str]) -> String {
    match read(args) {
        Cli::Error(e) => e,
        _ => panic!("no error"),
    }
}

#[test]
fn bare_invocation_takes_the_defaults() {
    for args in [vec![], vec!["cargo-bay"], vec!["cargo-bay", "bay"]] {
        let cfg = config(&args);
        assert!(cfg.manifest_path.is_none());
        assert!(cfg.subfolder.is_none());
        assert!(cfg.filter.is_none());
        assert!(!cfg.prefer_release);
        assert!(!cfg.list);
    }
}

#[test]
fn every_option_is_read() {
    let cfg = config(&[
        "cargo-bay",
        "--subfolder",
        "apps",
        "--filter",
        "demo",
        "--manifest-path",
        "/ws/Cargo.toml",
        "--release",
        "--list",
    ]);
    assert_eq!(cfg.subfolder.as_deref(), Some("apps"));
    assert_eq!(cfg.filter.as_deref(), Some("demo"));
    assert_eq!(cfg.manifest_path, Some(PathBuf::from("/ws/Cargo.toml")));
    assert!(cfg.prefer_release);
    assert!(cfg.list);
}

#[test]
fn subcommand_token_is_dropped_once() {
    assert!(config(&["cargo-bay", "bay", "--list"]).list);
    assert!(config(&["cargo-bay", "--list"]).list);
    assert_eq!(error(&["cargo-bay", "bay", "bay"]), "unknown argument: bay");
    assert_eq!(error(&["cargo-bay", "--list", "bay"]), "unknown argument: bay");
}

#[test]
fn help_wins_over_what_follows() {
    assert!(matches!(read(&["cargo-bay", "-h", "--nonsense"]), Cli::Help));
    assert!(matches!(read(&["cargo-bay", "--list", "--help"]), Cli::Help));
    assert_eq!(
        error(&["cargo-bay", "--nonsense", "--help"]),
        "unknown argument: --nonsense"
    );
}

#[test]
fn flags_without_their_value_are_errors() {
    assert_eq!(error(&["cargo-bay", "--subfolder"]), "--subfolder needs a value");
    assert_eq!(error(&["cargo-bay", "--filter"]), "--filter needs a value");
    assert_eq!(
        error(&["cargo-bay", "--list", "--manifest-path"]),
        "--manifest-path needs a value"
    );
}

#[test]
fn a_value_may_look_like_a_flag() {
    assert_eq!(
        config(&["cargo-bay", "--filter", "--help"]).filter.as_deref(),
        Some("--help")
    );
}

#[test]
fn a_later_value_replaces_an_earlier_one() {
    let cfg = config(&["cargo-bay", "--filter", "a", "--list", "--filter", "b"]);
    assert_eq!(cfg.filter.as_deref(), Some("b"));
    assert!(cfg.list);
}

#[test]
fn usage_tells_the_options_and_the_keys() {
    let text = usage();
    assert!(text.starts_with("cargo-bay — browse, run, and rebuild"));
    for word in ["--subfolder <DIR>", "--filter <SUBSTR>", "--manifest-path <P>", "-h, --help"] {
        assert!(text.contains(word), "{word}");
    }
    assert!(text.contains("R                    rebuild stale (background)"));
    assert!(text.contains("r / d                  run the release / debug build"));
    assert!(text.ends_with("q / Esc              quit\n"));
}

#[test]
fn nothing_to_run_names_the_subfolder() {
    assert_eq!(
        no_apps_message(&config(&["cargo-bay"])),
        "cargo-bay: no runnable binaries found in this workspace."
    );
    assert_eq!(
        no_apps_message(&config(&["cargo-bay", "--subfolder", "apps"])),
        "cargo-bay: no runnable binaries found in this workspace under apps/."
    );
}
