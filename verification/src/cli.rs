//! Tiny hand-rolled argument parser for a handful of flags. Handles being
//! invoked either directly (`cargo-bay`) or as a cargo subcommand
//! (`cargo bay`), where cargo injects `bay` as the first argument.

use crate::paths::{make_path, path_from};
use crate::text::{same_text, text_of, texts};
use std::path::PathBuf;
use vstd::prelude::*;

verus! {

/// What the command line asks for.
pub struct Config {
    /// Point cargo metadata at a specific workspace instead of the cwd.
    pub manifest_path: Option<PathBuf>,
    /// Only list members whose crate dir is under `<workspace>/<subfolder>`.
    pub subfolder: Option<String>,
    /// Only list apps whose package name contains this substring.
    pub filter: Option<String>,
    /// Prefer release binaries for the fast (Enter) launch.
    pub prefer_release: bool,
    /// Print the discovered apps and exit, instead of opening the screen.
    pub list: bool,
}

/// The outcome of reading the command line.
pub enum Cli {
    Run(Config),
    Help,
    Error(String),
}

/// The model of a [`Config`].
pub struct ConfigView {
    pub manifest_path: Option<PathBuf>,
    pub subfolder: Option<Seq<char>>,
    pub filter: Option<Seq<char>>,
    pub prefer_release: bool,
    pub list: bool,
}

/// The model of a [`Cli`].
pub enum CliView {
    Run(ConfigView),
    Help,
    Error(Seq<char>),
}

impl View for Config {
    type V = ConfigView;

    open spec fn view(&self) -> ConfigView {
        ConfigView {
            manifest_path: self.manifest_path,
            subfolder: text_of(self.subfolder),
            filter: text_of(self.filter),
            prefer_release: self.prefer_release,
            list: self.list,
        }
    }
}

impl View for Cli {
    type V = CliView;

    open spec fn view(&self) -> CliView {
        match *self {
            Cli::Run(cfg) => CliView::Run(cfg@),
            Cli::Help => CliView::Help,
            Cli::Error(e) => CliView::Error(e@),
        }
    }
}

/// The configuration of a bare invocation.
pub open spec fn no_options() -> ConfigView {
    ConfigView {
        manifest_path: None,
        subfolder: None,
        filter: None,
        prefer_release: false,
        list: false,
    }
}

/// A flag that takes a value, with no value left.
pub open spec fn needs_a_value(flag: Seq<char>) -> CliView {
    CliView::Error(flag + " needs a value"@)
}

/// What the options `args` make of the configuration `cfg`, read from the left.
pub open spec fn options_read(args: Seq<Seq<char>>, cfg: ConfigView) -> CliView
    decreases args.len(),
{
    if args.len() == 0 {
        CliView::Run(cfg)
    } else if args[0] == "-h"@ || args[0] == "--help"@ {
        CliView::Help
    } else if args[0] == "--release"@ {
        options_read(args.skip(1), ConfigView { prefer_release: true, ..cfg })
    } else if args[0] == "--list"@ {
        options_read(args.skip(1), ConfigView { list: true, ..cfg })
    } else if args[0] == "--subfolder"@ {
        if args.len() < 2 {
            needs_a_value(args[0])
        } else {
            options_read(args.skip(2), ConfigView { subfolder: Some(args[1]), ..cfg })
        }
    } else if args[0] == "--filter"@ {
        if args.len() < 2 {
            needs_a_value(args[0])
        } else {
            options_read(args.skip(2), ConfigView { filter: Some(args[1]), ..cfg })
        }
    } else if args[0] == "--manifest-path"@ {
        if args.len() < 2 {
            needs_a_value(args[0])
        } else {
            options_read(
                args.skip(2),
                ConfigView { manifest_path: Some(path_from(args[1])), ..cfg },
            )
        }
    } else {
        CliView::Error("unknown argument: "@ + args[0])
    }
}

/// The options of a command line: what follows the executable's name and the
/// `bay` token that cargo puts behind it.
pub open spec fn options_of(args: Seq<Seq<char>>) -> Seq<Seq<char>> {
    if args.len() < 2 {
        Seq::empty()
    } else if args[1] == "bay"@ {
        args.skip(2)
    } else {
        args.skip(1)
    }
}

/// What a whole command line, executable name first, asks for.
pub open spec fn command_line_read(args: Seq<Seq<char>>) -> CliView {
    options_read(options_of(args), no_options())
}

/// The help text.
pub const USAGE: &'static str = "cargo-bay — browse, run, and rebuild the binaries in a Cargo workspace

USAGE:
    cargo bay [OPTIONS]          (or run the binary directly: cargo-bay [OPTIONS])

OPTIONS:
    --subfolder <DIR>     Only list members whose crate lives under <workspace>/<DIR> (e.g. apps)
    --filter <SUBSTR>     Only list apps whose package name contains <SUBSTR>
    --manifest-path <P>   Use the workspace that contains this Cargo.toml
    --release             Prefer release binaries for the fast (Enter) launch
    --list                Print the discovered apps and exit (no TUI)
    -h, --help            Show this help

TUI KEYS:
    up/down · j/k · wheel  move      Enter / click        run
    r / d                  run the release / debug build (build only if absent)
    b / right-click        versions  R                    rebuild stale (background)
    l                      log       x                    cancel builds
    PgUp / PgDn            scroll    q / Esc              quit
";

/// The help text.
pub fn usage() -> (r: &'static str)
    ensures
        r@ == USAGE@,
{
    USAGE
}

/// Is `arg` the given flag?
fn is_flag(arg: &String, flag: &str) -> (r: bool)
    ensures
        r == (arg@ == flag@),
{
    same_text(arg.as_str(), flag)
}

/// The complaint about a flag whose value is missing.
fn missing_value(flag: &str) -> (r: Cli)
    ensures
        r@ == needs_a_value(flag@),
{
    let mut e: String = flag.to_owned();
    e.append(" needs a value");
    Cli::Error(e)
}

/// Reads a command line, executable name first.
pub fn parse(args: Vec<String>) -> (r: Cli)
    ensures
        r@ == command_line_read(texts(args@)),
{
    let ghost all = texts(args@);
    let mut i: usize = if args.len() > 1 && is_flag(&args[1], "bay") {
        2
    } else {
        1
    };
    let mut cfg = Config {
        manifest_path: None,
        subfolder: None,
        filter: None,
        prefer_release: false,
        list: false,
    };
    proof {
        assert(all.len() == args@.len());
        if all.len() >= 2 {
            assert(all[1] == args@[1]@);
        }
        if all.len() < 2 {
            assert(options_of(all) =~= Seq::<Seq<char>>::empty());
        } else {
            assert(options_of(all) == all.skip(i as int));
        }
    }
    while i < args.len()
        invariant
            all == texts(args@),
            all.len() == args@.len(),
            1 <= i <= args@.len() || args@.len() < 2,
            args@.len() < 2 ==> cfg@ == no_options() && i == 1,
            args@.len() >= 2 ==> options_read(all.skip(i as int), cfg@) == command_line_read(all),
        decreases args@.len() - i,
    {
        let ghost rest = all.skip(i as int);
        proof {
            assert(rest[0] == args@[i as int]@);
            assert(rest.skip(1) =~= all.skip(i + 1));
            if i + 1 < args@.len() {
                assert(rest[1] == args@[i + 1]@);
                assert(rest.skip(2) =~= all.skip(i + 2));
            }
        }
        let arg = &args[i];
        if is_flag(arg, "-h") || is_flag(arg, "--help") {
            return Cli::Help;
        } else if is_flag(arg, "--release") {
            cfg.prefer_release = true;
            i = i + 1;
        } else if is_flag(arg, "--list") {
            cfg.list = true;
            i = i + 1;
        } else if is_flag(arg, "--subfolder") {
            if i + 1 >= args.len() {
                return missing_value("--subfolder");
            }
            cfg.subfolder = Some(args[i + 1].clone());
            i = i + 2;
        } else if is_flag(arg, "--filter") {
            if i + 1 >= args.len() {
                return missing_value("--filter");
            }
            cfg.filter = Some(args[i + 1].clone());
            i = i + 2;
        } else if is_flag(arg, "--manifest-path") {
            if i + 1 >= args.len() {
                return missing_value("--manifest-path");
            }
            cfg.manifest_path = Some(make_path(args[i + 1].as_str()));
            i = i + 2;
        } else {
            let mut e: String = "unknown argument: ".to_owned();
            e.append(arg.as_str());
            return Cli::Error(e);
        }
    }
    proof {
        if args@.len() >= 2 {
            assert(all.skip(i as int) =~= Seq::<Seq<char>>::empty());
        }
    }
    Cli::Run(cfg)
}

/// The "nothing to run" message, honoring any `--subfolder` scope.
pub open spec fn no_apps_text(cfg: ConfigView) -> Seq<char> {
    match cfg.subfolder {
        Some(s) => "cargo-bay: no runnable binaries found in this workspace"@ + " under "@ + s + "/"@
            + "."@,
        None => "cargo-bay: no runnable binaries found in this workspace"@ + "."@,
    }
}

/// The "nothing to run" message, honoring any `--subfolder` scope.
pub fn no_apps_message(cfg: &Config) -> (r: String)
    ensures
        r@ == no_apps_text(cfg@),
{
    let mut out: String = "cargo-bay: no runnable binaries found in this workspace".to_owned();
    match &cfg.subfolder {
        Some(s) => {
            out.append(" under ");
            out.append(s.as_str());
            out.append("/");
        },
        None => {},
    }
    out.append(".");
    out
}

/// `cargo bay ...` and `cargo-bay ...` mean the same, unless the options
/// themselves begin with the word `bay`.
pub proof fn subcommand_token_is_dropped(exe: Seq<char>, options: Seq<Seq<char>>)
    requires
        options.len() > 0 ==> options[0] != "bay"@,
    ensures
        command_line_read(seq![exe, "bay"@] + options) == command_line_read(seq![exe] + options),
{
    let with = seq![exe, "bay"@] + options;
    let without = seq![exe] + options;
    assert(with[1] == "bay"@);
    assert(with.skip(2) =~= options);
    if options.len() == 0 {
        assert(options_of(without) =~= options);
    } else {
        assert(without[1] == options[0]);
        assert(without.skip(1) =~= options);
    }
}

/// A command line without options runs with the bare configuration.
pub proof fn no_options_run(exe: Seq<char>)
    ensures
        command_line_read(seq![exe]) == CliView::Run(no_options()),
{
}

/// Options are read from the left: where `first` alone is accepted, what
/// follows it is read on top of the configuration that `first` makes, so a
/// later value of a flag replaces an earlier one.
pub proof fn options_read_in_turn(first: Seq<Seq<char>>, then: Seq<Seq<char>>, cfg: ConfigView)
    requires
        options_read(first, cfg) is Run,
    ensures
        options_read(first + then, cfg) == options_read(then, options_read(first, cfg)->Run_0),
    decreases first.len(),
{
    if first.len() == 0 {
        assert(first + then =~= then);
    } else {
        let all = first + then;
        assert(all[0] == first[0]);
        assert(all.skip(1) =~= first.skip(1) + then);
        if first.len() >= 2 {
            assert(all[1] == first[1]);
            assert(all.skip(2) =~= first.skip(2) + then);
        }
        if first[0] == "--release"@ {
            options_read_in_turn(first.skip(1), then, ConfigView { prefer_release: true, ..cfg });
        } else if first[0] == "--list"@ {
            options_read_in_turn(first.skip(1), then, ConfigView { list: true, ..cfg });
        } else if first[0] == "--subfolder"@ {
            options_read_in_turn(
                first.skip(2),
                then,
                ConfigView { subfolder: Some(first[1]), ..cfg },
            );
        } else if first[0] == "--filter"@ {
            options_read_in_turn(
                first.skip(2),
                then,
                ConfigView { filter: Some(first[1]), ..cfg },
            );
        } else if first[0] == "--manifest-path"@ {
            options_read_in_turn(
                first.skip(2),
                then,
                ConfigView { manifest_path: Some(path_from(first[1])), ..cfg },
            );
        }
    }
}

} // verus!
