//! Laws of the command line.

use crate::cli::{
    command_line_read, no_apps_text, options_read, options_read_in_turn, CliView, ConfigView,
};
use crate::paths::path_from;
use vstd::prelude::*;

verus! {

/// The flags are seven different words.
proof fn flags_differ()
    ensures
        "-h"@.len() == 2,
        "--help"@.len() == 6,
        "--list"@.len() == 6,
        "--help"@ != "--list"@,
        "--filter"@.len() == 8,
        "--release"@.len() == 9,
        "--subfolder"@.len() == 11,
        "--manifest-path"@.len() == 15,
        "bay"@.len() == 3,
{
    reveal_strlit("-h");
    reveal_strlit("--help");
    reveal_strlit("--list");
    reveal_strlit("--filter");
    reveal_strlit("--release");
    reveal_strlit("--subfolder");
    reveal_strlit("--manifest-path");
    reveal_strlit("bay");
    assert("--help"@[2] == 'h' && "--list"@[2] == 'l');
}

/// One accepted option, on its own.
proof fn one_option(value: Seq<char>, cfg: ConfigView)
    ensures
        options_read(seq!["--subfolder"@, value], cfg) == CliView::Run(
            ConfigView { subfolder: Some(value), ..cfg },
        ),
        options_read(seq!["--filter"@, value], cfg) == CliView::Run(
            ConfigView { filter: Some(value), ..cfg },
        ),
        options_read(seq!["--manifest-path"@, value], cfg) == CliView::Run(
            ConfigView { manifest_path: Some(path_from(value)), ..cfg },
        ),
        options_read(seq!["--release"@], cfg) == CliView::Run(
            ConfigView { prefer_release: true, ..cfg },
        ),
        options_read(seq!["--list"@], cfg) == CliView::Run(ConfigView { list: true, ..cfg }),
{
    flags_differ();
    reveal_with_fuel(options_read, 2);
    assert(seq!["--subfolder"@, value].skip(2) =~= Seq::empty());
    assert(seq!["--filter"@, value].skip(2) =~= Seq::empty());
    assert(seq!["--manifest-path"@, value].skip(2) =~= Seq::empty());
    assert(seq!["--release"@].skip(1) =~= Seq::empty());
    assert(seq!["--list"@].skip(1) =~= Seq::empty());
}

/// Each option, behind any options that are accepted, sets its own field to
/// what stands behind it and leaves the other four as they were.
pub proof fn each_option_sets_its_own_field(
    given: Seq<Seq<char>>,
    cfg: ConfigView,
    before: ConfigView,
    value: Seq<char>,
)
    requires
        options_read(given, cfg) == CliView::Run(before),
    ensures
        options_read(given + seq!["--subfolder"@, value], cfg) matches CliView::Run(c)
            && c.subfolder == Some(value) && c.filter == before.filter && c.manifest_path
            == before.manifest_path && c.prefer_release == before.prefer_release && c.list
            == before.list,
        options_read(given + seq!["--filter"@, value], cfg) matches CliView::Run(c) && c.filter
            == Some(value) && c.subfolder == before.subfolder && c.manifest_path
            == before.manifest_path && c.prefer_release == before.prefer_release && c.list
            == before.list,
        options_read(given + seq!["--manifest-path"@, value], cfg) matches CliView::Run(c)
            && c.manifest_path == Some(path_from(value)) && c.subfolder == before.subfolder
            && c.filter == before.filter && c.prefer_release == before.prefer_release && c.list
            == before.list,
        options_read(given + seq!["--release"@], cfg) matches CliView::Run(c) && c.prefer_release
            && c.subfolder == before.subfolder && c.filter == before.filter && c.manifest_path
            == before.manifest_path && c.list == before.list,
        options_read(given + seq!["--list"@], cfg) matches CliView::Run(c) && c.list && c.subfolder
            == before.subfolder && c.filter == before.filter && c.manifest_path
            == before.manifest_path && c.prefer_release == before.prefer_release,
{
    one_option(value, before);
    options_read_in_turn(given, seq!["--subfolder"@, value], cfg);
    options_read_in_turn(given, seq!["--filter"@, value], cfg);
    options_read_in_turn(given, seq!["--manifest-path"@, value], cfg);
    options_read_in_turn(given, seq!["--release"@], cfg);
    options_read_in_turn(given, seq!["--list"@], cfg);
}

/// An option with its value.
pub enum Given {
    Subfolder(Seq<char>),
    Filter(Seq<char>),
    ManifestPath(Seq<char>),
    Release,
    List,
}

/// The words of an option.
pub open spec fn words_of(option: Given) -> Seq<Seq<char>> {
    match option {
        Given::Subfolder(v) => seq!["--subfolder"@, v],
        Given::Filter(v) => seq!["--filter"@, v],
        Given::ManifestPath(v) => seq!["--manifest-path"@, v],
        Given::Release => seq!["--release"@],
        Given::List => seq!["--list"@],
    }
}

/// The two options have the same flag.
pub open spec fn same_flag(a: Given, b: Given) -> bool {
    ||| a is Subfolder && b is Subfolder
    ||| a is Filter && b is Filter
    ||| a is ManifestPath && b is ManifestPath
    ||| a is Release && b is Release
    ||| a is List && b is List
}

/// Options with different flags may be given in either order, behind and in
/// front of any others; of two with one flag the later one counts.
pub proof fn options_come_in_any_order(
    given: Seq<Seq<char>>,
    a: Given,
    b: Given,
    rest: Seq<Seq<char>>,
    cfg: ConfigView,
)
    requires
        options_read(given, cfg) is Run,
    ensures
        !same_flag(a, b) ==> options_read(given + (words_of(a) + (words_of(b) + rest)), cfg)
            == options_read(given + (words_of(b) + (words_of(a) + rest)), cfg),
        same_flag(a, b) ==> options_read(given + (words_of(a) + (words_of(b) + rest)), cfg)
            == options_read(given + (words_of(b) + rest), cfg),
{
    let before = options_read(given, cfg)->Run_0;
    let wa = words_of(a);
    let wb = words_of(b);
    options_read_in_turn(given, wa + (wb + rest), cfg);
    options_read_in_turn(given, wb + (wa + rest), cfg);
    options_read_in_turn(given, wb + rest, cfg);
    accepted(a, before);
    accepted(b, before);
    let ca = options_read(wa, before)->Run_0;
    let cb = options_read(wb, before)->Run_0;
    options_read_in_turn(wa, wb + rest, before);
    options_read_in_turn(wb, wa + rest, before);
    options_read_in_turn(wb, rest, before);
    accepted(b, ca);
    accepted(a, cb);
    options_read_in_turn(wb, rest, ca);
    options_read_in_turn(wa, rest, cb);
}

/// What one option makes of a configuration.
proof fn accepted(option: Given, cfg: ConfigView)
    ensures
        options_read(words_of(option), cfg) == CliView::Run(
            match option {
                Given::Subfolder(v) => ConfigView { subfolder: Some(v), ..cfg },
                Given::Filter(v) => ConfigView { filter: Some(v), ..cfg },
                Given::ManifestPath(v) => ConfigView { manifest_path: Some(path_from(v)), ..cfg },
                Given::Release => ConfigView { prefer_release: true, ..cfg },
                Given::List => ConfigView { list: true, ..cfg },
            },
        ),
{
    match option {
        Given::Subfolder(v) => one_option(v, cfg),
        Given::Filter(v) => one_option(v, cfg),
        Given::ManifestPath(v) => one_option(v, cfg),
        _ => one_option(Seq::empty(), cfg),
    }
}

/// Behind any accepted options: nothing more runs with them; `-h` and `--help`
/// ask for help, whatever follows; a flag whose value is missing is named, and
/// so is every word that is no flag, whatever follows.
pub proof fn every_other_word_is_answered(
    given: Seq<Seq<char>>,
    cfg: ConfigView,
    word: Seq<char>,
    rest: Seq<Seq<char>>,
)
    requires
        options_read(given, cfg) is Run,
    ensures
        options_read(Seq::empty(), cfg) == CliView::Run(cfg),
        options_read(given + (seq!["-h"@] + rest), cfg) == CliView::Help,
        options_read(given + (seq!["--help"@] + rest), cfg) == CliView::Help,
        options_read(given + seq!["--subfolder"@], cfg) == CliView::Error(
            "--subfolder"@ + " needs a value"@,
        ),
        options_read(given + seq!["--filter"@], cfg) == CliView::Error(
            "--filter"@ + " needs a value"@,
        ),
        options_read(given + seq!["--manifest-path"@], cfg) == CliView::Error(
            "--manifest-path"@ + " needs a value"@,
        ),
        word != "-h"@ && word != "--help"@ && word != "--subfolder"@ && word != "--filter"@ && word
            != "--manifest-path"@ && word != "--release"@ && word != "--list"@ ==> options_read(
            given + (seq![word] + rest),
            cfg,
        ) == CliView::Error("unknown argument: "@ + word),
{
    flags_differ();
    options_read_in_turn(given, seq!["-h"@] + rest, cfg);
    options_read_in_turn(given, seq!["--help"@] + rest, cfg);
    options_read_in_turn(given, seq!["--subfolder"@], cfg);
    options_read_in_turn(given, seq!["--filter"@], cfg);
    options_read_in_turn(given, seq!["--manifest-path"@], cfg);
    options_read_in_turn(given, seq![word] + rest, cfg);
    assert((seq!["-h"@] + rest)[0] == "-h"@);
    assert((seq!["--help"@] + rest)[0] == "--help"@);
    assert((seq![word] + rest)[0] == word);
}

/// The executable's name says nothing, and neither does the `bay` that cargo
/// puts behind it. The options are read on top of a configuration that asks
/// for nothing.
pub proof fn a_command_line_is_its_options(
    exe: Seq<char>,
    options: Seq<Seq<char>>,
    nothing: ConfigView,
)
    requires
        nothing.manifest_path is None,
        nothing.subfolder is None,
        nothing.filter is None,
        !nothing.prefer_release,
        !nothing.list,
    ensures
        command_line_read(Seq::empty()) == CliView::Run(nothing),
        command_line_read(seq![exe]) == CliView::Run(nothing),
        command_line_read(seq![exe, "bay"@] + options) == options_read(options, nothing),
        options.len() > 0 && options[0] != "bay"@ ==> command_line_read(seq![exe] + options)
            == options_read(options, nothing),
{
    let with = seq![exe, "bay"@] + options;
    assert(with[1] == "bay"@);
    assert(with.skip(2) =~= options);
    if options.len() > 0 {
        let without = seq![exe] + options;
        assert(without[1] == options[0]);
        assert(without.skip(1) =~= options);
    }
}

/// The "nothing to run" message names the subfolder, if there is one, and
/// depends on nothing else.
pub proof fn nothing_to_run_names_the_subfolder(cfg: ConfigView, other: ConfigView)
    ensures
        cfg.subfolder matches Some(s) ==> no_apps_text(cfg)
            == "cargo-bay: no runnable binaries found in this workspace"@ + " under "@ + s + "/"@
            + "."@,
        cfg.subfolder is None ==> no_apps_text(cfg)
            == "cargo-bay: no runnable binaries found in this workspace"@ + "."@,
        cfg.subfolder == other.subfolder ==> no_apps_text(cfg) == no_apps_text(other),
{
}

} // verus!
