//! Laws of what is shown: the listing, the tags and rows of the list, the
//! detail panel, the console, the footer, the picker and where they lie.

use crate::discover::{AppKind, AppView, BinKind, Freshness, Launch};
use crate::geometry::{centered_in, inside_border, Rect, Share};
use crate::job::{build_count, JobKind, JobView, JobsView};
use crate::launcher::{LauncherView, ScreenView};
use crate::laws::jobs::the_spinner_turns;
use crate::paths::{path_name, path_text};
use crate::text::{blanks, decimal, padded};
use crate::theme::{Color, SpanView};
use crate::ui::{
    areas_noted, arranged, body_shares, brand_view, console_lines, detail_lines_view, detail_view,
    footer_view, freshness_note, half_shares, header_shares, hints_view, info_view, legend_view,
    list_row_view, list_rows_view, list_tag_view, listing, log_height, painted, picker_view,
    run_line_view, screen_shares, splash_lines, Regions, Splits,
};
use vstd::prelude::*;

verus! {

/// The span shows the text in the colour, not in bold.
pub open spec fn shows(span: SpanView, text: Seq<char>, color: Color) -> bool {
    span.text == text && span.color == Some(color) && !span.bold
}

/// The span shows the text without a colour, not in bold.
pub open spec fn shows_plain(span: SpanView, text: Seq<char>) -> bool {
    span.text == text && span.color is None && !span.bold
}

// --- the listing --------------------------------------------------------

/// The listing has a line for each app, in the apps' order. A line begins with
/// `fresh` exactly if the app's chosen binary is fresh, with `stale` exactly if
/// it is stale, and with `build` exactly if there is none, whatever kind of
/// build it is.
pub proof fn a_line_begins_with_the_freshness(apps: Seq<AppView>, i: int)
    requires
        0 <= i < apps.len(),
    ensures
        listing(apps).len() == apps.len(),
        ({
            let launch = apps[i].launch;
            let line = listing(apps)[i];
            &&& line.len() >= 5
            &&& line.take(5) == "stale"@ <==> launch is Prebuilt && launch->freshness is Stale
            &&& line.take(5) == "fresh"@ <==> launch is Prebuilt && launch->freshness is Fresh
            &&& line.take(5) == "build"@ <==> launch is BuildOnly
        }),
{
    the_line_in_parts(apps, i);
    let line = listing(apps)[i];
    reveal_strlit("stale");
    reveal_strlit("fresh");
    reveal_strlit("build");
    let tag = tag_word(apps[i]);
    assert(line.take(5) =~= tag) by {
        assert(line.take(5) =~= line.take(8).take(5));
    }
    assert("stale"@[0] != "fresh"@[0] && "stale"@[0] != "build"@[0] && "fresh"@[0]
        != "build"@[0]);
}

/// The word for an app's chosen binary.
spec fn tag_word(app: AppView) -> Seq<char> {
    match app.launch {
        Launch::Prebuilt { freshness: Freshness::Stale, .. } => "stale"@,
        Launch::Prebuilt { freshness: Freshness::Fresh, .. } => "fresh"@,
        Launch::BuildOnly => "build"@,
    }
}

/// The word for an app's kind.
spec fn kind_word(app: AppView) -> Seq<char> {
    match app.kind {
        AppKind::Windowed => "windowed"@,
        AppKind::Terminal => "terminal"@,
    }
}

/// What an app's line says that it runs.
spec fn runs_word(app: AppView) -> Seq<char> {
    match app.launch {
        Launch::Prebuilt { path, .. } => path_text(path),
        Launch::BuildOnly => "cargo run -p "@ + app.name,
    }
}

/// Where the columns of a line lie.
proof fn the_line_in_parts(apps: Seq<AppView>, i: int)
    requires
        0 <= i < apps.len(),
    ensures
        listing(apps).len() == apps.len(),
        ({
            let line = listing(apps)[i];
            let app = apps[i];
            let end = 17 + padded(app.name, 22).len();
            &&& line.len() == end + 1 + runs_word(app).len()
            &&& line.take(8) == tag_word(app) + seq![' ', ' ', ' ']
            &&& line.subrange(8, 16) == kind_word(app)
            &&& line[16] == ' '
            &&& line.subrange(17, end as int) == padded(app.name, 22)
            &&& line[end as int] == ' '
            &&& line.skip(end as int + 1) == runs_word(app)
        }),
{
    let app = apps[i];
    reveal_strlit("stale");
    reveal_strlit("fresh");
    reveal_strlit("build");
    reveal_strlit("windowed");
    reveal_strlit("terminal");
    reveal_strlit(" ");
    let tag = tag_word(app);
    let line = listing(apps)[i];
    assert(tag.len() == 5);
    assert(padded(tag, 7) == tag + blanks(2));
    crate::laws::words::padding_only_adds_blanks(tag, 7);
    assert(padded(tag, 7) =~= tag + seq![' ', ' ']);
    assert(padded(kind_word(app), 8) == kind_word(app));
    let parts = padded(tag, 7) + " "@ + kind_word(app) + " "@ + padded(app.name, 22) + " "@
        + runs_word(app);
    assert(line == parts);
    let end = 17 + padded(app.name, 22).len();
    assert(line.take(8) =~= tag + seq![' ', ' ', ' ']);
    assert(line.subrange(8, 16) =~= kind_word(app));
    assert(line.subrange(17, end as int) =~= padded(app.name, 22));
    assert(line.skip(end as int + 1) =~= runs_word(app));
}

/// The columns of a line: the freshness in eight cells, the kind in nine, the
/// name in twenty-two or as many as it needs, and behind a blank the path of
/// the chosen binary, or the command that would compile the app.
pub proof fn a_line_has_its_columns(apps: Seq<AppView>, i: int)
    requires
        0 <= i < apps.len(),
    ensures
        ({
            let app = apps[i];
            let line = listing(apps)[i];
            let end = 17 + if app.name.len() < 22 {
                22
            } else {
                app.name.len()
            };
            &&& line.len() > end
            &&& line[5] == ' ' && line[6] == ' ' && line[7] == ' ' && line[16] == ' '
            &&& app.kind is Windowed ==> line.subrange(8, 16) == "windowed"@
            &&& app.kind is Terminal ==> line.subrange(8, 16) == "terminal"@
            &&& line.subrange(17, 17 + app.name.len() as int) == app.name
            &&& forall|k: int| 17 + app.name.len() <= k <= end ==> #[trigger] line[k] == ' '
            &&& match app.launch {
                Launch::Prebuilt { path, .. } => line.skip(end as int + 1) == path_text(path),
                Launch::BuildOnly => line.skip(end as int + 1) == "cargo run -p "@ + app.name,
            }
        }),
{
    the_line_in_parts(apps, i);
    let app = apps[i];
    let line = listing(apps)[i];
    let name = padded(app.name, 22);
    let end = 17 + name.len();
    reveal_strlit("stale");
    reveal_strlit("fresh");
    reveal_strlit("build");
    crate::laws::words::padding_only_adds_blanks(app.name, 22);
    assert(line[5] == line.take(8)[5] && line[6] == line.take(8)[6] && line[7] == line.take(8)[7]);
    assert(line.subrange(17, 17 + app.name.len() as int) =~= name.subrange(0, app.name.len() as int));
    assert forall|k: int| 17 + app.name.len() <= k <= end implies #[trigger] line[k] == ' ' by {
        if k < end {
            assert(line.subrange(17, end as int)[k - 17] == line[k]);
            assert(name[k - 17] == ' ');
        }
    }
}

// --- the list -----------------------------------------------------------

/// An app without a mark is tagged by its chosen binary, of whatever kind of
/// build: green if fresh, yellow if stale, blue if there is none. A mark comes
/// first, each with its sign and colour.
pub proof fn tags_tell_mark_and_freshness(app: AppView, jobs: JobsView, tick: u64)
    ensures
        ({
            let tag = list_tag_view(app, jobs, tick);
            let marked = jobs.status.contains_key(app.name);
            let mark = jobs.status[app.name];
            let launch = app.launch;
            &&& marked && mark is Queued ==> shows(tag, "[q]"@, Color::DarkGray)
            &&& marked && mark is BuildFailed ==> shows(tag, "[!]"@, Color::Red)
            &&& marked && mark is Running ==> shows(tag, "[>]"@, Color::Cyan)
            &&& marked && mark is Building ==> {
                &&& tag.text.len() == 3
                &&& tag.text[0] == '['
                &&& tag.text[2] == ']'
                &&& tick % 4 == 0 ==> tag.text[1] == '|'
                &&& tick % 4 == 1 ==> tag.text[1] == '/'
                &&& tick % 4 == 2 ==> tag.text[1] == '-'
                &&& tick % 4 == 3 ==> tag.text[1] == '\\'
                &&& tag.color == Some(Color::Yellow)
                &&& !tag.bold
            }
            &&& !marked && launch is Prebuilt && launch->freshness is Fresh ==> shows(
                tag,
                "[+]"@,
                Color::Green,
            )
            &&& !marked && launch is Prebuilt && launch->freshness is Stale ==> shows(
                tag,
                "[*]"@,
                Color::Yellow,
            )
            &&& !marked && launch is BuildOnly ==> shows(tag, "[.]"@, Color::Blue)
        }),
{
    the_spinner_turns(tick);
    reveal_strlit("[");
    reveal_strlit("]");
}

/// A row shows the tag, a blank, the name, and behind it the kind of build of
/// the chosen binary exactly if there is one.
pub proof fn a_row_shows_tag_name_and_build(app: AppView, jobs: JobsView, tick: u64)
    ensures
        ({
            let row = list_row_view(app, jobs, tick);
            &&& row.len() == if app.launch is Prebuilt {
                4int
            } else {
                3int
            }
            &&& row[0] == list_tag_view(app, jobs, tick)
            &&& shows_plain(row[1], " "@)
            &&& shows_plain(row[2], app.name)
            &&& app.launch is Prebuilt && app.launch->kind is Release ==> shows(
                row[3],
                "  ·"@ + "release"@,
                Color::DarkGray,
            )
            &&& app.launch is Prebuilt && app.launch->kind is Debug ==> shows(
                row[3],
                "  ·"@ + "debug"@,
                Color::DarkGray,
            )
            &&& app.launch is Prebuilt && app.launch->kind is Installed ==> shows(
                row[3],
                "  ·"@ + "installed"@,
                Color::DarkGray,
            )
        }),
{
}

/// The list shows every app once, in the apps' order.
pub proof fn the_list_shows_every_app(v: LauncherView)
    ensures
        list_rows_view(v).len() == v.apps.len(),
        forall|i: int|
            0 <= i < v.apps.len() ==> #[trigger] list_rows_view(v)[i] == list_row_view(
                v.apps[i],
                v.jobs,
                v.tick,
            ),
{
}

// --- header -------------------------------------------------------------

/// The header names the brand, tells the workspace by the last part of its root
/// (or calls it `workspace`) and how many apps it has, and explains the five
/// signs in the colours that the tags have.
pub proof fn the_header_tells_where_and_how_many(v: LauncherView)
    ensures
        brand_view().len() == 2,
        brand_view()[0] == (SpanView {
            text: "⚓"@ + " freight"@,
            color: Some(Color::Cyan),
            bold: true,
        }),
        shows(brand_view()[1], " · cargo-bay"@, Color::DarkGray),
        info_view(v).len() == 1,
        path_name(v.catalog.root) is Some ==> shows(
            info_view(v)[0],
            path_name(v.catalog.root)->0 + " · "@ + decimal(v.apps.len()) + " apps"@,
            Color::DarkGray,
        ),
        path_name(v.catalog.root) is None ==> shows(
            info_view(v)[0],
            "workspace"@ + " · "@ + decimal(v.apps.len()) + " apps"@,
            Color::DarkGray,
        ),
        legend_view().len() == 10,
        shows(legend_view()[0], "[+]"@, Color::Green),
        shows(legend_view()[1], " "@ + "fresh"@ + "  "@, Color::DarkGray),
        shows(legend_view()[2], "[*]"@, Color::Yellow),
        shows(legend_view()[3], " "@ + "stale"@ + "  "@, Color::DarkGray),
        shows(legend_view()[4], "[.]"@, Color::Blue),
        shows(legend_view()[5], " "@ + "new"@ + "  "@, Color::DarkGray),
        shows(legend_view()[6], "[>]"@, Color::Cyan),
        shows(legend_view()[7], " "@ + "running"@ + "  "@, Color::DarkGray),
        shows(legend_view()[8], "[!]"@, Color::Red),
        shows(legend_view()[9], " "@ + "failed"@ + "  "@, Color::DarkGray),
{
}

/// While the workspace is searched, the brand and a turning sign are shown.
pub proof fn the_splash_turns(tick: u64)
    ensures
        splash_lines(tick).len() == 3,
        splash_lines(tick)[0] == brand_view(),
        splash_lines(tick)[1].len() == 1,
        shows_plain(splash_lines(tick)[1][0], ""@),
        splash_lines(tick)[2].len() == 1,
        tick % 4 == 0 ==> shows(
            splash_lines(tick)[2][0],
            seq!['|'] + "  scanning the workspace…"@,
            Color::DarkGray,
        ),
        tick % 4 == 1 ==> shows(
            splash_lines(tick)[2][0],
            seq!['/'] + "  scanning the workspace…"@,
            Color::DarkGray,
        ),
        tick % 4 == 2 ==> shows(
            splash_lines(tick)[2][0],
            seq!['-'] + "  scanning the workspace…"@,
            Color::DarkGray,
        ),
        tick % 4 == 3 ==> shows(
            splash_lines(tick)[2][0],
            seq!['\\'] + "  scanning the workspace…"@,
            Color::DarkGray,
        ),
{
    the_spinner_turns(tick);
}

// --- the detail panel ---------------------------------------------------

/// The panel tells what Enter would run: the kind of build, the path, and in
/// green that it is fresh or in yellow that it is stale; or in blue the command
/// that would compile the app.
pub proof fn the_panel_tells_what_runs(app: AppView, path: Seq<char>)
    ensures
        ({
            let line = run_line_view(app, path);
            let launch = app.launch;
            &&& !line.bold
            &&& launch is BuildOnly ==> shows(
                line,
                "cargo run -p "@ + app.name + " (no prebuilt exe yet)"@,
                Color::Blue,
            )
            &&& launch is Prebuilt && launch->freshness is Fresh ==> shows(
                line,
                build_word(launch->kind) + "  "@ + path + "  (fresh)"@,
                Color::Green,
            )
            &&& launch is Prebuilt && launch->freshness is Stale ==> shows(
                line,
                build_word(launch->kind) + "  "@ + path
                    + "  (stale — Enter runs it as-is · b then f rebuilds + runs)"@,
                Color::Yellow,
            )
        }),
        freshness_note(Freshness::Stale) == "  (stale)"@,
        freshness_note(Freshness::Fresh) == "  (fresh)"@,
{
}

/// The word for a kind of build.
pub open spec fn build_word(kind: BinKind) -> Seq<char> {
    match kind {
        BinKind::Release => "release"@,
        BinKind::Debug => "debug"@,
        BinKind::Installed => "installed"@,
    }
}

/// The panel shows the description, or that there is none exactly if it is
/// empty, a blank line, what runs, and in which way.
pub proof fn the_panel_describes_the_app(app: AppView, path: Seq<char>)
    ensures
        ({
            let lines = detail_lines_view(app, path);
            &&& lines.len() == 4
            &&& lines[0].len() == 1
            &&& app.description.len() > 0 ==> shows_plain(lines[0][0], app.description)
            &&& app.description.len() == 0 ==> shows_plain(
                lines[0][0],
                "(no description in Cargo.toml)"@,
            )
            &&& lines[1].len() == 1
            &&& shows_plain(lines[1][0], ""@)
            &&& lines[2].len() == 2
            &&& shows(lines[2][0], "runs: "@, Color::DarkGray)
            &&& lines[2][1] == run_line_view(app, path)
            &&& lines[3].len() == 2
            &&& shows(lines[3][0], "kind: "@, Color::DarkGray)
            &&& app.kind is Windowed ==> shows(
                lines[3][1],
                "windowed — runs in the background, logs to the console (press l)"@,
                Color::DarkGray,
            )
            &&& app.kind is Terminal ==> shows(
                lines[3][1],
                "terminal — takes over the screen while it runs"@,
                Color::DarkGray,
            )
        }),
{
}

/// The panel is about the selected app, or the first if none is selected, with
/// the path of its chosen binary; if there is no such app, it says that there
/// are none.
pub proof fn the_panel_is_about_the_selected_app(v: LauncherView, i: usize)
    ensures
        (v.state.selected == Some(i) || (v.state.selected is None && i == 0)) && i < v.apps.len()
            ==> {
            let app = v.apps[i as int];
            &&& detail_view(v).title == Some(" "@ + app.name + " "@)
            &&& app.launch is Prebuilt ==> detail_view(v).lines == detail_lines_view(
                app,
                path_text(app.launch->path),
            )
            &&& app.launch is BuildOnly ==> detail_view(v).lines == detail_lines_view(
                app,
                Seq::empty(),
            )
        },
        v.apps.len() == 0 || (v.state.selected is Some && v.state.selected->0 >= v.apps.len()) ==> {
            &&& detail_view(v).title is None
            &&& detail_view(v).lines.len() == 1
            &&& detail_view(v).lines[0].len() == 1
            &&& shows_plain(detail_view(v).lines[0][0], "No apps found."@)
        },
{
}

// --- the console --------------------------------------------------------

/// The console shows the lines that end `scroll` lines above the newest, as many
/// as fit between its borders and the log has, in the log's order.
pub proof fn the_console_shows_a_piece_of_the_log(log: Seq<Seq<char>>, scroll: u16, height: u16)
    ensures
        ({
            let shown = console_lines(log, scroll, height);
            let rows = if height >= 2 {
                height - 2
            } else {
                0
            };
            let end = if scroll <= log.len() {
                log.len() - scroll
            } else {
                0
            };
            &&& shown.len() == if rows <= end {
                rows
            } else {
                end
            }
            &&& forall|k: int|
                0 <= k < shown.len() ==> #[trigger] shown[k] == log[end - shown.len() + k]
        }),
{
}

// --- the footer ---------------------------------------------------------

/// The spans at `at` name a key in the accent colour and tell what it does.
pub open spec fn hints_at(
    spans: Seq<SpanView>,
    at: int,
    key: Seq<char>,
    label: Seq<char>,
) -> bool {
    &&& shows(spans[at], key, Color::Cyan)
    &&& shows_plain(spans[at + 1], " "@ + label + "  "@)
}

/// The footer names the keys of the screen that is open, in their order.
pub proof fn the_footer_names_the_keys(screen: ScreenView)
    ensures
        ({
            let hints = hints_view(screen);
            &&& screen is List ==> {
                &&& hints.len() == 16
                &&& hints_at(hints, 0, "Enter"@, "run"@)
                &&& hints_at(hints, 2, "r"@, "release"@)
                &&& hints_at(hints, 4, "d"@, "debug"@)
                &&& hints_at(hints, 6, "b"@, "versions"@)
                &&& hints_at(hints, 8, "R"@, "rebuild"@)
                &&& hints_at(hints, 10, "l"@, "log"@)
                &&& hints_at(hints, 12, "x"@, "cancel"@)
                &&& hints_at(hints, 14, "q"@, "quit"@)
            }
            &&& screen is Run ==> {
                &&& hints.len() == 8
                &&& hints_at(hints, 0, "up/down"@, "move"@)
                &&& hints_at(hints, 2, "Enter/click"@, "run as-is"@)
                &&& hints_at(hints, 4, "f"@, "rebuild + run"@)
                &&& hints_at(hints, 6, "Esc"@, "back"@)
            }
        }),
{
}

/// Behind the keys the footer tells how many builds run and wait, exactly if
/// any does, and then the status line, exactly if it is not empty.
pub proof fn the_footer_tells_builds_and_status(v: LauncherView)
    ensures
        ({
            let footer = footer_view(v);
            let keys = hints_view(v.screen).len();
            let building = v.jobs.running.filter(|j: JobView| j.kind is Build).len();
            let told = if building + v.jobs.queue.len() > 0 {
                1int
            } else {
                0int
            };
            &&& footer.take(keys as int) == hints_view(v.screen)
            &&& footer.len() == keys + told + if v.status.len() > 0 {
                1int
            } else {
                0int
            }
            &&& told == 1 ==> shows(
                footer[keys as int],
                "building "@ + decimal(building) + ", queued "@ + decimal(v.jobs.queue.len())
                    + "  "@,
                Color::Yellow,
            )
            &&& v.status.len() > 0 ==> shows(footer[keys + told], v.status, Color::DarkGray)
        }),
{
    let p = |j: JobView| j.kind is Build;
    let q = |j: JobView| j.kind == JobKind::Build;
    assert(p =~= q) by {
        assert forall|j: JobView| #[trigger] p(j) == q(j) by {}
    }
    assert(v.jobs.running.filter(p).len() == build_count(v.jobs.running));
    let keys = hints_view(v.screen).len();
    assert(footer_view(v).take(keys as int) =~= hints_view(v.screen));
}

// --- where things lie ---------------------------------------------------

/// A centred box is as large as asked for where the area has the room and as
/// large as the area where not; it lies within the area, and what is left over
/// is on both sides, with at most one cell more on the far side.
pub proof fn a_box_is_centred(area: Rect, w: u16, h: u16)
    requires
        area.wf(),
    ensures
        ({
            let b = centered_in(area, w, h);
            let left = b.x - area.x;
            let right = area.width - b.width - left;
            let above = b.y - area.y;
            let below = area.height - b.height - above;
            &&& w <= area.width ==> b.width == w
            &&& w > area.width ==> b.width == area.width
            &&& h <= area.height ==> b.height == h
            &&& h > area.height ==> b.height == area.height
            &&& 0 <= left <= right <= left + 1
            &&& 0 <= above <= below <= above + 1
        }),
{
}

/// Within its border a box of at least two cells each way loses one cell on
/// every side.
pub proof fn a_border_takes_one_cell(area: Rect)
    requires
        area.wf(),
        area.width >= 2,
        area.height >= 2,
    ensures
        inside_border(area).x == area.x + 1,
        inside_border(area).y == area.y + 1,
        inside_border(area).width == area.width - 2,
        inside_border(area).height == area.height - 2,
{
}

/// The picker is shown exactly while it is open: under the app's name, with the
/// label of each row in order and the selected one, in a box of seventy-two
/// cells with a line for each row and two for the border.
pub proof fn the_picker_shows_its_rows(screen: ScreenView, area: Rect)
    ensures
        screen is List ==> picker_view(screen, area) is None,
        screen is Run ==> {
            let shown = picker_view(screen, area)->0;
            &&& picker_view(screen, area) is Some
            &&& shown.title == " run: "@ + screen->app + " "@
            &&& shown.items.len() == screen->choices.len()
            &&& forall|i: int|
                0 <= i < screen->choices.len() ==> #[trigger] shown.items[i]
                    == screen->choices[i].label
            &&& shown.sel == screen->sel
            &&& screen->choices.len() <= 3 ==> shown.area == centered_in(
                area,
                72,
                (screen->choices.len() + 2) as u16,
            )
        },
{
}

/// The console takes a third of the screen, at least six lines and at most
/// sixteen.
pub proof fn the_console_takes_a_third(height: u16)
    ensures
        6 <= log_height(height) <= 16,
        18 <= height < 51 ==> log_height(height) * 3 <= height < log_height(height) * 3 + 3,
        height < 18 ==> log_height(height) == 6,
        height >= 51 ==> log_height(height) == 16,
{
}

/// The screen is asked to be split into a header of two lines, a body of at
/// least three, the console while it is open, and a footer of three; the body
/// into thirty-eight and sixty-two hundredths; the header into lines of one, the
/// first of them into halves.
pub proof fn the_screen_is_shared_out(height: u16)
    ensures
        screen_shares(height, false).len() == 3,
        screen_shares(height, false)[0] == Share::Length(2),
        screen_shares(height, false)[1] == Share::Min(3),
        screen_shares(height, false)[2] == Share::Length(3),
        screen_shares(height, true).len() == 4,
        screen_shares(height, true)[0] == Share::Length(2),
        screen_shares(height, true)[1] == Share::Min(3),
        screen_shares(height, true)[2] == Share::Length(log_height(height)),
        screen_shares(height, true)[3] == Share::Length(3),
        body_shares() == seq![Share::Percentage(38), Share::Percentage(62)],
        header_shares() == seq![Share::Length(1), Share::Length(1)],
        half_shares() == seq![Share::Percentage(50), Share::Percentage(50)],
{
}

/// The header stands in the first row, brand left of the workspace and the
/// legend below them; list and detail in the columns of the second; the console,
/// while it is open, in the third; and the footer in the last.
pub proof fn every_panel_has_its_place(s: Splits, console_on: bool)
    ensures
        ({
            let r = arranged(s, console_on);
            &&& r.brand == s.halves@[0]
            &&& r.info == s.halves@[1]
            &&& r.legend == s.lines@[1]
            &&& r.list == s.columns@[0]
            &&& r.detail == s.columns@[1]
            &&& console_on ==> r.console == Some(s.rows@[2]) && r.footer == s.rows@[3]
            &&& !console_on ==> r.console is None && r.footer == s.rows@[2]
        }),
{
}

/// What is painted is what the panels show; the console shows the log exactly
/// while it has a place.
pub proof fn the_painting_shows_every_panel(
    v: LauncherView,
    log: Seq<Seq<char>>,
    area: Rect,
    regions: Regions,
)
    ensures
        ({
            let p = painted(v, log, area, regions);
            &&& p.regions == regions
            &&& p.brand == brand_view()
            &&& p.info == info_view(v)
            &&& p.legend == legend_view()
            &&& p.rows == list_rows_view(v)
            &&& p.detail == detail_view(v)
            &&& p.footer == footer_view(v)
            &&& p.picker == picker_view(v.screen, area)
            &&& p.console is Some <==> regions.console is Some
            &&& regions.console is Some ==> p.console->0 == console_lines(
                log,
                v.jobs.console_scroll,
                regions.console->0.height,
            )
        }),
{
}

/// For the mouse it is noted where the rows of the list and of the picker, the
/// detail panel and the console were painted; a hidden console has no cell, and
/// nothing else changes.
pub proof fn the_mouse_finds_what_was_painted(v: LauncherView, area: Rect, regions: Regions)
    ensures
        ({
            let after = areas_noted(v, area, regions);
            &&& after.list_inner == inside_border(regions.list)
            &&& after.detail_area == regions.detail
            &&& regions.console is Some ==> after.console_area == regions.console->0
            &&& regions.console is None ==> after.console_area.width == 0
                && after.console_area.height == 0
            &&& v.screen is Run ==> after.picker_inner == inside_border(
                picker_view(v.screen, area)->0.area,
            )
            &&& v.screen is List ==> after.picker_inner == v.picker_inner
            &&& after == LauncherView {
                list_inner: after.list_inner,
                detail_area: after.detail_area,
                console_area: after.console_area,
                picker_inner: after.picker_inner,
                ..v
            }
        }),
{
}

} // verus!
