//! What the screen shows: a brand header (freight mark, workspace, glyph
//! legend); the app list (with run-status and freshness glyphs) beside the
//! selected app's detail; a collapsible log console docked along the bottom; a
//! key-hint and build-summary footer; and a modal version-picker overlay. All
//! colours and glyphs come from [`crate::theme`].

use crate::discover::{app_views, kind_label, AppEntry, AppKind, AppView, Freshness, Launch};
use crate::geometry::{
    bordered_inner, centered, centered_in, inside_border, is_split, may_split_into, no_area, split,
    Direction, Rect, Share,
};
use crate::job::{build_count, spinner, spinner_frame, AppStatus, Jobs, JobsView};
use crate::launcher::{
    choice_views, screen_ok, ChoiceView, Launcher, LauncherView, Screen, ScreenView,
};
use crate::paths::{display_path, file_name, path_name, path_text};
use crate::text::{decimal, number, pad, padded, text_of, texts};
use crate::theme::{
    bold, bold_view, glyphs_are_three_cells, line_view, line_views, plain, plain_view, styled,
    styled_view, Color, Span, SpanView, ACCENT, BRAND_MARK, BUILDING, FAILED, FRESH, G_FAILED,
    G_FRESH, G_NEW, G_QUEUED, G_RUNNING, G_STALE, MUTED, NEW, QUEUED, RUNNING, STALE,
};
use vstd::prelude::*;

verus! {

/// The title of the app list.
pub const LIST_TITLE: &'static str = " apps ";

/// The title of the log console.
pub const CONSOLE_TITLE: &'static str = " log — l to hide, PgUp/PgDn / wheel scroll ";

/// What the detail panel shows when there is no app.
pub const NO_APPS: &'static str = "No apps found.";

/// What stands before the highlighted row of a list.
pub const HIGHLIGHT: &'static str = "> ";

/// The header block: brandmark and workspace line, then the glyph legend.
pub const HEADER_HEIGHT: u16 = 2;

/// Trailing note describing a binary's freshness (for picker labels).
pub open spec fn freshness_note(f: Freshness) -> Seq<char> {
    match f {
        Freshness::Stale => "  (stale)"@,
        Freshness::Fresh => "  (fresh)"@,
    }
}

/// Trailing note describing a binary's freshness (for picker labels).
pub fn freshness_suffix(f: Freshness) -> (r: &'static str)
    ensures
        r@ == freshness_note(f),
{
    match f {
        Freshness::Stale => "  (stale)",
        Freshness::Fresh => "  (fresh)",
    }
}

// --- the app list -------------------------------------------------------

/// The glyph of an app that is being built: the spinner in brackets.
pub open spec fn building_text(tick: u64) -> Seq<char> {
    "["@ + seq![spinner_frame(tick)] + "]"@
}

/// The spinner frame as text.
fn spinner_text(tick: u64) -> (r: &'static str)
    ensures
        r@ == seq![spinner_frame(tick)],
{
    proof {
        reveal_strlit("|");
        reveal_strlit("/");
        reveal_strlit("-");
        reveal_strlit("\\");
    }
    let frame: char = spinner(tick);
    let r: &'static str = if frame == '|' {
        "|"
    } else if frame == '/' {
        "/"
    } else if frame == '-' {
        "-"
    } else {
        "\\"
    };
    assert(r@ =~= seq![spinner_frame(tick)]);
    r
}

/// The glyph of an app that is being built.
fn building_glyph(tick: u64) -> (r: String)
    ensures
        r@ == building_text(tick),
{
    let mut out: String = "[".to_owned();
    out.append(spinner_text(tick));
    out.append("]");
    out
}

/// The glyph for an app's freshness.
pub open spec fn freshness_tag_view(app: AppView) -> SpanView {
    match app.launch {
        Launch::Prebuilt { freshness, .. } => if freshness == Freshness::Stale {
            styled_view(G_STALE@, STALE)
        } else {
            styled_view(G_FRESH@, FRESH)
        },
        Launch::BuildOnly => styled_view(G_NEW@, NEW),
    }
}

/// The left-column glyph: a live job state if one applies, else freshness.
pub open spec fn list_tag_view(app: AppView, jobs: JobsView, tick: u64) -> SpanView {
    if jobs.status.contains_key(app.name) {
        match jobs.status[app.name] {
            AppStatus::Queued => styled_view(G_QUEUED@, QUEUED),
            AppStatus::Building => styled_view(building_text(tick), BUILDING),
            AppStatus::BuildFailed => styled_view(G_FAILED@, FAILED),
            AppStatus::Running => styled_view(G_RUNNING@, RUNNING),
        }
    } else {
        freshness_tag_view(app)
    }
}

/// The row of an app: glyph, name, and the profile that Enter will run.
pub open spec fn list_row_view(app: AppView, jobs: JobsView, tick: u64) -> Seq<SpanView> {
    let row = seq![list_tag_view(app, jobs, tick), plain_view(" "@), plain_view(app.name)];
    match app.launch {
        Launch::Prebuilt { kind, .. } => row.push(styled_view("  ·"@ + kind_label(kind), MUTED)),
        Launch::BuildOnly => row,
    }
}

/// The glyph for an app's freshness.
pub fn freshness_tag(app: &AppEntry) -> (r: Span)
    ensures
        r@ == freshness_tag_view(app@),
{
    match &app.launch {
        Launch::Prebuilt { freshness, .. } => match freshness {
            Freshness::Stale => styled(G_STALE.to_owned(), STALE),
            Freshness::Fresh => styled(G_FRESH.to_owned(), FRESH),
        },
        Launch::BuildOnly => styled(G_NEW.to_owned(), NEW),
    }
}

/// The left-column glyph: a live job state if one applies, else freshness.
pub fn list_tag(app: &AppEntry, jobs: &Jobs, tick: u64) -> (r: Span)
    requires
        jobs.wf(),
    ensures
        r@ == list_tag_view(app@, jobs@, tick),
{
    match jobs.status_of(app.name.as_str()) {
        Some(AppStatus::Queued) => styled(G_QUEUED.to_owned(), QUEUED),
        Some(AppStatus::Building) => styled(building_glyph(tick), BUILDING),
        Some(AppStatus::BuildFailed) => styled(G_FAILED.to_owned(), FAILED),
        Some(AppStatus::Running) => styled(G_RUNNING.to_owned(), RUNNING),
        None => freshness_tag(app),
    }
}

/// The row of an app.
pub fn list_row(app: &AppEntry, jobs: &Jobs, tick: u64) -> (r: Vec<Span>)
    requires
        jobs.wf(),
    ensures
        line_view(r@) == list_row_view(app@, jobs@, tick),
{
    let mut spans: Vec<Span> = Vec::new();
    spans.push(list_tag(app, jobs, tick));
    spans.push(plain(" ".to_owned()));
    spans.push(plain(app.name.clone()));
    match &app.launch {
        Launch::Prebuilt { kind, .. } => {
            let mut text: String = "  ·".to_owned();
            text.append(kind.label());
            spans.push(styled(text, MUTED));
        },
        Launch::BuildOnly => {},
    }
    assert(line_view(spans@) =~= list_row_view(app@, jobs@, tick));
    spans
}

/// The status glyph of every row takes three cells, so the list stays aligned.
pub proof fn list_tags_are_three_cells(app: AppView, jobs: JobsView, tick: u64)
    ensures
        list_tag_view(app, jobs, tick).text.len() == 3,
{
    glyphs_are_three_cells();
    reveal_strlit("[");
    reveal_strlit("]");
}

/// The rows of the app list.
pub open spec fn list_rows_view(v: LauncherView) -> Seq<Seq<SpanView>> {
    v.apps.map_values(|app: AppView| list_row_view(app, v.jobs, v.tick))
}

/// The rows of the app list.
pub fn list_rows(launcher: &Launcher) -> (r: Vec<Vec<Span>>)
    requires
        launcher.wf(),
    ensures
        line_views(r@) == list_rows_view(launcher@),
{
    let mut rows: Vec<Vec<Span>> = Vec::new();
    let mut i: usize = 0;
    while i < launcher.apps.len()
        invariant
            launcher.wf(),
            i <= launcher.apps@.len(),
            rows@.len() == i,
            forall|j: int|
                0 <= j < i ==> line_view((#[trigger] rows@[j])@) == list_row_view(
                    launcher.apps@[j]@,
                    launcher@.jobs,
                    launcher.tick,
                ),
        decreases launcher.apps@.len() - i,
    {
        rows.push(list_row(&launcher.apps[i], &launcher.jobs, launcher.tick));
        i = i + 1;
    }
    assert(line_views(rows@) =~= list_rows_view(launcher@));
    rows
}

// --- the header ---------------------------------------------------------

/// The brand line.
pub open spec fn brand_view() -> Seq<SpanView> {
    seq![
        bold_view(BRAND_MARK@ + " freight"@, ACCENT),
        styled_view(" · cargo-bay"@, MUTED),
    ]
}

/// The brand line: `⚓ freight · cargo-bay`.
pub fn brand() -> (r: Vec<Span>)
    ensures
        line_view(r@) == brand_view(),
{
    let mut mark: String = BRAND_MARK.to_owned();
    mark.append(" freight");
    let mut spans: Vec<Span> = Vec::new();
    spans.push(bold(mark, ACCENT));
    spans.push(styled(" · cargo-bay".to_owned(), MUTED));
    assert(line_view(spans@) =~= brand_view());
    spans
}

/// The line that names a workspace, if its directory has a name, and counts its
/// apps.
pub open spec fn info_line_view(name: Option<Seq<char>>, count: nat) -> Seq<SpanView> {
    let workspace = match name {
        Some(name) => name,
        None => "workspace"@,
    };
    seq![styled_view(workspace + " · "@ + decimal(count) + " apps"@, MUTED)]
}

/// The workspace name and app count.
pub open spec fn info_view(v: LauncherView) -> Seq<SpanView> {
    info_line_view(path_name(v.catalog.root), v.apps.len())
}

/// The line that names a workspace, if its directory has a name, and counts its
/// apps.
pub fn info_line(name: &Option<String>, count: usize) -> (r: Vec<Span>)
    ensures
        line_view(r@) == info_line_view(text_of(*name), count as nat),
{
    let mut text: String = match name {
        Some(name) => name.clone(),
        None => "workspace".to_owned(),
    };
    text.append(" · ");
    text.append(number(count).as_str());
    text.append(" apps");
    line_of(styled(text, MUTED))
}

/// The workspace name and app count.
pub fn info(launcher: &Launcher) -> (r: Vec<Span>)
    ensures
        line_view(r@) == info_view(launcher@),
{
    info_line(&file_name(&launcher.catalog.root), launcher.apps.len())
}

/// `spans` with an entry of the legend behind.
pub open spec fn legend_item(
    spans: Seq<SpanView>,
    glyph: Seq<char>,
    color: Color,
    label: Seq<char>,
) -> Seq<SpanView> {
    spans.push(styled_view(glyph, color)).push(styled_view(" "@ + label + "  "@, MUTED))
}

/// The status-glyph key, colour-coded to match the list column.
pub open spec fn legend_view() -> Seq<SpanView> {
    let fresh = legend_item(Seq::empty(), G_FRESH@, FRESH, "fresh"@);
    let stale = legend_item(fresh, G_STALE@, STALE, "stale"@);
    let new = legend_item(stale, G_NEW@, NEW, "new"@);
    let running = legend_item(new, G_RUNNING@, RUNNING, "running"@);
    legend_item(running, G_FAILED@, FAILED, "failed"@)
}

/// Puts an entry of the legend behind `spans`.
fn push_legend_item(spans: &mut Vec<Span>, glyph: &str, color: Color, label: &str)
    ensures
        line_view(final(spans)@) == legend_item(line_view(old(spans)@), glyph@, color, label@),
{
    let mut text: String = " ".to_owned();
    text.append(label);
    text.append("  ");
    spans.push(styled(glyph.to_owned(), color));
    spans.push(styled(text, MUTED));
    assert(line_view(spans@) =~= legend_item(line_view(old(spans)@), glyph@, color, label@));
}

/// The status-glyph key, colour-coded to match the list column.
pub fn legend() -> (r: Vec<Span>)
    ensures
        line_view(r@) == legend_view(),
{
    let mut spans: Vec<Span> = Vec::new();
    assert(line_view(spans@) =~= Seq::<SpanView>::empty());
    push_legend_item(&mut spans, G_FRESH, FRESH, "fresh");
    push_legend_item(&mut spans, G_STALE, STALE, "stale");
    push_legend_item(&mut spans, G_NEW, NEW, "new");
    push_legend_item(&mut spans, G_RUNNING, RUNNING, "running");
    push_legend_item(&mut spans, G_FAILED, FAILED, "failed");
    spans
}

// --- the log console ----------------------------------------------------

/// `a - b`, or nothing where `b` is larger.
pub open spec fn less(a: int, b: int) -> int {
    if a >= b {
        a - b
    } else {
        0
    }
}

/// The lines of the log that a console of `height` rows shows: the last ones
/// that fit inside its border, `scroll` lines up from the end.
pub open spec fn console_lines(log: Seq<Seq<char>>, scroll: u16, height: u16) -> Seq<Seq<char>> {
    let end = less(log.len() as int, scroll as int);
    let start = less(end, less(height as int, 2));
    log.subrange(start, end)
}

/// The console never holds more lines than fit inside its border; when it is
/// not scrolled up, and a line fits, it ends with the newest line of the log.
pub proof fn console_follows_the_tail(log: Seq<Seq<char>>, scroll: u16, height: u16)
    ensures
        console_lines(log, scroll, height).len() <= less(height as int, 2),
        scroll == 0 && log.len() > 0 && height > 2 ==> console_lines(log, scroll, height).len() > 0
            && console_lines(log, scroll, height).last() == log.last(),
{
}

/// The lines that the log console shows (tail-following, one line per row).
pub fn console(log: &Vec<String>, scroll: u16, height: u16) -> (r: Vec<String>)
    ensures
        texts(r@) == console_lines(texts(log@), scroll, height),
{
    let visible: usize = if height >= 2 {
        (height - 2) as usize
    } else {
        0
    };
    let up: usize = scroll as usize;
    let end: usize = if log.len() >= up {
        log.len() - up
    } else {
        0
    };
    let start: usize = if end >= visible {
        end - visible
    } else {
        0
    };
    let mut lines: Vec<String> = Vec::new();
    let mut i: usize = start;
    while i < end
        invariant
            start <= i <= end <= log@.len(),
            lines@.len() == i - start,
            forall|j: int| 0 <= j < lines@.len() ==> (#[trigger] lines@[j])@ == log@[start + j]@,
        decreases end - i,
    {
        lines.push(log[i].clone());
        i = i + 1;
    }
    assert(texts(lines@) =~= console_lines(texts(log@), scroll, height));
    lines
}

// --- the detail panel ---------------------------------------------------

/// Human sentence describing what Enter will do for an app whose binary is
/// shown as `path`.
pub open spec fn run_line_view(app: AppView, path: Seq<char>) -> SpanView {
    match app.launch {
        Launch::Prebuilt { freshness, kind, .. } => if freshness == Freshness::Stale {
            styled_view(
                kind_label(kind) + "  "@ + path
                    + "  (stale — Enter runs it as-is · b then f rebuilds + runs)"@,
                STALE,
            )
        } else {
            styled_view(kind_label(kind) + "  "@ + path + "  (fresh)"@, FRESH)
        },
        Launch::BuildOnly => styled_view(
            "cargo run -p "@ + app.name + " (no prebuilt exe yet)"@,
            NEW,
        ),
    }
}

/// The text of the path that Enter will run, if there is one.
pub open spec fn launch_path(app: AppView) -> Seq<char> {
    match app.launch {
        Launch::Prebuilt { path, .. } => path_text(path),
        Launch::BuildOnly => Seq::empty(),
    }
}

/// The text of the path that Enter will run, if there is one.
fn shown_path(app: &AppEntry) -> (r: String)
    ensures
        r@ == launch_path(app@),
{
    match &app.launch {
        Launch::Prebuilt { path, .. } => display_path(path),
        Launch::BuildOnly => String::new(),
    }
}

/// Human sentence describing what Enter / left-click will do for this app,
/// whose binary is shown as `path`.
pub fn run_line(app: &AppEntry, path: &str) -> (r: Span)
    ensures
        r@ == run_line_view(app@, path@),
{
    match &app.launch {
        Launch::Prebuilt { freshness, kind, .. } => {
            let mut text: String = kind.label().to_owned();
            text.append("  ");
            text.append(path);
            match freshness {
                Freshness::Stale => {
                    text.append("  (stale — Enter runs it as-is · b then f rebuilds + runs)");
                    styled(text, STALE)
                },
                Freshness::Fresh => {
                    text.append("  (fresh)");
                    styled(text, FRESH)
                },
            }
        },
        Launch::BuildOnly => {
            let mut text: String = "cargo run -p ".to_owned();
            text.append(app.name.as_str());
            text.append(" (no prebuilt exe yet)");
            styled(text, NEW)
        },
    }
}

/// The words for how an app uses the console.
pub open spec fn kind_text(kind: AppKind) -> Seq<char> {
    match kind {
        AppKind::Windowed => "windowed — runs in the background, logs to the console (press l)"@,
        AppKind::Terminal => "terminal — takes over the screen while it runs"@,
    }
}

/// The detail panel of an app whose binary is shown as `path`.
pub open spec fn detail_lines_view(app: AppView, path: Seq<char>) -> Seq<Seq<SpanView>> {
    let desc = if app.description.len() == 0 {
        "(no description in Cargo.toml)"@
    } else {
        app.description
    };
    seq![
        seq![plain_view(desc)],
        seq![plain_view(""@)],
        seq![styled_view("runs: "@, MUTED), run_line_view(app, path)],
        seq![styled_view("kind: "@, MUTED), styled_view(kind_text(app.kind), MUTED)],
    ]
}

/// A panel of lines. Without a title its border is plain.
pub struct Panel {
    pub title: Option<String>,
    pub lines: Vec<Vec<Span>>,
}

/// The model of a [`Panel`].
pub struct PanelView {
    pub title: Option<Seq<char>>,
    pub lines: Seq<Seq<SpanView>>,
}

impl View for Panel {
    type V = PanelView;

    open spec fn view(&self) -> PanelView {
        PanelView { title: text_of(self.title), lines: line_views(self.lines@) }
    }
}

/// The app that the detail panel is about: the selected one, or the first.
pub open spec fn shown_app(v: LauncherView) -> Option<AppView> {
    let i = match v.state.selected {
        Some(i) => i as int,
        None => 0,
    };
    if i < v.apps.len() {
        Some(v.apps[i])
    } else {
        None
    }
}

/// The detail panel.
pub open spec fn detail_view(v: LauncherView) -> PanelView {
    match shown_app(v) {
        Some(app) => PanelView {
            title: Some(" "@ + app.name + " "@),
            lines: detail_lines_view(app, launch_path(app)),
        },
        None => PanelView { title: None, lines: seq![seq![plain_view(NO_APPS@)]] },
    }
}

/// A line of one span.
fn line_of(span: Span) -> (r: Vec<Span>)
    ensures
        line_view(r@) == seq![span@],
{
    let mut spans: Vec<Span> = Vec::new();
    spans.push(span);
    assert(line_view(spans@) =~= seq![span@]);
    spans
}

/// A line of two spans.
fn line_of_two(first: Span, second: Span) -> (r: Vec<Span>)
    ensures
        line_view(r@) == seq![first@, second@],
{
    let mut spans: Vec<Span> = Vec::new();
    spans.push(first);
    spans.push(second);
    assert(line_view(spans@) =~= seq![first@, second@]);
    spans
}

/// The detail panel of an app whose binary is shown as `path`.
pub fn detail_lines(app: &AppEntry, path: &str) -> (r: Vec<Vec<Span>>)
    ensures
        line_views(r@) == detail_lines_view(app@, path@),
{
    let desc: String = if app.description.as_str().unicode_len() == 0 {
        "(no description in Cargo.toml)".to_owned()
    } else {
        app.description.clone()
    };
    let kind: &'static str = match app.kind {
        AppKind::Windowed => "windowed — runs in the background, logs to the console (press l)",
        AppKind::Terminal => "terminal — takes over the screen while it runs",
    };
    let mut lines: Vec<Vec<Span>> = Vec::new();
    lines.push(line_of(plain(desc)));
    lines.push(line_of(plain("".to_owned())));
    lines.push(line_of_two(styled("runs: ".to_owned(), MUTED), run_line(app, path)));
    lines.push(
        line_of_two(styled("kind: ".to_owned(), MUTED), styled(kind.to_owned(), MUTED)),
    );
    assert(line_views(lines@) =~= detail_lines_view(app@, path@));
    lines
}

/// The detail panel.
pub fn detail(launcher: &Launcher) -> (r: Panel)
    ensures
        r@ == detail_view(launcher@),
{
    let i: usize = match launcher.state.selected {
        Some(i) => i,
        None => 0,
    };
    if i < launcher.apps.len() {
        let app = &launcher.apps[i];
        assert(launcher@.apps[i as int] == app@);
        let path: String = shown_path(app);
        let mut title: String = " ".to_owned();
        title.append(app.name.as_str());
        title.append(" ");
        Panel { title: Some(title), lines: detail_lines(app, path.as_str()) }
    } else {
        let mut lines: Vec<Vec<Span>> = Vec::new();
        lines.push(line_of(plain(NO_APPS.to_owned())));
        assert(line_views(lines@) =~= seq![seq![plain_view(NO_APPS@)]]);
        Panel { title: None, lines }
    }
}

// --- the footer ---------------------------------------------------------

/// `spans` with a key hint behind.
pub open spec fn with_hint(
    spans: Seq<SpanView>,
    key: Seq<char>,
    label: Seq<char>,
) -> Seq<SpanView> {
    spans.push(styled_view(key, ACCENT)).push(plain_view(" "@ + label + "  "@))
}

/// The key hints for a screen.
pub open spec fn hints_view(screen: ScreenView) -> Seq<SpanView> {
    let none = Seq::<SpanView>::empty();
    match screen {
        ScreenView::List => {
            let enter = with_hint(none, "Enter"@, "run"@);
            let release = with_hint(enter, "r"@, "release"@);
            let debug = with_hint(release, "d"@, "debug"@);
            let versions = with_hint(debug, "b"@, "versions"@);
            let rebuild = with_hint(versions, "R"@, "rebuild"@);
            let log = with_hint(rebuild, "l"@, "log"@);
            let cancel = with_hint(log, "x"@, "cancel"@);
            with_hint(cancel, "q"@, "quit"@)
        },
        ScreenView::Run { .. } => {
            let up = with_hint(none, "up/down"@, "move"@);
            let enter = with_hint(up, "Enter/click"@, "run as-is"@);
            let force = with_hint(enter, "f"@, "rebuild + run"@);
            with_hint(force, "Esc"@, "back"@)
        },
    }
}

/// The summary of the builds, if there are any.
pub open spec fn builds_view(jobs: JobsView) -> Seq<SpanView> {
    let building = build_count(jobs.running);
    let queued = jobs.queue.len();
    if building + queued > 0 {
        seq![
            styled_view(
                "building "@ + decimal(building) + ", queued "@ + decimal(queued) + "  "@,
                BUILDING,
            ),
        ]
    } else {
        Seq::empty()
    }
}

/// The status line, if there is one.
pub open spec fn status_view(status: Seq<char>) -> Seq<SpanView> {
    if status.len() > 0 {
        seq![styled_view(status, MUTED)]
    } else {
        Seq::empty()
    }
}

/// The footer: key hints, the builds, the status line.
pub open spec fn footer_view(v: LauncherView) -> Seq<SpanView> {
    hints_view(v.screen) + builds_view(v.jobs) + status_view(v.status)
}

/// Puts a key hint behind `spans`.
fn push_hint(spans: &mut Vec<Span>, key: &str, label: &str)
    ensures
        line_view(final(spans)@) == with_hint(line_view(old(spans)@), key@, label@),
{
    let mut text: String = " ".to_owned();
    text.append(label);
    text.append("  ");
    spans.push(styled(key.to_owned(), ACCENT));
    spans.push(plain(text));
    assert(line_view(spans@) =~= with_hint(line_view(old(spans)@), key@, label@));
}

/// The key hints for a screen.
pub fn hints(screen: &Screen) -> (r: Vec<Span>)
    ensures
        line_view(r@) == hints_view(screen@),
{
    let mut spans: Vec<Span> = Vec::new();
    assert(line_view(spans@) =~= Seq::<SpanView>::empty());
    match screen {
        Screen::List => {
            push_hint(&mut spans, "Enter", "run");
            push_hint(&mut spans, "r", "release");
            push_hint(&mut spans, "d", "debug");
            push_hint(&mut spans, "b", "versions");
            push_hint(&mut spans, "R", "rebuild");
            push_hint(&mut spans, "l", "log");
            push_hint(&mut spans, "x", "cancel");
            push_hint(&mut spans, "q", "quit");
        },
        Screen::Run { .. } => {
            push_hint(&mut spans, "up/down", "move");
            push_hint(&mut spans, "Enter/click", "run as-is");
            push_hint(&mut spans, "f", "rebuild + run");
            push_hint(&mut spans, "Esc", "back");
        },
    }
    spans
}

/// The footer: key hints, the builds, the status line.
pub fn footer(launcher: &Launcher) -> (r: Vec<Span>)
    ensures
        line_view(r@) == footer_view(launcher@),
{
    let mut spans: Vec<Span> = hints(&launcher.screen);
    let (building, queued): (usize, usize) = launcher.jobs.counts();
    if building > 0 || queued > 0 {
        let mut text: String = "building ".to_owned();
        text.append(number(building).as_str());
        text.append(", queued ");
        text.append(number(queued).as_str());
        text.append("  ");
        spans.push(styled(text, BUILDING));
    }
    if launcher.status.as_str().unicode_len() > 0 {
        spans.push(styled(launcher.status.clone(), MUTED));
    }
    assert(line_view(spans@) =~= footer_view(launcher@));
    spans
}

// --- the version picker -------------------------------------------------

/// The picker as it is shown.
pub struct PickerBox {
    pub area: Rect,
    pub title: String,
    pub items: Vec<String>,
    pub sel: usize,
}

/// The model of a [`PickerBox`].
pub struct PickerView {
    pub area: Rect,
    pub title: Seq<char>,
    pub items: Seq<Seq<char>>,
    pub sel: usize,
}

impl View for PickerBox {
    type V = PickerView;

    open spec fn view(&self) -> PickerView {
        PickerView {
            area: self.area,
            title: self.title@,
            items: texts(self.items@),
            sel: self.sel,
        }
    }
}

/// Where the picker with this many choices stands on the screen `area`.
pub open spec fn picker_area(area: Rect, count: nat) -> Rect {
    centered_in(area, 72, (count + 2) as u16)
}

/// The picker as it is shown over the screen `area`, if it is open.
pub open spec fn picker_view(screen: ScreenView, area: Rect) -> Option<PickerView> {
    match screen {
        ScreenView::Run { app, choices, sel, .. } => Some(
            PickerView {
                area: picker_area(area, choices.len()),
                title: " run: "@ + app + " "@,
                items: choices.map_values(|c: ChoiceView| c.label),
                sel,
            },
        ),
        ScreenView::List => None,
    }
}

/// The picker as it is shown over the screen `area`, if it is open.
pub fn picker(screen: &Screen, area: Rect) -> (r: Option<PickerBox>)
    requires
        screen_ok(screen@),
        area.wf(),
    ensures
        r is Some <==> picker_view(screen@, area) is Some,
        r matches Some(p) ==> p@ == picker_view(screen@, area)->0 && p.area.wf() && p.area.within(
            area,
        ),
{
    match screen {
        Screen::Run { app, choices, sel, .. } => {
            let mut title: String = " run: ".to_owned();
            title.append(app.as_str());
            title.append(" ");
            let mut items: Vec<String> = Vec::new();
            let mut i: usize = 0;
            while i < choices.len()
                invariant
                    i <= choices@.len(),
                    items@.len() == i,
                    forall|j: int| 0 <= j < i ==> (#[trigger] items@[j])@ == choices@[j].label@,
                decreases choices@.len() - i,
            {
                items.push(choices[i].label.clone());
                i = i + 1;
            }
            assert(choice_views(choices@).len() <= 3);
            let area: Rect = centered(area, 72, choices.len() as u16 + 2);
            assert(texts(items@) =~= choice_views(choices@).map_values(|c: ChoiceView| c.label));
            Some(PickerBox { area, title, items, sel: *sel })
        },
        Screen::List => None,
    }
}

// --- where everything stands --------------------------------------------

/// The height of the docked log on a screen of this height: a third of it,
/// within sane bounds.
pub open spec fn log_height(height: u16) -> u16 {
    if height / 3 < 6 {
        6
    } else if height / 3 > 16 {
        16
    } else {
        height / 3
    }
}

/// What the rows of the screen ask for: header, body, the log if it is open,
/// footer.
pub open spec fn screen_shares(height: u16, console_on: bool) -> Seq<Share> {
    if console_on {
        seq![
            Share::Length(HEADER_HEIGHT),
            Share::Min(3),
            Share::Length(log_height(height)),
            Share::Length(3),
        ]
    } else {
        seq![Share::Length(HEADER_HEIGHT), Share::Min(3), Share::Length(3)]
    }
}

/// What the columns of the body ask for: the list, the detail panel.
pub open spec fn body_shares() -> Seq<Share> {
    seq![Share::Percentage(38), Share::Percentage(62)]
}

/// What the lines of the header ask for.
pub open spec fn header_shares() -> Seq<Share> {
    seq![Share::Length(1), Share::Length(1)]
}

/// What the halves of the header's first line ask for.
pub open spec fn half_shares() -> Seq<Share> {
    seq![Share::Percentage(50), Share::Percentage(50)]
}

/// What the rows of the screen ask for.
pub fn row_shares(height: u16, console_on: bool) -> (r: Vec<Share>)
    ensures
        r@ == screen_shares(height, console_on),
{
    let third: u16 = height / 3;
    let log: u16 = if third < 6 {
        6
    } else if third > 16 {
        16
    } else {
        third
    };
    let mut shares: Vec<Share> = Vec::new();
    shares.push(Share::Length(HEADER_HEIGHT));
    shares.push(Share::Min(3));
    if console_on {
        shares.push(Share::Length(log));
    }
    shares.push(Share::Length(3));
    assert(shares@ =~= screen_shares(height, console_on));
    shares
}

/// Two shares.
fn two_shares(first: Share, second: Share) -> (r: Vec<Share>)
    ensures
        r@ == seq![first, second],
{
    let mut shares: Vec<Share> = Vec::new();
    shares.push(first);
    shares.push(second);
    assert(shares@ =~= seq![first, second]);
    shares
}

/// The pieces into which the screen is split.
pub struct Splits {
    /// The rows of the screen.
    pub rows: Vec<Rect>,
    /// The columns of the body.
    pub columns: Vec<Rect>,
    /// The lines of the header.
    pub lines: Vec<Rect>,
    /// The halves of the header's first line.
    pub halves: Vec<Rect>,
}

/// `pieces` are what a split of `area` along `direction` gave for `shares`.
pub open spec fn split_from(
    direction: Direction,
    shares: Seq<Share>,
    area: Rect,
    pieces: Seq<Rect>,
) -> bool {
    &&& may_split_into(direction, shares, area, pieces)
    &&& is_split(pieces, direction, shares.len(), area)
}

impl Splits {
    /// The screen `area` was split for its panels.
    pub open spec fn fit(&self, area: Rect, console_on: bool) -> bool {
        &&& split_from(
            Direction::Vertical,
            screen_shares(area.height, console_on),
            area,
            self.rows@,
        )
        &&& split_from(Direction::Horizontal, body_shares(), self.rows@[1], self.columns@)
        &&& split_from(Direction::Vertical, header_shares(), self.rows@[0], self.lines@)
        &&& split_from(Direction::Horizontal, half_shares(), self.lines@[0], self.halves@)
    }
}

/// Where each panel stands.
#[derive(Clone, Copy, PartialEq, Eq, Structural, Debug)]
pub struct Regions {
    pub brand: Rect,
    pub info: Rect,
    pub legend: Rect,
    pub list: Rect,
    pub detail: Rect,
    /// The log console, while it is open.
    pub console: Option<Rect>,
    pub footer: Rect,
}

impl Regions {
    /// The far edges of all panels fit in a coordinate.
    pub open spec fn wf(self) -> bool {
        &&& self.brand.wf()
        &&& self.info.wf()
        &&& self.legend.wf()
        &&& self.list.wf()
        &&& self.detail.wf()
        &&& self.console matches Some(c) ==> c.wf()
        &&& self.footer.wf()
    }
}

/// Where each panel stands on a screen that was split like this.
pub open spec fn arranged(s: Splits, console_on: bool) -> Regions {
    Regions {
        brand: s.halves@[0],
        info: s.halves@[1],
        legend: s.lines@[1],
        list: s.columns@[0],
        detail: s.columns@[1],
        console: if console_on {
            Some(s.rows@[2])
        } else {
            None
        },
        footer: if console_on {
            s.rows@[3]
        } else {
            s.rows@[2]
        },
    }
}

/// The panels stand where a split of the screen `area` puts them.
pub open spec fn is_laid_out(regions: Regions, area: Rect, console_on: bool) -> bool {
    exists|s: Splits| #[trigger] s.fit(area, console_on) && regions == arranged(s, console_on)
}

/// Splits the screen for its panels.
pub fn split_screen(area: Rect, console_on: bool) -> (r: Splits)
    requires
        area.wf(),
    ensures
        r.fit(area, console_on),
{
    let rows = split(Direction::Vertical, &row_shares(area.height, console_on), area);
    let columns = split(
        Direction::Horizontal,
        &two_shares(Share::Percentage(38), Share::Percentage(62)),
        rows[1],
    );
    let lines = split(
        Direction::Vertical,
        &two_shares(Share::Length(1), Share::Length(1)),
        rows[0],
    );
    let halves = split(
        Direction::Horizontal,
        &two_shares(Share::Percentage(50), Share::Percentage(50)),
        lines[0],
    );
    Splits { rows, columns, lines, halves }
}

/// Where each panel stands on a screen that was split like this.
pub fn arrange(s: &Splits, console_on: bool) -> (r: Regions)
    requires
        s.rows@.len() == if console_on {
            4int
        } else {
            3
        },
        s.columns@.len() == 2,
        s.lines@.len() == 2,
        s.halves@.len() == 2,
    ensures
        r == arranged(*s, console_on),
{
    Regions {
        brand: s.halves[0],
        info: s.halves[1],
        legend: s.lines[1],
        list: s.columns[0],
        detail: s.columns[1],
        console: if console_on {
            Some(s.rows[2])
        } else {
            None
        },
        footer: if console_on {
            s.rows[3]
        } else {
            s.rows[2]
        },
    }
}

/// Every panel stays on the screen, and so do the insides of the list's border.
pub proof fn panels_stay_on_the_screen(regions: Regions, area: Rect, console_on: bool)
    requires
        area.wf(),
        is_laid_out(regions, area, console_on),
    ensures
        regions.wf(),
        regions.brand.within(area),
        regions.info.within(area),
        regions.legend.within(area),
        regions.list.within(area),
        inside_border(regions.list).within(area),
        regions.detail.within(area),
        regions.console is Some <==> console_on,
        regions.console matches Some(c) ==> c.within(area),
        regions.footer.within(area),
{
    let s = choose|s: Splits| #[trigger]
        s.fit(area, console_on) && regions == arranged(s, console_on);
    let rows = s.rows@;
    assert(rows[0].within(area) && rows[1].within(area) && rows[2].within(area));
    if console_on {
        assert(rows[3].within(area));
    }
    assert(s.columns@[0].within(rows[1]) && s.columns@[1].within(rows[1]));
    assert(s.lines@[0].within(rows[0]) && s.lines@[1].within(rows[0]));
    assert(s.halves@[0].within(s.lines@[0]) && s.halves@[1].within(s.lines@[0]));
}

// --- the whole screen ---------------------------------------------------

/// Everything the screen shows, and where.
pub struct Painting {
    pub regions: Regions,
    pub brand: Vec<Span>,
    pub info: Vec<Span>,
    pub legend: Vec<Span>,
    pub rows: Vec<Vec<Span>>,
    pub detail: Panel,
    /// The lines in the log console, while it is open.
    pub console: Option<Vec<String>>,
    pub footer: Vec<Span>,
    /// The version picker, while it is open.
    pub picker: Option<PickerBox>,
}

/// The model of a [`Painting`].
pub struct PaintingView {
    pub regions: Regions,
    pub brand: Seq<SpanView>,
    pub info: Seq<SpanView>,
    pub legend: Seq<SpanView>,
    pub rows: Seq<Seq<SpanView>>,
    pub detail: PanelView,
    pub console: Option<Seq<Seq<char>>>,
    pub footer: Seq<SpanView>,
    pub picker: Option<PickerView>,
}

impl View for Painting {
    type V = PaintingView;

    open spec fn view(&self) -> PaintingView {
        PaintingView {
            regions: self.regions,
            brand: line_view(self.brand@),
            info: line_view(self.info@),
            legend: line_view(self.legend@),
            rows: line_views(self.rows@),
            detail: self.detail@,
            console: match self.console {
                Some(lines) => Some(texts(lines@)),
                None => None,
            },
            footer: line_view(self.footer@),
            picker: match self.picker {
                Some(p) => Some(p@),
                None => None,
            },
        }
    }
}

/// What the screen `area` shows of the launcher and the log, with its panels
/// at `regions`.
pub open spec fn painted(
    v: LauncherView,
    log: Seq<Seq<char>>,
    area: Rect,
    regions: Regions,
) -> PaintingView {
    PaintingView {
        regions,
        brand: brand_view(),
        info: info_view(v),
        legend: legend_view(),
        rows: list_rows_view(v),
        detail: detail_view(v),
        console: match regions.console {
            Some(c) => Some(console_lines(log, v.jobs.console_scroll, c.height)),
            None => None,
        },
        footer: footer_view(v),
        picker: picker_view(v.screen, area),
    }
}

/// The launcher, knowing where the panels stand that take clicks.
pub open spec fn areas_noted(v: LauncherView, area: Rect, regions: Regions) -> LauncherView {
    LauncherView {
        list_inner: inside_border(regions.list),
        detail_area: regions.detail,
        console_area: match regions.console {
            Some(c) => c,
            None => no_area(),
        },
        picker_inner: match v.screen {
            ScreenView::Run { choices, .. } => inside_border(picker_area(area, choices.len())),
            ScreenView::List => v.picker_inner,
        },
        ..v
    }
}

/// While the console is hidden, no cell is on it.
pub proof fn hidden_console_takes_no_clicks(v: LauncherView, area: Rect, regions: Regions)
    requires
        regions.console is None,
    ensures
        forall|col: int, row: int|
            !#[trigger] areas_noted(v, area, regions).console_area.covers(col, row),
{
}

/// Composes the screen with its panels at `regions`, and takes note of where
/// those stand that take clicks.
pub fn paint(launcher: &mut Launcher, log: &Vec<String>, area: Rect, regions: Regions) -> (r:
    Painting)
    requires
        old(launcher).wf(),
        area.wf(),
        regions.wf(),
    ensures
        final(launcher).wf(),
        final(launcher)@ == areas_noted(old(launcher)@, area, regions),
        r@ == painted(old(launcher)@, texts(log@), area, regions),
{
    let picker = picker(&launcher.screen, area);
    let console: Option<Vec<String>> = match regions.console {
        Some(c) => Some(console(log, launcher.jobs.console_scroll, c.height)),
        None => None,
    };
    let r = Painting {
        regions,
        brand: brand(),
        info: info(launcher),
        legend: legend(),
        rows: list_rows(launcher),
        detail: detail(launcher),
        console,
        footer: footer(launcher),
        picker,
    };
    launcher.list_inner = bordered_inner(regions.list);
    launcher.detail_area = regions.detail;
    launcher.console_area = match regions.console {
        Some(c) => c,
        None => Rect::empty(),
    };
    match &r.picker {
        Some(p) => {
            launcher.picker_inner = bordered_inner(p.area);
        },
        None => {},
    }
    r
}

/// Composes the screen `area`: lays out its panels, says what each one shows,
/// and takes note of where those stand that take clicks.
pub fn draw(launcher: &mut Launcher, log: &Vec<String>, area: Rect) -> (r: Painting)
    requires
        old(launcher).wf(),
        area.wf(),
    ensures
        final(launcher).wf(),
        is_laid_out(r.regions, area, old(launcher)@.jobs.console_visible),
        final(launcher)@ == areas_noted(old(launcher)@, area, r.regions),
        r@ == painted(old(launcher)@, texts(log@), area, r.regions),
{
    let console_on = launcher.jobs.console_visible;
    let splits = split_screen(area, console_on);
    let regions = arrange(&splits, console_on);
    proof {
        panels_stay_on_the_screen(regions, area, console_on);
    }
    paint(launcher, log, area, regions)
}

// --- the splash ---------------------------------------------------------

/// A box of centered lines.
pub struct Splash {
    pub area: Rect,
    pub lines: Vec<Vec<Span>>,
}

/// The lines of the splash.
pub open spec fn splash_lines(tick: u64) -> Seq<Seq<SpanView>> {
    seq![
        brand_view(),
        seq![plain_view(""@)],
        seq![
            styled_view(seq![spinner_frame(tick)] + "  scanning the workspace…"@, MUTED),
        ],
    ]
}

/// The pre-launch splash shown while the workspace is scanned, so a big one
/// never greets the user with a blank terminal.
pub fn draw_loading(area: Rect, tick: u64) -> (r: Splash)
    requires
        area.wf(),
    ensures
        r.area == centered_in(area, 46, 5),
        line_views(r.lines@) == splash_lines(tick),
{
    let mut text: String = spinner_text(tick).to_owned();
    text.append("  scanning the workspace…");
    let mut lines: Vec<Vec<Span>> = Vec::new();
    lines.push(brand());
    lines.push(line_of(plain("".to_owned())));
    lines.push(line_of(styled(text, MUTED)));
    assert(line_views(lines@) =~= splash_lines(tick));
    Splash { area: centered(area, 46, 5), lines }
}

// --- the plain listing --------------------------------------------------

/// The line of the plain listing for an app whose binary is shown as `path`.
pub open spec fn list_line_text(app: AppView, path: Seq<char>) -> Seq<char> {
    let tag = match app.launch {
        Launch::Prebuilt { freshness, .. } => if freshness == Freshness::Fresh {
            "fresh"@
        } else {
            "stale"@
        },
        Launch::BuildOnly => "build"@,
    };
    let kind = match app.kind {
        AppKind::Windowed => "windowed"@,
        AppKind::Terminal => "terminal"@,
    };
    let runs = match app.launch {
        Launch::Prebuilt { .. } => path,
        Launch::BuildOnly => "cargo run -p "@ + app.name,
    };
    padded(tag, 7) + " "@ + padded(kind, 8) + " "@ + padded(app.name, 22) + " "@ + runs
}

/// The plain listing.
pub open spec fn listing(apps: Seq<AppView>) -> Seq<Seq<char>> {
    apps.map_values(|app: AppView| list_line_text(app, launch_path(app)))
}

/// The line of the plain listing for an app whose binary is shown as `path`.
pub fn list_line(app: &AppEntry, path: &str) -> (r: String)
    ensures
        r@ == list_line_text(app@, path@),
{
    let tag: &'static str = match &app.launch {
        Launch::Prebuilt { freshness, .. } => match freshness {
            Freshness::Fresh => "fresh",
            Freshness::Stale => "stale",
        },
        Launch::BuildOnly => "build",
    };
    let kind: &'static str = match app.kind {
        AppKind::Windowed => "windowed",
        AppKind::Terminal => "terminal",
    };
    let runs: String = match &app.launch {
        Launch::Prebuilt { .. } => path.to_owned(),
        Launch::BuildOnly => {
            let mut text: String = "cargo run -p ".to_owned();
            text.append(app.name.as_str());
            text
        },
    };
    let mut out: String = pad(tag, 7);
    out.append(" ");
    out.append(pad(kind, 8).as_str());
    out.append(" ");
    out.append(pad(app.name.as_str(), 22).as_str());
    out.append(" ");
    out.append(runs.as_str());
    out
}

/// The plain-text listing (scriptable; no screen), one line per app.
pub fn print_list(apps: &Vec<AppEntry>) -> (r: Vec<String>)
    ensures
        texts(r@) == listing(app_views(apps@)),
{
    let mut lines: Vec<String> = Vec::new();
    let mut i: usize = 0;
    while i < apps.len()
        invariant
            i <= apps@.len(),
            lines@.len() == i,
            forall|j: int|
                0 <= j < i ==> (#[trigger] lines@[j])@ == list_line_text(
                    apps@[j]@,
                    launch_path(apps@[j]@),
                ),
        decreases apps@.len() - i,
    {
        let path: String = shown_path(&apps[i]);
        lines.push(list_line(&apps[i], path.as_str()));
        i = i + 1;
    }
    assert(texts(lines@) =~= listing(app_views(apps@)));
    lines
}

} // verus!
