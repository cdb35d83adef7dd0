use cargo_bay::discover::{AppEntry, AppKind, BinKind, Catalog, Freshness, Launch, Prebuilt};
use cargo_bay::geometry::{centered, contains, Rect, Share};
use cargo_bay::job::AppStatus;
use cargo_bay::launcher::{Launcher, Screen};
use cargo_bay::text_map::TextMap;
use cargo_bay::theme::{Color, Span, BRAND_MARK};
use cargo_bay::ui::{
    arrange, brand, console, detail, detail_lines, draw, draw_loading, footer, freshness_suffix,
    freshness_tag, hints, info, info_line, legend, list_line, list_row, list_tag, paint, picker, print_list,
    row_shares, run_line, split_screen, Regions, Splits,
};
use std::path::PathBuf;

fn rect(x: u16, y: u16, width: u16, height: u16) -> Rect {
    Rect { x, y, width, height }
}

fn app(name: &str, kind: AppKind, binary: Option<(BinKind, Freshness)>) -> AppEntry {
    let prebuilts = match binary {
        Some((kind, freshness)) => vec![Prebuilt {
            kind,
            path: PathBuf::from(format!("/t/{name}")),
            freshness,
            mtime: 1,
        }],
        None => vec![],
    };
    let launch = match binary {
        Some((kind, freshness)) => Launch::Prebuilt {
            path: PathBuf::from(format!("/t/{name}")),
            freshness,
            kind,
        },
        None => Launch::BuildOnly,
    };
    AppEntry {
        name: name.to_string(),
        description: if name == "edit" { "an editor".to_string() } else { String::new() },
        kind,
        launch,
        prebuilts,
    }
}

fn launcher() -> Launcher {
    let apps = vec![
        app("edit", AppKind::Terminal, Some((BinKind::Debug, Freshness::Stale))),
        app("game", AppKind::Windowed, Some((BinKind::Release, Freshness::Fresh))),
        app("new", AppKind::Terminal, None),
    ];
    Launcher::new(
        apps,
        Catalog {
            root: PathBuf::from("/home/me/yard"),
            target_dir: PathBuf::from("/home/me/yard/target"),
            metas: vec![],
            member_dirs: TextMap::new(),
            closures: TextMap::new(),
            dep_graph: false,
            prefer_release: false,
        },
    )
}

fn text(line: &[Span]) -> String {
    line.iter().map(|s| s.text.as_str()).collect()
}

fn span(s: &Span) -> (&str, Option<Color>, bool) {
    (s.text.as_str(), s.color, s.bold)
}

#[test]
fn cells_belong_to_their_rectangle() {
    let a = rect(2, 3, 4, 2);
    assert!(contains(a, 2, 3));
    assert!(contains(a, 5, 4));
    assert!(!contains(a, 6, 4));
    assert!(!contains(a, 5, 5));
    assert!(!contains(a, 1, 3));
    assert!(!contains(a, 2, 2));
    assert!(!contains(rect(0, 0, 0, 0), 0, 0));
    assert_eq!(Rect::empty(), rect(0, 0, 0, 0));
}

#[test]
fn boxes_are_centered_and_cut_to_fit() {
    assert_eq!(centered(rect(0, 0, 80, 24), 46, 5), rect(17, 9, 46, 5));
    assert_eq!(centered(rect(10, 10, 81, 25), 46, 5), rect(27, 20, 46, 5));
    assert_eq!(centered(rect(0, 0, 20, 3), 46, 5), rect(0, 0, 20, 3));
}

#[test]
fn freshness_has_notes() {
    assert_eq!(freshness_suffix(Freshness::Stale), "  (stale)");
    assert_eq!(freshness_suffix(Freshness::Fresh), "  (fresh)");
}

#[test]
fn freshness_has_glyphs() {
    let l = launcher();
    assert_eq!(span(&freshness_tag(&l.apps[0])), ("[*]", Some(Color::Yellow), false));
    assert_eq!(span(&freshness_tag(&l.apps[1])), ("[+]", Some(Color::Green), false));
    assert_eq!(span(&freshness_tag(&l.apps[2])), ("[.]", Some(Color::Blue), false));
}

#[test]
fn a_live_job_comes_before_freshness() {
    let mut l = launcher();
    let tag = |l: &Launcher, status: Option<AppStatus>, tick: u64| {
        let mut jobs = cargo_bay::job::Jobs::new(PathBuf::from("/"));
        if let Some(s) = status {
            jobs.status.insert("edit".to_string(), s);
        }
        let s = list_tag(&l.apps[0], &jobs, tick);
        (s.text, s.color)
    };
    assert_eq!(tag(&l, None, 0), ("[*]".to_string(), Some(Color::Yellow)));
    assert_eq!(tag(&l, Some(AppStatus::Queued), 0), ("[q]".to_string(), Some(Color::DarkGray)));
    assert_eq!(tag(&l, Some(AppStatus::Running), 0), ("[>]".to_string(), Some(Color::Cyan)));
    assert_eq!(tag(&l, Some(AppStatus::BuildFailed), 0), ("[!]".to_string(), Some(Color::Red)));
    for (tick, glyph) in [(0, "[|]"), (1, "[/]"), (2, "[-]"), (3, "[\\]"), (4, "[|]")] {
        assert_eq!(
            tag(&l, Some(AppStatus::Building), tick),
            (glyph.to_string(), Some(Color::Yellow))
        );
    }
    l.jobs.enqueue_build("edit");
    assert_eq!(list_tag(&l.apps[0], &l.jobs, 0).text, "[q]");
    assert_eq!(list_tag(&l.apps[1], &l.jobs, 0).text, "[+]");
}

#[test]
fn rows_show_what_enter_will_run() {
    let l = launcher();
    let row = list_row(&l.apps[0], &l.jobs, 0);
    assert_eq!(text(&row), "[*] edit  ·debug");
    assert_eq!(span(&row[3]), ("  ·debug", Some(Color::DarkGray), false));
    assert_eq!(span(&row[2]), ("edit", None, false));
    assert_eq!(text(&list_row(&l.apps[1], &l.jobs, 0)), "[+] game  ·release");
    assert_eq!(text(&list_row(&l.apps[2], &l.jobs, 0)), "[.] new");
}

#[test]
fn the_header_names_brand_and_workspace() {
    let mut l = launcher();
    let b = brand();
    assert_eq!(span(&b[0]), ("⚓ freight", Some(Color::Cyan), true));
    assert_eq!(span(&b[1]), (" · cargo-bay", Some(Color::DarkGray), false));
    assert_eq!(BRAND_MARK, "⚓");
    assert_eq!(text(&info(&l)), "yard · 3 apps");
    l.catalog.root = PathBuf::from("/");
    assert_eq!(text(&info(&l)), "workspace · 3 apps");
    assert_eq!(text(&info_line(&Some("dock".to_string()), 0)), "dock · 0 apps");
    assert_eq!(text(&info_line(&None, 12)), "workspace · 12 apps");
}

#[test]
fn the_legend_explains_the_glyphs() {
    let spans = legend();
    assert_eq!(
        text(&spans),
        "[+] fresh  [*] stale  [.] new  [>] running  [!] failed  "
    );
    assert_eq!(spans.len(), 10);
    assert_eq!(span(&spans[8]), ("[!]", Some(Color::Red), false));
    assert_eq!(span(&spans[9]), (" failed  ", Some(Color::DarkGray), false));
}

#[test]
fn the_console_follows_the_tail() {
    let log: Vec<String> = (0..10).map(|i| i.to_string()).collect();
    assert_eq!(console(&log, 0, 6), ["6", "7", "8", "9"]);
    assert_eq!(console(&log, 3, 6), ["3", "4", "5", "6"]);
    assert_eq!(console(&log, 8, 6), ["0", "1"]);
    assert!(console(&log, 10, 6).is_empty());
    assert!(console(&log, 99, 6).is_empty());
    assert!(console(&log, 0, 2).is_empty());
    assert!(console(&log, 0, 0).is_empty());
    assert_eq!(console(&log, 0, 100).len(), 10);
}

#[test]
fn the_detail_panel_tells_what_runs() {
    let mut l = launcher();
    let panel = detail(&l);
    assert_eq!(panel.title.as_deref(), Some(" edit "));
    let lines: Vec<String> = panel.lines.iter().map(|s| text(s)).collect();
    assert_eq!(
        lines,
        [
            "an editor",
            "",
            "runs: debug  /t/edit  (stale — Enter runs it as-is · b then f rebuilds + runs)",
            "kind: terminal — takes over the screen while it runs",
        ]
    );
    l.move_selection(1);
    let lines: Vec<String> = detail(&l).lines.iter().map(|s| text(s)).collect();
    assert_eq!(lines[0], "(no description in Cargo.toml)");
    assert_eq!(lines[2], "runs: release  /t/game  (fresh)");
    assert_eq!(
        lines[3],
        "kind: windowed — runs in the background, logs to the console (press l)"
    );
    l.move_selection(1);
    assert_eq!(text(&detail(&l).lines[2]), "runs: cargo run -p new (no prebuilt exe yet)");
}

#[test]
fn run_lines_have_the_colour_of_freshness() {
    let l = launcher();
    assert_eq!(run_line(&l.apps[0], "p").color, Some(Color::Yellow));
    assert_eq!(span(&run_line(&l.apps[1], "p")), ("release  p  (fresh)", Some(Color::Green), false));
    assert_eq!(run_line(&l.apps[2], "p").color, Some(Color::Blue));
    assert_eq!(detail_lines(&l.apps[1], "p").len(), 4);
}

#[test]
fn without_apps_the_detail_panel_says_so() {
    let mut l = launcher();
    l.apps.clear();
    l.state.select(None);
    let panel = detail(&l);
    assert!(panel.title.is_none());
    assert_eq!(panel.lines.len(), 1);
    assert_eq!(text(&panel.lines[0]), "No apps found.");
}

const LIST_HINTS: &str = "Enter run  r release  d debug  b versions  R rebuild  l log  x cancel  q quit  ";

#[test]
fn the_footer_hints_at_the_keys() {
    let mut l = launcher();
    assert_eq!(text(&hints(&l.screen)), LIST_HINTS);
    assert_eq!(text(&footer(&l)), LIST_HINTS);
    assert_eq!(span(&footer(&l)[0]), ("Enter", Some(Color::Cyan), false));
    assert_eq!(span(&footer(&l)[1]), (" run  ", None, false));
    l.open_run_picker();
    assert_eq!(
        text(&footer(&l)),
        "up/down move  Enter/click run as-is  f rebuild + run  Esc back  "
    );
}

#[test]
fn the_footer_sums_up_the_builds() {
    let mut l = launcher();
    l.rebuild_all();
    l.jobs.build_spawned(None, &mut Vec::new());
    let spans = footer(&l);
    assert_eq!(spans.len(), 18);
    assert_eq!(span(&spans[16]), ("building 1, queued 1  ", Some(Color::Yellow), false));
    assert_eq!(span(&spans[17]), ("queued 2 build(s)", Some(Color::DarkGray), false));
}

#[test]
fn the_picker_stands_in_the_middle() {
    let mut l = launcher();
    assert!(picker(&l.screen, rect(0, 0, 100, 30)).is_none());
    l.open_run_picker();
    let p = picker(&l.screen, rect(0, 0, 100, 30)).unwrap();
    assert_eq!(p.area, rect(14, 13, 72, 4));
    assert_eq!(p.title, " run: edit ");
    assert_eq!(p.items.len(), 2);
    assert_eq!(p.items[1], "run debug     /t/edit  (stale)");
    assert_eq!(p.sel, 0);
}

#[test]
fn the_log_takes_a_third_within_bounds() {
    assert_eq!(
        row_shares(30, false),
        [Share::Length(2), Share::Min(3), Share::Length(3)]
    );
    let log = |height| row_shares(height, true)[2];
    assert_eq!(row_shares(30, true).len(), 4);
    assert_eq!(log(30), Share::Length(10));
    assert_eq!(log(17), Share::Length(6));
    assert_eq!(log(20), Share::Length(6));
    assert_eq!(log(21), Share::Length(7));
    assert_eq!(log(48), Share::Length(16));
    assert_eq!(log(200), Share::Length(16));
}

#[test]
fn the_screen_is_split_for_its_panels() {
    let s = split_screen(rect(0, 0, 100, 30), false);
    assert_eq!(s.rows, [rect(0, 0, 100, 2), rect(0, 2, 100, 25), rect(0, 27, 100, 3)]);
    assert_eq!(s.columns, [rect(0, 2, 38, 25), rect(38, 2, 62, 25)]);
    assert_eq!(s.lines, [rect(0, 0, 100, 1), rect(0, 1, 100, 1)]);
    assert_eq!(s.halves, [rect(0, 0, 50, 1), rect(50, 0, 50, 1)]);
    let s = split_screen(rect(0, 0, 100, 30), true);
    assert_eq!(s.rows[1], rect(0, 2, 100, 15));
    assert_eq!(s.rows[2], rect(0, 17, 100, 10));
    assert_eq!(s.rows[3], rect(0, 27, 100, 3));
}

#[test]
fn panels_stay_on_a_small_screen() {
    for (width, height) in [(0, 0), (1, 1), (3, 2), (10, 5), (7, 9)] {
        for console_on in [false, true] {
            let s = split_screen(rect(0, 0, width, height), console_on);
            assert_eq!(s.rows.len(), if console_on { 4 } else { 3 });
            for r in s.rows.iter().chain(&s.columns).chain(&s.lines).chain(&s.halves) {
                assert!(r.x + r.width <= width, "{r:?}");
                assert!(r.y + r.height <= height, "{r:?}");
            }
        }
    }
}

#[test]
fn panels_are_taken_from_the_splits() {
    let splits = |rows: Vec<Rect>| Splits {
        rows,
        columns: vec![rect(4, 0, 0, 0), rect(5, 0, 0, 0)],
        lines: vec![rect(6, 0, 0, 0), rect(7, 0, 0, 0)],
        halves: vec![rect(8, 0, 0, 0), rect(9, 0, 0, 0)],
    };
    let three = vec![rect(0, 0, 0, 0), rect(1, 0, 0, 0), rect(2, 0, 0, 0)];
    let mut four = three.clone();
    four.push(rect(3, 0, 0, 0));
    let hidden = arrange(&splits(three), false);
    assert_eq!(hidden.console, None);
    assert_eq!(hidden.footer, rect(2, 0, 0, 0));
    assert_eq!(hidden.list, rect(4, 0, 0, 0));
    assert_eq!(hidden.detail, rect(5, 0, 0, 0));
    assert_eq!(hidden.legend, rect(7, 0, 0, 0));
    assert_eq!(hidden.brand, rect(8, 0, 0, 0));
    assert_eq!(hidden.info, rect(9, 0, 0, 0));
    let shown = arrange(&splits(four), true);
    assert_eq!(shown.console, Some(rect(2, 0, 0, 0)));
    assert_eq!(shown.footer, rect(3, 0, 0, 0));
}

#[test]
fn painting_notes_where_clicks_go() {
    let mut l = launcher();
    let regions = Regions {
        brand: rect(0, 0, 30, 1),
        info: rect(30, 0, 30, 1),
        legend: rect(0, 1, 60, 1),
        list: rect(0, 2, 20, 8),
        detail: rect(20, 2, 40, 8),
        console: Some(rect(0, 10, 60, 5)),
        footer: rect(0, 15, 60, 3),
    };
    let log: Vec<String> = (0..9).map(|i| i.to_string()).collect();
    l.jobs.scroll(1);
    l.open_run_picker();
    let p = paint(&mut l, &log, rect(0, 0, 60, 18), regions);
    assert_eq!(p.regions, regions);
    assert_eq!(p.console.unwrap(), ["5", "6", "7"]);
    assert_eq!(p.rows.len(), 3);
    assert_eq!(l.list_inner, rect(1, 3, 18, 6));
    assert_eq!(l.detail_area, rect(20, 2, 40, 8));
    assert_eq!(l.console_area, rect(0, 10, 60, 5));
    assert_eq!(p.picker.unwrap().area, rect(0, 7, 60, 4));
    assert_eq!(l.picker_inner, rect(1, 8, 58, 2));
}

#[test]
fn borders_of_tiny_panels_leave_nothing_inside() {
    let mut l = launcher();
    let mut regions = Regions {
        brand: rect(0, 0, 0, 0),
        info: rect(0, 0, 0, 0),
        legend: rect(0, 0, 0, 0),
        list: rect(4, 4, 1, 0),
        detail: rect(0, 0, 0, 0),
        console: None,
        footer: rect(0, 0, 0, 0),
    };
    paint(&mut l, &Vec::new(), rect(0, 0, 9, 9), regions);
    assert_eq!(l.list_inner, rect(5, 4, 0, 0));
    regions.list = rect(4, 4, 2, 3);
    paint(&mut l, &Vec::new(), rect(0, 0, 9, 9), regions);
    assert_eq!(l.list_inner, rect(5, 5, 0, 1));
}

#[test]
fn a_drawn_screen_takes_clicks() {
    let mut l = launcher();
    let p = draw(&mut l, &Vec::new(), rect(0, 0, 100, 30));
    assert_eq!(p.regions.list, rect(0, 2, 38, 25));
    assert_eq!(l.list_inner, rect(1, 3, 36, 23));
    assert_eq!(l.list_hit(1, 4), Some(1));
    assert!(l.on_detail(60, 10));
    assert_eq!(l.console_area, Rect::empty());
    assert!(!l.on_console(0, 0));
    assert!(p.console.is_none());
    assert!(p.picker.is_none());
    assert_eq!(l.picker_inner, Rect::empty());
    assert!(matches!(l.screen, Screen::List));

    l.jobs.toggle_console();
    l.open_run_picker();
    let p = draw(&mut l, &vec!["one".to_string()], rect(0, 0, 100, 30));
    assert_eq!(p.console.unwrap(), ["one"]);
    assert!(l.on_console(0, 17));
    assert_eq!(l.picker_hit(15, 14), Some(0));
    assert_eq!(l.picker_hit(15, 15), Some(1));
}

#[test]
fn the_splash_spins() {
    let s = draw_loading(rect(0, 0, 80, 24), 1);
    assert_eq!(s.area, rect(17, 9, 46, 5));
    let lines: Vec<String> = s.lines.iter().map(|l| text(l)).collect();
    assert_eq!(lines, ["⚓ freight · cargo-bay", "", "/  scanning the workspace…"]);
    assert_eq!(span(&s.lines[2][0]).1, Some(Color::DarkGray));
    assert!(text(&draw_loading(rect(0, 0, 80, 24), 3).lines[2]).starts_with("\\  "));
}

#[test]
fn the_plain_listing_is_aligned() {
    let mut l = launcher();
    l.apps[2].name = "a-name-of-more-than-twenty-two".to_string();
    assert_eq!(
        print_list(&l.apps),
        [
            "stale   terminal edit                   /t/edit",
            "fresh   windowed game                   /t/game",
            "build   terminal a-name-of-more-than-twenty-two cargo run -p a-name-of-more-than-twenty-two",
        ]
    );
    assert!(print_list(&vec![]).is_empty());
    assert_eq!(
        list_line(&l.apps[0], "elsewhere"),
        "stale   terminal edit                   elsewhere"
    );
}
