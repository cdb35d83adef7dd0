//! The one place colours and status glyphs are defined, so the whole screen
//! stays visually consistent.

use vstd::prelude::*;

verus! {

/// The terminal colours in use.
#[derive(Clone, Copy, PartialEq, Eq, Structural, Debug)]
pub enum Color {
    Cyan,
    DarkGray,
    Green,
    Yellow,
    Blue,
    Red,
}

/// The accent: selections, keys, the brandmark.
pub const ACCENT: Color = Color::Cyan;

/// Secondary and label text.
pub const MUTED: Color = Color::DarkGray;

/// A prebuilt that is up to date with its sources.
pub const FRESH: Color = Color::Green;

/// A prebuilt whose sources have changed since it was built.
pub const STALE: Color = Color::Yellow;

/// No prebuilt yet; the first run will compile.
pub const NEW: Color = Color::Blue;

/// A build in progress.
pub const BUILDING: Color = Color::Yellow;

/// A launched app that is still running.
pub const RUNNING: Color = Color::Cyan;

/// A build that failed.
pub const FAILED: Color = Color::Red;

/// A queued (not yet started) build.
pub const QUEUED: Color = Color::DarkGray;

/// Left-column status glyphs. Kept to three cells so the list stays aligned.
pub const G_FRESH: &'static str = "[+]";

pub const G_STALE: &'static str = "[*]";

pub const G_NEW: &'static str = "[.]";

pub const G_QUEUED: &'static str = "[q]";

pub const G_RUNNING: &'static str = "[>]";

pub const G_FAILED: &'static str = "[!]";

/// The brandmark glyph; swap to `"#"` for strict-ASCII terminals.
pub const BRAND_MARK: &'static str = "⚓";

/// Every status glyph takes three cells.
pub proof fn glyphs_are_three_cells()
    ensures
        G_FRESH@.len() == 3,
        G_STALE@.len() == 3,
        G_NEW@.len() == 3,
        G_QUEUED@.len() == 3,
        G_RUNNING@.len() == 3,
        G_FAILED@.len() == 3,
{
    reveal_strlit("[+]");
    reveal_strlit("[*]");
    reveal_strlit("[.]");
    reveal_strlit("[q]");
    reveal_strlit("[>]");
    reveal_strlit("[!]");
}

/// A run of text in one style. Without a colour it takes the terminal's own.
pub struct Span {
    pub text: String,
    pub color: Option<Color>,
    pub bold: bool,
}

/// The model of a [`Span`].
pub struct SpanView {
    pub text: Seq<char>,
    pub color: Option<Color>,
    pub bold: bool,
}

impl View for Span {
    type V = SpanView;

    open spec fn view(&self) -> SpanView {
        SpanView { text: self.text@, color: self.color, bold: self.bold }
    }
}

/// The model of a line of spans.
pub open spec fn line_view(spans: Seq<Span>) -> Seq<SpanView> {
    spans.map_values(|s: Span| s@)
}

/// The models of several lines.
pub open spec fn line_views(lines: Seq<Vec<Span>>) -> Seq<Seq<SpanView>> {
    lines.map_values(|l: Vec<Span>| line_view(l@))
}

/// Text in a colour.
pub open spec fn styled_view(text: Seq<char>, color: Color) -> SpanView {
    SpanView { text, color: Some(color), bold: false }
}

/// Text in the terminal's own colour.
pub open spec fn plain_view(text: Seq<char>) -> SpanView {
    SpanView { text, color: None, bold: false }
}

/// Text in a colour, in bold.
pub open spec fn bold_view(text: Seq<char>, color: Color) -> SpanView {
    SpanView { text, color: Some(color), bold: true }
}

/// Text in a colour.
pub fn styled(text: String, color: Color) -> (r: Span)
    ensures
        r@ == styled_view(text@, color),
{
    Span { text, color: Some(color), bold: false }
}

/// Text in the terminal's own colour.
pub fn plain(text: String) -> (r: Span)
    ensures
        r@ == plain_view(text@),
{
    Span { text, color: None, bold: false }
}

/// Text in a colour, in bold.
pub fn bold(text: String, color: Color) -> (r: Span)
    ensures
        r@ == bold_view(text@, color),
{
    Span { text, color: Some(color), bold: true }
}

} // verus!
