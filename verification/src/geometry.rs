//! Rectangles of terminal cells: hit tests, centering, borders and splits.

use ratatui::layout;
use vstd::prelude::*;

verus! {

/// A rectangle of terminal cells.
#[derive(Clone, Copy, PartialEq, Eq, Structural, Debug)]
pub struct Rect {
    pub x: u16,
    pub y: u16,
    pub width: u16,
    pub height: u16,
}

impl Rect {
    /// The far edges fit in a coordinate.
    pub open spec fn wf(self) -> bool {
        &&& self.x + self.width <= u16::MAX
        &&& self.y + self.height <= u16::MAX
    }

    /// The cell at `col`, `row` belongs to the rectangle.
    pub open spec fn covers(self, col: int, row: int) -> bool {
        &&& self.x <= col < self.x + self.width
        &&& self.y <= row < self.y + self.height
    }

    /// Every cell of the rectangle, and its corner, stays within `outer`.
    pub open spec fn within(self, outer: Rect) -> bool {
        &&& outer.x <= self.x
        &&& outer.y <= self.y
        &&& self.x + self.width <= outer.x + outer.width
        &&& self.y + self.height <= outer.y + outer.height
    }

    /// The rectangle without cells at the origin.
    pub fn empty() -> (r: Rect)
        ensures
            r == no_area(),
    {
        Rect { x: 0, y: 0, width: 0, height: 0 }
    }
}

/// The rectangle without cells at the origin.
pub open spec fn no_area() -> Rect {
    Rect { x: 0, y: 0, width: 0, height: 0 }
}

/// Point-in-rect test.
pub fn contains(a: Rect, col: u16, row: u16) -> (r: bool)
    requires
        a.wf(),
    ensures
        r == a.covers(col as int, row as int),
{
    col >= a.x && col < a.x + a.width && row >= a.y && row < a.y + a.height
}

/// The smaller of two numbers.
pub open spec fn least(a: int, b: int) -> int {
    if a <= b {
        a
    } else {
        b
    }
}

/// A `w` by `h` rectangle in the middle of `area`, cut down to fit.
pub open spec fn centered_in(area: Rect, w: u16, h: u16) -> Rect {
    let width = least(w as int, area.width as int);
    let height = least(h as int, area.height as int);
    Rect {
        x: (area.x + (area.width - width) / 2) as u16,
        y: (area.y + (area.height - height) / 2) as u16,
        width: width as u16,
        height: height as u16,
    }
}

/// A `w` by `h` rectangle in the middle of `area`, cut down to fit.
pub fn centered(area: Rect, w: u16, h: u16) -> (r: Rect)
    requires
        area.wf(),
    ensures
        r == centered_in(area, w, h),
        r.wf(),
        r.within(area),
{
    let width: u16 = if w <= area.width { w } else { area.width };
    let height: u16 = if h <= area.height { h } else { area.height };
    Rect {
        x: area.x + (area.width - width) / 2,
        y: area.y + (area.height - height) / 2,
        width,
        height,
    }
}

/// The area inside a border of one cell on each side.
pub open spec fn inside_border(area: Rect) -> Rect {
    Rect {
        x: if area.width == 0 || area.x == u16::MAX { area.x } else { (area.x + 1) as u16 },
        y: if area.height == 0 || area.y == u16::MAX { area.y } else { (area.y + 1) as u16 },
        width: if area.width < 2 { 0 } else { (area.width - 2) as u16 },
        height: if area.height < 2 { 0 } else { (area.height - 2) as u16 },
    }
}

/// `ratatui::widgets::Block::inner` of `Block::bordered()`: one cell is taken
/// off on each side; a side that has no cell left stays where it is.
#[verifier::external_body]
pub(crate) fn bordered_inner(area: Rect) -> (r: Rect)
    ensures
        r == inside_border(area),
{
    let a = layout::Rect { x: area.x, y: area.y, width: area.width, height: area.height };
    let r = ratatui::widgets::Block::bordered().inner(a);
    Rect { x: r.x, y: r.y, width: r.width, height: r.height }
}

/// The axis along which an area is split.
#[derive(Clone, Copy, PartialEq, Eq, Structural, Debug)]
pub enum Direction {
    Vertical,
    Horizontal,
}

/// How much of an area one of its pieces asks for.
#[derive(Clone, Copy, PartialEq, Eq, Structural, Debug)]
pub enum Share {
    /// So many cells.
    Length(u16),
    /// At least so many cells.
    Min(u16),
    /// So many hundredths of the whole.
    Percentage(u16),
}

/// `pieces` are among the splits that `ratatui::layout::Layout::split` may
/// return for these shares of `area`. There can be several: which one comes
/// back may differ from one run of the program to the next.
pub uninterp spec fn may_split_into(
    direction: Direction,
    shares: Seq<Share>,
    area: Rect,
    pieces: Seq<Rect>,
) -> bool;

/// What holds of every split of `area` into `count` pieces along `direction`:
/// there are `count` of them, each within the area and as broad as the area
/// across the direction.
pub open spec fn is_split(pieces: Seq<Rect>, direction: Direction, count: nat, area: Rect) -> bool {
    &&& pieces.len() == count
    &&& forall|i: int|
        #![trigger pieces[i]]
        0 <= i < count ==> {
            &&& pieces[i].wf()
            &&& pieces[i].within(area)
            &&& direction == Direction::Vertical ==> pieces[i].x == area.x && pieces[i].width
                == area.width
            &&& direction == Direction::Horizontal ==> pieces[i].y == area.y && pieces[i].height
                == area.height
        }
}

/// `ratatui::layout::Layout::split`: the pieces that the solver finds for
/// `shares`, one for each. Where the pieces part is the solver's choice, which
/// can go by the order in which it walks hash maps; it is not said here.
#[verifier::external_body]
pub(crate) fn split(direction: Direction, shares: &Vec<Share>, area: Rect) -> (r: Vec<Rect>)
    requires
        area.wf(),
    ensures
        may_split_into(direction, shares@, area, r@),
        is_split(r@, direction, shares@.len(), area),
{
    let d = match direction {
        Direction::Vertical => layout::Direction::Vertical,
        Direction::Horizontal => layout::Direction::Horizontal,
    };
    let c = shares.iter().map(|s| match s {
        Share::Length(n) => layout::Constraint::Length(*n),
        Share::Min(n) => layout::Constraint::Min(*n),
        Share::Percentage(n) => layout::Constraint::Percentage(*n),
    });
    let a = layout::Rect { x: area.x, y: area.y, width: area.width, height: area.height };
    let pieces = layout::Layout::new(d, c).split(a);
    pieces.iter().map(|r| Rect { x: r.x, y: r.y, width: r.width, height: r.height }).collect()
}

} // verus!
