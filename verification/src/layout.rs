//! Where things stand on the screen.

use vstd::prelude::*;

verus! {

/// A rectangle of the screen.
#[derive(Debug, Clone, Copy, PartialEq, Eq, Structural)]
pub struct Area {
    pub x: u16,
    pub y: u16,
    pub width: u16,
    pub height: u16,
}

impl Area {
    /// Whether the far corner of the rectangle has coordinates, too.
    pub open spec fn fits(self) -> bool {
        self.x + self.width <= u16::MAX && self.y + self.height <= u16::MAX
    }

    /// Whether the rectangle lies in another.
    pub open spec fn within(self, outer: Area) -> bool {
        &&& outer.x <= self.x
        &&& self.x + self.width <= outer.x + outer.width
        &&& outer.y <= self.y
        &&& self.y + self.height <= outer.y + outer.height
    }

    /// Whether the rectangle is the part of another from `from` to `to` percent, along an axis.
    pub open spec fn part_of(self, whole: Area, axis: Axis, from: int, to: int) -> bool {
        match axis {
            Axis::Vertical => {
                &&& self.x == whole.x
                &&& self.width == whole.width
                &&& self.y == boundary(whole.y as int, whole.height as int, from)
                &&& self.y + self.height == boundary(whole.y as int, whole.height as int, to)
            },
            Axis::Horizontal => {
                &&& self.y == whole.y
                &&& self.height == whole.height
                &&& self.x == boundary(whole.x as int, whole.width as int, from)
                &&& self.x + self.width == boundary(whole.x as int, whole.width as int, to)
            },
        }
    }
}

/// The direction in which a rectangle is divided.
#[derive(Debug, Clone, Copy, PartialEq, Eq, Structural)]
pub enum Axis {
    Vertical,
    Horizontal,
}

/// Where `percent` percent of a length end that begins at `start`: at the nearest whole place, and
/// of two at the farther one.
pub open spec fn boundary(start: int, length: int, percent: int) -> int {
    start + (length * percent + 50) / 100
}

/// `ratatui::layout::Layout::split` into three parts of the given percentages. Together they are
/// no more than the whole, so they lie one behind the other from its beginning, each as large as
/// its percentage asks: the stronger of the solver's constraints (that parts lie in the whole,
/// that nothing lies between them, that a part has its percentage) can all be met, so they are,
/// and they leave no choice. The places are then rounded.
#[verifier::external_body]
fn split_in_three(area: Area, axis: Axis, before: u16, middle: u16, behind: u16) -> (parts: Vec<
    Area,
>)
    requires
        before + middle + behind <= 100,
        area.fits(),
    ensures
        parts@.len() == 3,
        parts@[0].part_of(area, axis, 0, before as int),
        parts@[1].part_of(area, axis, before as int, before + middle),
        parts@[2].part_of(area, axis, before + middle, before + middle + behind),
{
    let direction = match axis {
        Axis::Vertical => ratatui::layout::Direction::Vertical,
        Axis::Horizontal => ratatui::layout::Direction::Horizontal,
    };
    let Area { x, y, width, height } = area;
    ratatui::layout::Layout::default()
        .direction(direction)
        .constraints(ratatui::layout::Constraint::from_percentages([before, middle, behind]))
        .split(ratatui::layout::Rect { x, y, width, height })
        .iter()
        .map(|part| Area { x: part.x, y: part.y, width: part.width, height: part.height })
        .collect()
}

proof fn lemma_boundary(start: int, length: int, from: int, to: int)
    requires
        0 <= length,
        0 <= from <= to <= 100,
    ensures
        start <= boundary(start, length, from) <= boundary(start, length, to) <= start + length,
{
    assert(0 <= length * from <= length * to <= length * 100) by (nonlinear_arith)
        requires
            0 <= length,
            0 <= from <= to <= 100,
    ;
}

/// How many percent of a length lie before the middle part, when it takes `percent`.
pub open spec fn margin(percent: int) -> int {
    (100 - percent) / 2
}

/// The middle of a rectangle, of the given percentages of its width and height.
pub fn centered_rect(width_percent: u16, height_percent: u16, area: Area) -> (middle: Area)
    requires
        width_percent <= 100,
        height_percent <= 100,
        area.fits(),
    ensures
        middle.x == boundary(area.x as int, area.width as int, margin(width_percent as int)),
        middle.x + middle.width == boundary(
            area.x as int,
            area.width as int,
            margin(width_percent as int) + width_percent,
        ),
        middle.y == boundary(area.y as int, area.height as int, margin(height_percent as int)),
        middle.y + middle.height == boundary(
            area.y as int,
            area.height as int,
            margin(height_percent as int) + height_percent,
        ),
        middle.within(area),
{
    let above: u16 = (100 - height_percent) / 2;
    let before: u16 = (100 - width_percent) / 2;
    proof {
        lemma_boundary(
            area.y as int,
            area.height as int,
            above as int,
            above + height_percent,
        );
        lemma_boundary(
            area.x as int,
            area.width as int,
            before as int,
            before + width_percent,
        );
    }
    let rows = split_in_three(area, Axis::Vertical, above, height_percent, above);
    let row = rows[1];
    let columns = split_in_three(row, Axis::Horizontal, before, width_percent, before);
    columns[1]
}

/// A boundary is no farther than half a place from where the percentage puts it; none of a length
/// ends where it begins, and all of it where it ends.
pub proof fn law_boundary(start: int, length: int, percent: int)
    requires
        0 <= length,
        0 <= percent <= 100,
    ensures
        -50 <= 100 * (boundary(start, length, percent) - start) - length * percent <= 50,
        boundary(start, length, 0) == start,
        boundary(start, length, 100) == start + length,
{
}

/// What lies before the middle part and what lies behind it are the same, but for one percent at
/// most.
pub proof fn law_margin(percent: int)
    requires
        0 <= percent <= 100,
    ensures
        0 <= 100 - percent - 2 * margin(percent) <= 1,
{
}

} // verus!
