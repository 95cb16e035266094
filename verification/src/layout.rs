//! Splitting an area of the terminal into smaller ones.

use ratatui::layout::{
    Constraint as RatatuiConstraint, Direction as RatatuiDirection, Layout as RatatuiLayout,
    Rect as RatatuiRect,
};
use tui::layout::{
    Constraint as TuiConstraint, Direction as TuiDirection, Layout as TuiLayout, Rect as TuiRect,
};
use vstd::prelude::*;

use crate::screen::Area;

verus! {

/// In which direction the parts of an area follow each other.
#[derive(Clone, Copy, Debug, PartialEq, Eq, Structural)]
pub enum Direction {
    Horizontal,
    Vertical,
}

/// How much of an area a part of it asks for.
#[derive(Clone, Copy, Debug, PartialEq, Eq, Structural)]
pub enum Limit {
    /// So many hundredths.
    Percentage(u16),
    /// Such a fraction.
    Ratio(u32, u32),
    /// So many cells.
    Length(u16),
    /// At most so many cells.
    Max(u16),
}

/// The area inside a margin; an area that the margin fills up leaves none.
pub open spec fn inside(area: Area, margin: u16) -> Area {
    if area.width < 2 * margin || area.height < 2 * margin {
        Area { x: 0, y: 0, width: 0, height: 0 }
    } else {
        Area {
            x: (area.x + margin) as u16,
            y: (area.y + margin) as u16,
            width: (area.width - 2 * margin) as u16,
            height: (area.height - 2 * margin) as u16,
        }
    }
}

/// Whether `part` ends, to the right and below, no later than `whole` does.
pub open spec fn ends_within(part: Area, whole: Area) -> bool {
    &&& part.x + part.width <= whole.x + whole.width
    &&& part.y + part.height <= whole.y + whole.height
}

/// How far an area extends in a direction.
pub open spec fn extent(direction: Direction, area: Area) -> u16 {
    match direction {
        Direction::Horizontal => area.width,
        Direction::Vertical => area.height,
    }
}

/// Whether an area can be split without a number leaving the range of `u16`: it lies within the
/// coordinates of a terminal, and the percentages of what is inside its margin can be taken.
pub open spec fn can_split(direction: Direction, margin: u16, limits: Seq<Limit>, area: Area) -> bool {
    &&& area.x + area.width <= u16::MAX
    &&& area.y + area.height <= u16::MAX
    &&& 2 * margin <= u16::MAX
    &&& forall|i: int|
        0 <= i < limits.len() ==> match #[trigger] limits[i] {
            Limit::Percentage(percent) => percent * extent(direction, inside(area, margin))
                <= u16::MAX,
            Limit::Ratio(_, parts) => parts > 0,
            _ => true,
        }
}

/// An area can be split where even the largest percentage can be taken of it.
pub(crate) proof fn lemma_can_split(
    direction: Direction,
    margin: u16,
    limits: Seq<Limit>,
    area: Area,
    most: u16,
    size: u16,
)
    requires
        area.x + area.width <= u16::MAX,
        area.y + area.height <= u16::MAX,
        2 * margin <= u16::MAX,
        forall|i: int|
            0 <= i < limits.len() ==> match #[trigger] limits[i] {
                Limit::Percentage(percent) => percent <= most,
                Limit::Ratio(_, parts) => parts > 0,
                _ => true,
            },
        extent(direction, inside(area, margin)) <= size,
        most * size <= u16::MAX,
    ensures
        can_split(direction, margin, limits, area),
{
    let cells = extent(direction, inside(area, margin));
    assert forall|i: int| 0 <= i < limits.len() implies match #[trigger] limits[i] {
        Limit::Percentage(percent) => percent * cells <= u16::MAX,
        Limit::Ratio(_, parts) => parts > 0,
        _ => true,
    } by {
        if let Limit::Percentage(percent) = limits[i] {
            assert(percent * cells <= most * size) by (nonlinear_arith)
                requires
                    percent <= most,
                    cells <= size,
            ;
        }
    }
}

/// What holds of the parts of an area, however its limits were met: there is one for each
/// limit, none reaches beyond what is inside the margin, across the direction each begins where
/// that does and is as thick as that, the first one begins where that does, and the last one ends
/// where that does.
pub open spec fn is_split(
    direction: Direction,
    margin: u16,
    limits: Seq<Limit>,
    area: Area,
    parts: Seq<Area>,
) -> bool {
    let whole = inside(area, margin);
    &&& parts.len() == limits.len()
    &&& forall|i: int|
        0 <= i < parts.len() ==> {
            &&& ends_within(#[trigger] parts[i], whole)
            &&& match direction {
                Direction::Horizontal => parts[i].y == whole.y && parts[i].height == whole.height,
                Direction::Vertical => parts[i].x == whole.x && parts[i].width == whole.width,
            }
        }
    &&& parts.len() > 0 ==> match direction {
        Direction::Horizontal => {
            &&& parts.first().x == whole.x
            &&& parts.last().x + parts.last().width == whole.x + whole.width
        },
        Direction::Vertical => {
            &&& parts.first().y == whole.y
            &&& parts.last().y + parts.last().height == whole.y + whole.height
        },
    }
}

/// What is left of `whole` cells behind the first `cells` of them, but at most `most`.
pub open spec fn left_over(whole: u16, cells: u16, most: u16) -> u16 {
    if whole <= cells {
        0
    } else if whole - cells <= most {
        (whole - cells) as u16
    } else {
        most
    }
}

/// Where an area is split into a part of a fixed length and one with an upper limit, the second
/// gets what the first leaves of it, up to its limit, and the first gets the rest.
pub open spec fn shares_length_and_rest(
    direction: Direction,
    margin: u16,
    limits: Seq<Limit>,
    area: Area,
    parts: Seq<Area>,
) -> bool {
    limits.len() == 2 ==> match (limits[0], limits[1]) {
        (Limit::Length(cells), Limit::Max(most)) => {
            let whole = extent(direction, inside(area, margin));
            &&& extent(direction, parts[1]) == left_over(whole, cells, most)
            &&& extent(direction, parts[0]) + extent(direction, parts[1]) == whole
        },
        _ => true,
    }
}

/// Three columns side by side, the last one the widest.
pub open spec fn column_limits() -> Seq<Limit> {
    seq![Limit::Percentage(20), Limit::Percentage(20), Limit::Percentage(60)]
}

/// Whether `parts` is among what ratatui's `Layout::split` can return for an area.
pub uninterp spec fn ratatui_can_give(
    direction: Direction,
    margin: u16,
    limits: Seq<Limit>,
    area: Area,
    parts: Seq<Area>,
) -> bool;

/// Whether `parts` is among what tui's `Layout::split` can return for an area.
pub uninterp spec fn tui_can_give(
    direction: Direction,
    margin: u16,
    limits: Seq<Limit>,
    area: Area,
    parts: Seq<Area>,
) -> bool;

/// ratatui's `Layout::split`, with a margin and constraints. It hands the wishes to a solver
/// that weighs them against each other, and whose choice between equally good answers depends on
/// the order of a hash map. So the contract does not say which parts come back: it says that
/// they are among those that the call can return, that there is one for each limit, that they lie
/// within the area inside the margin and are as thick as it across the direction, that the first
/// one begins where it does, and that the last one is stretched to its end.
///
/// One choice has a single best answer, and the contract states it: a `Length` followed by a
/// `Max`. The fixed length and the upper limit weigh the same, so beyond both any division of the
/// surplus costs as much; but a `Max` has beside its limit a weak wish to be reached exactly,
/// which then leaves the surplus with the first part, and which is too weak to take anything from
/// the fixed length. All numbers are whole there. How near each part comes to its limit in other
/// splits is left unsaid.
#[verifier::external_body]
pub(crate) fn ratatui_split(
    direction: Direction,
    margin: u16,
    limits: &Vec<Limit>,
    area: Area,
) -> (parts: Vec<Area>)
    requires
        can_split(direction, margin, limits@, area),
    ensures
        ratatui_can_give(direction, margin, limits@, area, parts@),
        is_split(direction, margin, limits@, area, parts@),
        shares_length_and_rest(direction, margin, limits@, area, parts@),
{
    let wishes: Vec<_> = limits.iter().map(|limit| match *limit {
        Limit::Percentage(percent) => RatatuiConstraint::Percentage(percent),
        Limit::Ratio(part, parts) => RatatuiConstraint::Ratio(part, parts),
        Limit::Length(cells) => RatatuiConstraint::Length(cells),
        Limit::Max(cells) => RatatuiConstraint::Max(cells),
    }).collect();
    RatatuiLayout::default().direction(match direction {
        Direction::Horizontal => RatatuiDirection::Horizontal,
        Direction::Vertical => RatatuiDirection::Vertical,
    }).margin(margin).constraints(wishes).split(
        RatatuiRect { x: area.x, y: area.y, width: area.width, height: area.height }
    ).iter().map(|c| Area { x: c.x, y: c.y, width: c.width, height: c.height }).collect()
}

/// tui's `Layout::split`, with a margin and constraints. It hands the wishes to a solver that
/// weighs them against each other, and whose choice between equally good answers depends on the
/// order of a hash map. So the contract does not say which parts come back: it says that they are
/// among those that the call can return, that there is one for each limit, that they lie within
/// the area inside the margin and are as thick as it across the direction, that the first one
/// begins where it does, and that the last one is stretched to its end. How near each part comes
/// to its limit is left unsaid.
#[verifier::external_body]
pub(crate) fn tui_split(
    direction: Direction,
    margin: u16,
    limits: &Vec<Limit>,
    area: Area,
) -> (parts: Vec<Area>)
    requires
        can_split(direction, margin, limits@, area),
    ensures
        tui_can_give(direction, margin, limits@, area, parts@),
        is_split(direction, margin, limits@, area, parts@),
{
    let wishes: Vec<_> = limits.iter().map(|limit| match *limit {
        Limit::Percentage(percent) => TuiConstraint::Percentage(percent),
        Limit::Ratio(part, parts) => TuiConstraint::Ratio(part, parts),
        Limit::Length(cells) => TuiConstraint::Length(cells),
        Limit::Max(cells) => TuiConstraint::Max(cells),
    }).collect();
    TuiLayout::default().direction(match direction {
        Direction::Horizontal => TuiDirection::Horizontal,
        Direction::Vertical => TuiDirection::Vertical,
    }).margin(margin).constraints(wishes).split(
        TuiRect { x: area.x, y: area.y, width: area.width, height: area.height }
    ).iter().map(|c| Area { x: c.x, y: c.y, width: c.width, height: c.height }).collect()
}

} // verus!
