//! Placing the address prompt in the middle of the terminal.

use vstd::prelude::*;

verus! {

/// A rectangle of terminal cells.
#[derive(Clone, Copy, PartialEq, Eq, Structural, Debug)]
pub struct Area {
    pub x: u16,
    pub y: u16,
    pub width: u16,
    pub height: u16,
}

/// The direction in which an area is cut.
#[derive(Clone, Copy, PartialEq, Eq, Structural, Debug)]
pub enum SplitDirection {
    Horizontal,
    Vertical,
}

/// What ratatui's `Layout::split` makes of `area`, cut in `direction` with a
/// `Constraint::Percentage` for each entry of `percents`.
pub uninterp spec fn percentage_split(
    area: Area,
    direction: SplitDirection,
    percents: Seq<u16>,
) -> Seq<Area>;

/// Calls ratatui's `Layout::split` on `area` (built with `Rect::new`), in
/// `direction`, with one `Constraint::Percentage` per entry of `percents`,
/// and copies out the rectangles. The result is named: it depends on these
/// arguments alone (the layout cache only memoises it). ratatui's source makes
/// one segment per constraint, which the length clause states.
#[verifier::external_body]
fn split_by_percentages(area: Area, direction: SplitDirection, percents: &Vec<u16>) -> (parts: Vec<Area>)
    ensures
        parts@ == percentage_split(area, direction, percents@),
        parts@.len() == percents@.len(),
{
    let direction = match direction {
        SplitDirection::Horizontal => ratatui::layout::Direction::Horizontal,
        SplitDirection::Vertical => ratatui::layout::Direction::Vertical,
    };
    let constraints = percents.iter().map(|p| ratatui::layout::Constraint::Percentage(*p));
    let rect = ratatui::layout::Rect::new(area.x, area.y, area.width, area.height);
    let rects = ratatui::layout::Layout::default().direction(direction).constraints(constraints).split(rect);
    rects.iter().map(|r| Area { x: r.x, y: r.y, width: r.width, height: r.height }).collect()
}

/// The three percentages that put a band of `percent` in the middle.
pub open spec fn centered_percents(percent: u16) -> Seq<u16> {
    let side = ((100 - percent) / 2) as u16;
    seq![side, percent, side]
}

/// A box of `percent_x` of the width and `percent_y` of the height of `r`,
/// in its middle: the middle band of a vertical cut, cut again horizontally.
pub open spec fn centered_area(percent_x: u16, percent_y: u16, r: Area) -> Area {
    let band = percentage_split(r, SplitDirection::Vertical, centered_percents(percent_y))[1];
    percentage_split(band, SplitDirection::Horizontal, centered_percents(percent_x))[1]
}

fn centered_percent_list(percent: u16) -> (v: Vec<u16>)
    requires
        percent <= 100,
    ensures
        v@ == centered_percents(percent),
{
    let side = (100 - percent) / 2;
    let v = vec![side, percent, side];
    assert(v@ =~= centered_percents(percent));
    v
}

/// The area of the address prompt: `percent_x` by `percent_y` of `r`,
/// centred.
pub fn centered_rect(percent_x: u16, percent_y: u16, r: Area) -> (a: Area)
    requires
        percent_x <= 100,
        percent_y <= 100,
    ensures
        a == centered_area(percent_x, percent_y, r),
{
    let rows = split_by_percentages(r, SplitDirection::Vertical, &centered_percent_list(percent_y));
    let cols = split_by_percentages(rows[1], SplitDirection::Horizontal, &centered_percent_list(percent_x));
    cols[1]
}

} // verus!
