//! Where the panels stand on the screen.

use ratatui::layout::{Constraint, Direction, Layout, Rect};
use vstd::prelude::*;

verus! {

/// A part of the screen, in character cells.
#[derive(Clone, Copy, PartialEq, Eq, Structural, Debug)]
pub struct Area {
    pub x: u16,
    pub y: u16,
    pub width: u16,
    pub height: u16,
}

/// Where the four panels stand.
#[derive(Clone, Copy, PartialEq, Eq, Structural, Debug)]
pub struct ScreenLayout {
    pub header: Area,
    pub ambient: Area,
    pub metrics: Area,
    pub footer: Area,
}

/// Cells between the edge of the screen and the panels.
pub const MARGIN: u16 = 1;

/// Rows of the header.
pub const HEADER_ROWS: u16 = 3;

/// Rows of the ambient panel.
pub const AMBIENT_ROWS: u16 = 3;

/// Rows that the metrics panel has at least.
pub const METRICS_MIN_ROWS: u16 = 0;

/// Rows of the footer.
pub const FOOTER_ROWS: u16 = 5;

/// The smaller of a sum and the largest coordinate.
pub open spec fn coordinate(sum: int) -> int {
    if sum <= u16::MAX {
        sum
    } else {
        u16::MAX as int
    }
}

/// An area without a margin on every side; nothing, at the origin, if the margins do not fit.
pub open spec fn inside(area: Area, margin: u16) -> Area {
    if area.width < 2 * margin || area.height < 2 * margin {
        Area { x: 0, y: 0, width: 0, height: 0 }
    } else {
        Area {
            x: coordinate(area.x + margin) as u16,
            y: coordinate(area.y + margin) as u16,
            width: (area.width - 2 * margin) as u16,
            height: (area.height - 2 * margin) as u16,
        }
    }
}

/// The sum of some heights.
pub open spec fn total(heights: Seq<u16>) -> nat
    decreases heights.len(),
{
    if heights.len() == 0 {
        0
    } else {
        total(heights.drop_last()) + heights.last() as nat
    }
}

/// The heights of all rows, where one row between `above` and `below` takes what they leave of
/// `height`.
pub open spec fn row_heights(height: nat, above: Seq<u16>, below: Seq<u16>) -> Seq<u16> {
    above + seq![(height - total(above) - total(below)) as u16] + below
}

/// Rows of the given heights, one under the other, over the full width of `area`.
pub open spec fn stacked(area: Area, heights: Seq<u16>) -> Seq<Area> {
    Seq::new(
        heights.len(),
        |i: int|
            Area {
                x: area.x,
                y: (area.y + total(heights.take(i))) as u16,
                width: area.width,
                height: heights[i],
            },
    )
}

/// Whether rows of fixed heights and one of at least `least` rows fit in an area.
pub open spec fn rows_fit(area: Area, above: Seq<u16>, least: u16, below: Seq<u16>) -> bool {
    &&& area.y + area.height <= u16::MAX
    &&& total(above) + least + total(below) <= area.height
}

/// Whether a row takes the full width of an area and leaves it neither above nor below.
pub open spec fn row_of(row: Area, area: Area) -> bool {
    &&& row.x == area.x
    &&& row.width == area.width
    &&& area.y <= row.y
    &&& row.y + row.height <= coordinate(area.y + area.height)
}

/// Whether rows fill an area from top to bottom: the first begins where the area does, each of the
/// others where the one above it ends, and the last ends where the area does.
pub open spec fn tiled(rows: Seq<Area>, area: Area) -> bool {
    &&& rows.len() > 0
    &&& rows[0].y == area.y
    &&& forall|i: int, j: int|
        0 <= i && j == i + 1 && j < rows.len() ==> (#[trigger] rows[i]).y + rows[i].height == (
        #[trigger] rows[j]).y
    &&& rows.last().y + rows.last().height == area.y + area.height
}

/// The height of the row between rows of fixed heights: what those leave of `height`, or the least
/// it may have, as far as there is room, if they leave less.
pub open spec fn middle_height(height: nat, above: Seq<u16>, least: u16, below: Seq<u16>) -> int {
    if total(above) + least + total(below) <= height {
        height - total(above) - total(below)
    } else if least <= height {
        least as int
    } else {
        height as int
    }
}

/// Whether no row is higher than it was meant to be, and the one between them takes its height.
pub open spec fn heights_kept(
    rows: Seq<Area>,
    height: nat,
    above: Seq<u16>,
    least: u16,
    below: Seq<u16>,
) -> bool {
    &&& forall|i: int| 0 <= i < above.len() ==> (#[trigger] rows[i]).height <= above[i]
    &&& rows[above.len() as int].height == middle_height(height, above, least, below)
    &&& forall|i: int|
        0 <= i < below.len() ==> rows[above.len() + 1 + i].height <= #[trigger] below[i]
}

/// Calls `ratatui`'s `Layout::split` in vertical direction, with a margin on every side, a
/// `Length` constraint for each of `above` and `below` and a `Min` constraint between them.
///
/// Trusted: there is one row for each constraint, and each takes the full width within the
/// margin and lies within it from top to bottom. The rows fill the area within the margin in the
/// order of their constraints, without a gap or an overlap, no `Length` row is higher than its
/// length, and the `Min` row has what is left, or its least height before the others get any. If
/// all constraints fit, every `Length` row has its length. If they do not fit, the solver behind
/// the call may share what is missing among the `Length` rows in several ways, and nothing is said
/// of that. There are few rows, so that the end of a row and the start of the next one, which the
/// solver computes apart, are rounded alike.
#[verifier::external_body]
fn split_rows(area: Area, margin: u16, above: &Vec<u16>, least: u16, below: &Vec<u16>) -> (r: Vec<Area>)
    requires
        margin <= 0x7fff,
        least <= 0x7fff,
        above@.len() + below@.len() < 7,
    ensures
        r@.len() == above@.len() + 1 + below@.len(),
        forall|i: int|
            0 <= i < r@.len() ==> row_of(#[trigger] r@[i], inside(area, margin)),
        area.y + area.height <= u16::MAX ==> tiled(r@, inside(area, margin)),
        area.y + area.height <= u16::MAX ==> heights_kept(
            r@,
            inside(area, margin).height as nat,
            above@,
            least,
            below@,
        ),
        rows_fit(inside(area, margin), above@, least, below@) ==> r@ == stacked(
            inside(area, margin),
            row_heights(inside(area, margin).height as nat, above@, below@),
        ),
{
    let mut rows: Vec<Constraint> = Vec::new();
    rows.extend(above.iter().map(|n| Constraint::Length(*n)));
    rows.push(Constraint::Min(least));
    rows.extend(below.iter().map(|n| Constraint::Length(*n)));
    Layout::default()
        .direction(Direction::Vertical)
        .margin(margin)
        .constraints(rows)
        .split(Rect { x: area.x, y: area.y, width: area.width, height: area.height })
        .iter()
        .map(|r| Area { x: r.x, y: r.y, width: r.width, height: r.height })
        .collect()
}

/// Whether every panel gets its rows on a screen: its last row is within coordinates, and it is
/// high enough for both margins and the three panels of fixed height.
pub open spec fn screen_fits(area: Area) -> bool {
    &&& area.y + area.height <= u16::MAX
    &&& area.width >= 2
    &&& area.height >= 13
}

impl ScreenLayout {
    /// Whether the panels have the rows that they get on a screen where they fit.
    pub open spec fn fills(self, area: Area) -> bool {
        &&& self.header.y == area.y + 1
        &&& self.header.height == 3
        &&& self.ambient.y == area.y + 4
        &&& self.ambient.height == 3
        &&& self.metrics.y == area.y + 7
        &&& self.metrics.height == area.height - 13
        &&& self.footer.y == area.y + area.height - 6
        &&& self.footer.height == 5
    }

    /// Whether the panels fill `within` in their order, without a gap or an overlap.
    pub open spec fn tiles(self, within: Area) -> bool {
        &&& self.header.y == within.y
        &&& self.ambient.y == self.header.y + self.header.height
        &&& self.metrics.y == self.ambient.y + self.ambient.height
        &&& self.footer.y == self.metrics.y + self.metrics.height
        &&& self.footer.y + self.footer.height == within.y + within.height
    }

    /// Whether no panel of fixed height is higher than that, and the metrics have the rows that
    /// those leave of `within`, or none.
    pub open spec fn keeps_heights(self, within: Area) -> bool {
        &&& self.header.height <= HEADER_ROWS
        &&& self.ambient.height <= AMBIENT_ROWS
        &&& self.footer.height <= FOOTER_ROWS
        &&& self.metrics.height == if within.height >= 11 {
            within.height - 11
        } else {
            0
        }
    }
}

/// The panels with the rows of the screen, from top to bottom.
pub open spec fn handed_out(rows: Seq<Area>) -> ScreenLayout {
    ScreenLayout { header: rows[0], ambient: rows[1], metrics: rows[2], footer: rows[3] }
}

/// Hands the rows of the screen out to the panels, from top to bottom: header, ambient panel,
/// metrics and footer.
pub fn panels_in(rows: &Vec<Area>) -> (r: ScreenLayout)
    requires
        rows@.len() == 4,
    ensures
        r.header == rows@[0],
        r.ambient == rows@[1],
        r.metrics == rows@[2],
        r.footer == rows@[3],
        r == handed_out(rows@),
{
    ScreenLayout { header: rows[0], ambient: rows[1], metrics: rows[2], footer: rows[3] }
}

/// Places the panels: header and ambient panel at the top, the footer at the bottom, and the
/// metrics between them.
///
/// The panels take the full width within the margin and fill it from top to bottom in this order.
/// On a screen that is too small for the fixed heights the metrics have no rows, and nothing is
/// said of how the other panels share what is missing.
pub fn screen_layout(area: Area) -> (r: ScreenLayout)
    ensures
        row_of(r.header, inside(area, MARGIN)),
        row_of(r.ambient, inside(area, MARGIN)),
        row_of(r.metrics, inside(area, MARGIN)),
        row_of(r.footer, inside(area, MARGIN)),
        area.y + area.height <= u16::MAX ==> r.tiles(inside(area, MARGIN)),
        area.y + area.height <= u16::MAX ==> r.keeps_heights(inside(area, MARGIN)),
        screen_fits(area) ==> r.fills(area),
{
    let mut above: Vec<u16> = Vec::new();
    above.push(HEADER_ROWS);
    above.push(AMBIENT_ROWS);
    let mut below: Vec<u16> = Vec::new();
    below.push(FOOTER_ROWS);
    let rows = split_rows(area, MARGIN, &above, METRICS_MIN_ROWS, &below);
    proof {
        reveal_with_fuel(total, 5);
        assert(above@ =~= seq![HEADER_ROWS, AMBIENT_ROWS]);
        assert(below@ =~= seq![FOOTER_ROWS]);
        assert(above@.drop_last() =~= seq![HEADER_ROWS]);
        assert(above@.drop_last().drop_last() =~= Seq::<u16>::empty());
        assert(below@.drop_last() =~= Seq::<u16>::empty());
        assert(total(above@) == 6);
        assert(total(below@) == 5);
        assert(rows@.last() == rows@[3]);
        assert(below@[0] == FOOTER_ROWS);
        if screen_fits(area) {
            let within = inside(area, MARGIN);
            let heights = row_heights(within.height as nat, above@, below@);
            assert(heights =~= seq![HEADER_ROWS, AMBIENT_ROWS, (area.height - 13) as u16, FOOTER_ROWS]);
            assert(heights.take(0) =~= Seq::<u16>::empty());
            assert(heights.take(1).drop_last() =~= heights.take(0));
            assert(heights.take(2).drop_last() =~= heights.take(1));
            assert(heights.take(3).drop_last() =~= heights.take(2));
            assert(total(heights.take(1)) == 3);
            assert(total(heights.take(2)) == 6);
            assert(total(heights.take(3)) == area.height - 7);
        }
    }
    panels_in(&rows)
}

/// Where the panels fit, each begins where the one above it ends, and the margin is all that is
/// left above and below them: no two panels overlap, and no row is wasted.
pub proof fn law_panels_tile_the_screen(area: Area, layout: ScreenLayout)
    requires
        screen_fits(area),
        layout.fills(area),
    ensures
        layout.tiles(inside(area, MARGIN)),
        layout.header.y == area.y + MARGIN,
        layout.ambient.y == layout.header.y + layout.header.height,
        layout.metrics.y == layout.ambient.y + layout.ambient.height,
        layout.footer.y == layout.metrics.y + layout.metrics.height,
        layout.footer.y + layout.footer.height + MARGIN == area.y + area.height,
{
}

/// Whether a row of the screen belongs to a panel.
pub open spec fn has_row(panel: Area, row: int) -> bool {
    panel.y <= row < panel.y + panel.height
}

/// However small the screen, as long as its last row is within coordinates: the panels share all
/// rows within the margin, and each of those rows belongs to exactly one of them.
pub proof fn law_panels_share_every_screen(area: Area, layout: ScreenLayout, row: int)
    requires
        area.y + area.height <= u16::MAX,
        layout.tiles(inside(area, MARGIN)),
    ensures
        layout.header.height + layout.ambient.height + layout.metrics.height
            + layout.footer.height == inside(area, MARGIN).height,
        has_row(inside(area, MARGIN), row) <==> (has_row(layout.header, row) || has_row(
            layout.ambient,
            row,
        ) || has_row(layout.metrics, row) || has_row(layout.footer, row)),
        has_row(layout.header, row) ==> !has_row(layout.ambient, row),
        has_row(layout.header, row) || has_row(layout.ambient, row) ==> !has_row(
            layout.metrics,
            row,
        ),
        has_row(layout.header, row) || has_row(layout.ambient, row) || has_row(layout.metrics, row)
            ==> !has_row(layout.footer, row),
{
}

/// No panel leaves the screen, however small it is, as long as the margins fit and its last row
/// and column are within coordinates.
pub proof fn law_panels_stay_on_the_screen(area: Area, panel: Area)
    requires
        area.x + area.width <= u16::MAX,
        area.y + area.height <= u16::MAX,
        area.width >= 2 * MARGIN,
        area.height >= 2 * MARGIN,
        row_of(panel, inside(area, MARGIN)),
    ensures
        area.x + MARGIN == panel.x,
        panel.x + panel.width + MARGIN == area.x + area.width,
        area.y + MARGIN <= panel.y,
        panel.y + panel.height + MARGIN <= area.y + area.height,
{
}

/// One cell is left free on every side of a screen that has room for it, and the rest is for the
/// panels.
pub proof fn law_margin_is_one_cell(area: Area)
    requires
        area.width >= 2,
        area.height >= 2,
        area.x + area.width <= 65535,
        area.y + area.height <= 65535,
    ensures
        inside(area, MARGIN).x == area.x + 1,
        inside(area, MARGIN).y == area.y + 1,
        inside(area, MARGIN).width + 2 == area.width,
        inside(area, MARGIN).height + 2 == area.height,
{
}

/// Wherever there is room for them, header and ambient panel have three rows, the footer five, and
/// the metrics all that is left; they stand in this order from the top.
pub proof fn law_panels_have_their_rows(area: Area, layout: ScreenLayout)
    requires
        area.y + area.height <= 65535,
        area.width >= 2,
        area.height >= 13,
        layout.tiles(inside(area, MARGIN)),
        layout.keeps_heights(inside(area, MARGIN)),
    ensures
        layout.header.y == area.y + 1,
        layout.header.height == 3,
        layout.ambient.y == area.y + 4,
        layout.ambient.height == 3,
        layout.metrics.y == area.y + 7,
        layout.metrics.height == area.height - 13,
        layout.footer.y == area.y + area.height - 6,
        layout.footer.height == 5,
        screen_fits(area),
        layout.fills(area),
{
}

/// Where there is no room for all of them, the metrics have no rows, no panel has more than its own,
/// and together they take all rows within the margin.
pub proof fn law_cramped_panels_take_what_is_there(area: Area, layout: ScreenLayout)
    requires
        area.y + area.height <= 65535,
        area.width >= 2,
        2 <= area.height <= 13,
        layout.tiles(inside(area, MARGIN)),
        layout.keeps_heights(inside(area, MARGIN)),
    ensures
        layout.metrics.height == 0,
        layout.header.height <= 3,
        layout.ambient.height <= 3,
        layout.footer.height <= 5,
        layout.header.height + layout.ambient.height + layout.footer.height == area.height - 2,
        layout.header.y == area.y + 1,
        layout.ambient.y == layout.header.y + layout.header.height,
        layout.footer.y == layout.ambient.y + layout.ambient.height,
        layout.footer.y + layout.footer.height == area.y + area.height - 1,
{
}

/// Rows that fill an area from top to bottom are handed out in that order: the panels fill it too,
/// the header first and the footer last, and each has the row that it was handed.
pub proof fn law_rows_are_handed_out_from_top_to_bottom(rows: Seq<Area>, within: Area)
    requires
        rows.len() == 4,
    ensures
        tiled(rows, within) ==> handed_out(rows).tiles(within),
        seq![
            handed_out(rows).header,
            handed_out(rows).ambient,
            handed_out(rows).metrics,
            handed_out(rows).footer,
        ] == rows,
{
    if tiled(rows, within) {
        assert(rows[0].y + rows[0].height == rows[1].y);
        assert(rows[1].y + rows[1].height == rows[2].y);
        assert(rows[2].y + rows[2].height == rows[3].y);
        assert(rows.last() == rows[3]);
    }
    assert(seq![
        handed_out(rows).header,
        handed_out(rows).ambient,
        handed_out(rows).metrics,
        handed_out(rows).footer,
    ] =~= rows);
}

} // verus!
