//! Saturating transforms on rectangles: padding, cropping to a number of
//! rows, and placement on a uniform grid. Every operation floors a shrinking
//! dimension at zero and caps a growing coordinate at the top of the range,
//! so no transform can fail.
use vstd::prelude::*;
use crate::{sat_add16, sat_add_u16, sat_sub16, sat_sub_u16, spec_grid_pos};

verus! {

/// `area` shrunk by `padding_x` cells on the left and right and `padding_y`
/// cells on the top and bottom.
pub open spec fn spec_pad(
    area: tui::layout::Rect,
    padding_x: u16,
    padding_y: u16,
) -> tui::layout::Rect {
    tui::layout::Rect {
        x: sat_add16(area.x as int, padding_x as int),
        y: sat_add16(area.y as int, padding_y as int),
        width: sat_sub16(area.width as int, 2 * padding_x),
        height: sat_sub16(area.height as int, 2 * padding_y),
    }
}

/// `area` shrunk by `padding` cells on the left and right.
pub open spec fn spec_pad_horiz(area: tui::layout::Rect, padding: u16) -> tui::layout::Rect {
    tui::layout::Rect {
        x: sat_add16(area.x as int, padding as int),
        width: sat_sub16(area.width as int, 2 * padding),
        ..area
    }
}

/// `area` shrunk by `padding` cells on the left only.
pub open spec fn spec_pad_left(area: tui::layout::Rect, padding: u16) -> tui::layout::Rect {
    tui::layout::Rect {
        x: sat_add16(area.x as int, padding as int),
        width: sat_sub16(area.width as int, padding as int),
        ..area
    }
}

/// `area` shrunk by `padding` cells on the top and bottom.
pub open spec fn spec_pad_vert(area: tui::layout::Rect, padding: u16) -> tui::layout::Rect {
    tui::layout::Rect {
        y: sat_add16(area.y as int, padding as int),
        height: sat_sub16(area.height as int, 2 * padding),
        ..area
    }
}

/// The sub-rectangle of at most `lines` rows along the top edge of `area`.
pub open spec fn spec_lines_from_top(area: tui::layout::Rect, lines: u16) -> tui::layout::Rect {
    tui::layout::Rect {
        height: if lines < area.height {
            lines
        } else {
            area.height
        },
        ..area
    }
}

/// The sub-rectangle of at most `lines` rows along the bottom edge of
/// `area`: its height is `lines` capped by the area's height, and it ends
/// where the area ends.
pub open spec fn spec_lines_from_bottom(area: tui::layout::Rect, lines: u16) -> tui::layout::Rect {
    let height = if lines < area.height {
        lines
    } else {
        area.height
    };
    tui::layout::Rect {
        y: sat_add16(area.y as int, area.height - height),
        height,
        ..area
    }
}

/// Saturating transforms on a rectangle.
pub trait RectExt: Sized + Copy {
    /// The rectangle this value stands for.
    spec fn rect(self) -> tui::layout::Rect;

    fn pad(self, padding_x: u16, padding_y: u16) -> (r: tui::layout::Rect)
        ensures
            r == spec_pad(self.rect(), padding_x, padding_y),
    ;

    fn pad_horiz(self, padding: u16) -> (r: tui::layout::Rect)
        ensures
            r == spec_pad_horiz(self.rect(), padding),
    ;

    fn pad_left(self, padding: u16) -> (r: tui::layout::Rect)
        ensures
            r == spec_pad_left(self.rect(), padding),
    ;

    fn pad_vert(self, padding: u16) -> (r: tui::layout::Rect)
        ensures
            r == spec_pad_vert(self.rect(), padding),
    ;

    /// Returns a rect spanning from the top of this one down to the number of
    /// `lines` specified.
    fn lines_from_top(self, lines: u16) -> (r: tui::layout::Rect)
        ensures
            r == spec_lines_from_top(self.rect(), lines),
    ;

    /// Returns a rect spanning from the bottom of this one up to the number
    /// of `lines` specified.
    fn lines_from_bottom(self, lines: u16) -> (r: tui::layout::Rect)
        ensures
            r == spec_lines_from_bottom(self.rect(), lines),
    ;

    /// Returns a calculated grid position; the `x` and `y` fields of
    /// `dimensions` indicate the coordinates on the grid.
    fn grid_pos(self, dimensions: tui::layout::Rect) -> (r: tui::layout::Rect)
        ensures
            r == spec_grid_pos(dimensions, self.rect()),
    ;
}

impl RectExt for tui::layout::Rect {
    open spec fn rect(self) -> tui::layout::Rect {
        self
    }

    fn pad(self, padding_x: u16, padding_y: u16) -> (r: tui::layout::Rect) {
        tui::layout::Rect {
            x: sat_add_u16(self.x, padding_x),
            y: sat_add_u16(self.y, padding_y),
            width: sub_double(self.width, padding_x),
            height: sub_double(self.height, padding_y),
        }
    }

    fn pad_horiz(self, padding: u16) -> (r: tui::layout::Rect) {
        tui::layout::Rect { x: sat_add_u16(self.x, padding), width: sub_double(self.width, padding), ..self }
    }

    fn pad_left(self, padding: u16) -> (r: tui::layout::Rect) {
        tui::layout::Rect {
            x: sat_add_u16(self.x, padding),
            width: sat_sub_u16(self.width, padding),
            ..self
        }
    }

    fn pad_vert(self, padding: u16) -> (r: tui::layout::Rect) {
        tui::layout::Rect { y: sat_add_u16(self.y, padding), height: sub_double(self.height, padding), ..self }
    }

    fn lines_from_top(self, lines: u16) -> (r: tui::layout::Rect) {
        tui::layout::Rect {
            height: if lines < self.height {
                lines
            } else {
                self.height
            },
            ..self
        }
    }

    fn lines_from_bottom(self, lines: u16) -> (r: tui::layout::Rect) {
        let height = if lines < self.height {
            lines
        } else {
            self.height
        };
        tui::layout::Rect { y: sat_add_u16(self.y, self.height - height), height, ..self }
    }

    fn grid_pos(self, dimensions: tui::layout::Rect) -> (r: tui::layout::Rect) {
        crate::grid_pos(dimensions, self)
    }
}

/// The cell `(x, y)` can be addressed inside `bounds`: at or after its
/// origin, and strictly before its right and bottom edges, both capped at
/// the top of the coordinate range as a terminal buffer caps them.
pub open spec fn spec_cell_in(bounds: tui::layout::Rect, x: int, y: int) -> bool {
    &&& bounds.x <= x < sat_add16(bounds.x as int, bounds.width as int)
    &&& bounds.y <= y < sat_add16(bounds.y as int, bounds.height as int)
}

/// The cells of one column of `area` (offset `dx` from its left edge, rows
/// `dy` and below) that can be addressed inside `bounds`, top to bottom.
pub open spec fn spec_column_cells(
    area: tui::layout::Rect,
    bounds: tui::layout::Rect,
    dx: int,
    dy: int,
) -> Seq<(u16, u16)>
    decreases area.height - dy,
{
    if dy < 0 || dy >= area.height {
        seq![]
    } else {
        let cx = area.x + dx;
        let cy = area.y + dy;
        (if spec_cell_in(bounds, cx, cy) {
            seq![(cx as u16, cy as u16)]
        } else {
            seq![]
        }) + spec_column_cells(area, bounds, dx, dy + 1)
    }
}

/// The cells of `area` (columns `dx` and beyond) that can be addressed
/// inside `bounds`, column by column.
pub open spec fn spec_area_cells(
    area: tui::layout::Rect,
    bounds: tui::layout::Rect,
    dx: int,
) -> Seq<(u16, u16)>
    decreases area.width - dx,
{
    if dx < 0 || dx >= area.width {
        seq![]
    } else {
        spec_column_cells(area, bounds, dx, 0) + spec_area_cells(area, bounds, dx + 1)
    }
}

/// Returns the coordinates of the cells of `area` that can be addressed
/// inside `bounds`, column by column and top to bottom within each column.
/// Cells of `area` outside `bounds` are left out, so every returned
/// coordinate is safe to hand to a buffer created over `bounds`.
pub fn area_cells(area: tui::layout::Rect, bounds: tui::layout::Rect) -> (r: Vec<(u16, u16)>)
    ensures
        r@ == spec_area_cells(area, bounds, 0),
        forall|k: int|
            0 <= k < r@.len() ==> spec_cell_in(
                bounds,
                (#[trigger] r@[k]).0 as int,
                r@[k].1 as int,
            ),
{
    let right: u16 = sat_add_u16(bounds.x, bounds.width);
    let bottom: u16 = sat_add_u16(bounds.y, bounds.height);
    let mut r: Vec<(u16, u16)> = Vec::new();
    let mut dx: u16 = 0;

    while dx < area.width
        invariant
            right == sat_add16(bounds.x as int, bounds.width as int),
            bottom == sat_add16(bounds.y as int, bounds.height as int),
            0 <= dx <= area.width,
            spec_area_cells(area, bounds, 0) == r@ + spec_area_cells(area, bounds, dx as int),
            forall|k: int|
                0 <= k < r@.len() ==> spec_cell_in(
                    bounds,
                    (#[trigger] r@[k]).0 as int,
                    r@[k].1 as int,
                ),
        decreases area.width - dx,
    {
        let mut dy: u16 = 0;
        while dy < area.height
            invariant
                right == sat_add16(bounds.x as int, bounds.width as int),
                bottom == sat_add16(bounds.y as int, bounds.height as int),
                0 <= dx < area.width,
                0 <= dy <= area.height,
                spec_area_cells(area, bounds, 0) == r@ + spec_column_cells(
                    area,
                    bounds,
                    dx as int,
                    dy as int,
                ) + spec_area_cells(area, bounds, dx as int + 1),
                forall|k: int|
                    0 <= k < r@.len() ==> spec_cell_in(
                        bounds,
                        (#[trigger] r@[k]).0 as int,
                        r@[k].1 as int,
                    ),
            decreases area.height - dy,
        {
            let cx: u32 = area.x as u32 + dx as u32;
            let cy: u32 = area.y as u32 + dy as u32;
            if bounds.x as u32 <= cx && cx < right as u32 && bounds.y as u32 <= cy && cy
                < bottom as u32 {
                r.push((cx as u16, cy as u16));
            }
            dy = dy + 1;
        }
        dx = dx + 1;
    }
    proof {
        assert(spec_area_cells(area, bounds, area.width as int) =~= Seq::<(u16, u16)>::empty());
    }
    r
}

/// `value` shrunk by twice `padding`, floored at zero.
fn sub_double(value: u16, padding: u16) -> (r: u16)
    ensures
        r == sat_sub16(value as int, 2 * padding),
{
    let d: u32 = 2 * padding as u32;
    if value as u32 > d {
        value - d as u16
    } else {
        0
    }
}

} // verus!
