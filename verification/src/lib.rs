//! Small, allocation-light building blocks for tui applications: a
//! constraint-based rectangle splitter, a styled text-fragment model with
//! grapheme-aware wrapping, and list, table and log widgets that keep a
//! selected row visible while they scroll.
use vstd::prelude::*;

pub mod fragment;
pub mod layout;
pub mod list;
pub mod log;
pub mod paint;
pub mod rect;
pub mod simple_list;
pub mod simple_text;
pub mod table;
pub mod text_fragments;
pub mod unicode;
pub mod wrap;

verus! {

/// Saturating sum of two values, capped at the top of the coordinate range.
pub open spec fn sat_add16(a: int, b: int) -> u16 {
    if a + b > u16::MAX {
        u16::MAX
    } else {
        (a + b) as u16
    }
}

/// Difference of two values, floored at zero.
pub open spec fn sat_sub16(a: int, b: int) -> u16 {
    if a - b > 0 {
        (a - b) as u16
    } else {
        0u16
    }
}

pub(crate) fn sat_add_u16(a: u16, b: u16) -> (r: u16)
    ensures
        r == sat_add16(a as int, b as int),
{
    if a as u32 + b as u32 > u16::MAX as u32 {
        u16::MAX
    } else {
        a + b
    }
}

/// `n` clipped into the range of a cell count.
pub open spec fn cap16(n: int) -> u16 {
    if n > u16::MAX {
        u16::MAX
    } else if n < 0 {
        0u16
    } else {
        n as u16
    }
}

pub(crate) fn cap_u16(n: usize) -> (r: u16)
    ensures
        r == cap16(n as int),
{
    if n > u16::MAX as usize {
        u16::MAX
    } else {
        n as u16
    }
}

pub(crate) fn sat_sub_u16(a: u16, b: u16) -> (r: u16)
    ensures
        r == sat_sub16(a as int, b as int),
{
    if a > b {
        a - b
    } else {
        0
    }
}

/// Where a run of `item_len` cells starts within a row of `total_len` cells
/// under the given alignment; a run too long to fit starts at the left edge.
pub open spec fn spec_alignment_offset(
    alignment: tui::layout::Alignment,
    total_len: u16,
    item_len: u16,
) -> u16 {
    match alignment {
        tui::layout::Alignment::Left => 0u16,
        tui::layout::Alignment::Center => sat_sub16(total_len as int / 2, item_len as int / 2),
        tui::layout::Alignment::Right => sat_sub16(total_len as int, item_len as int),
    }
}

/// Returns the offset at which an item of `item_len` cells is drawn within
/// `total_len` cells to honour `alignment`.
pub fn alignment_offset(alignment: tui::layout::Alignment, total_len: u16, item_len: u16) -> (r:
    u16)
    ensures
        r == spec_alignment_offset(alignment, total_len, item_len),
{
    match alignment {
        tui::layout::Alignment::Left => 0,
        tui::layout::Alignment::Center => sat_sub_u16(total_len / 2, item_len / 2),
        tui::layout::Alignment::Right => sat_sub_u16(total_len, item_len),
    }
}

/// The sequence after its first `n` elements, or empty when `n` passes its
/// end.
pub open spec fn skip_clamped<T>(s: Seq<T>, n: int) -> Seq<T> {
    if n <= s.len() {
        s.skip(n)
    } else {
        Seq::empty()
    }
}

/// The first visible item of a windowed renderer with `viewport_rows` rows,
/// of which the top `header_rows` are taken by a header: zero until the
/// selected index no longer fits, then exactly enough that the selected row
/// becomes the last visible one.
pub open spec fn spec_scroll_offset(selected: Option<u16>, viewport_rows: u16, header_rows: u16) -> u16 {
    match selected {
        Option::None => 0u16,
        Option::Some(i) => {
            if i >= sat_sub16(viewport_rows as int, header_rows as int) {
                sat_add16(header_rows as int, sat_sub16(i + 1, viewport_rows as int) as int)
            } else {
                0u16
            }
        },
    }
}

/// Returns the index of the first item a windowed renderer shows, scrolling
/// forward just enough to keep the selected row visible as the last row.
pub fn scroll_offset(selected: Option<u16>, viewport_rows: u16, header_rows: u16) -> (r: u16)
    ensures
        r == spec_scroll_offset(selected, viewport_rows, header_rows),
{
    match selected {
        Option::Some(i) => {
            if i >= sat_sub_u16(viewport_rows, header_rows) {
                let over: u16 = if i as u32 + 1 > viewport_rows as u32 {
                    (i as u32 + 1 - viewport_rows as u32) as u16
                } else {
                    0
                };
                sat_add_u16(header_rows, over)
            } else {
                0
            }
        },
        Option::None => 0,
    }
}

/// The cell of a uniform grid over `container` whose column and row are given
/// by the `x` and `y` fields of `dimensions`, and whose cell size is given by
/// its `width` and `height` fields.
pub open spec fn spec_grid_pos(
    dimensions: tui::layout::Rect,
    container: tui::layout::Rect,
) -> tui::layout::Rect {
    tui::layout::Rect {
        x: sat_add16(container.x as int, dimensions.width * dimensions.x),
        y: sat_add16(container.y as int, dimensions.height * dimensions.y),
        width: dimensions.width,
        height: dimensions.height,
    }
}

/// Returns a calculated grid position.
///
/// The `x` and `y` fields on the `dimensions` rectangle indicate the x and y
/// coordinates on the grid.
pub fn grid_pos(dimensions: tui::layout::Rect, container: tui::layout::Rect) -> (r:
    tui::layout::Rect)
    ensures
        r == spec_grid_pos(dimensions, container),
{
    proof {
        assert(dimensions.width * dimensions.x <= 0xfffe0001) by (nonlinear_arith)
            requires
                dimensions.width <= u16::MAX,
                dimensions.x <= u16::MAX,
        ;
        assert(dimensions.height * dimensions.y <= 0xfffe0001) by (nonlinear_arith)
            requires
                dimensions.height <= u16::MAX,
                dimensions.y <= u16::MAX,
        ;
    }
    let gx: u64 = container.x as u64 + dimensions.width as u64 * dimensions.x as u64;
    let gy: u64 = container.y as u64 + dimensions.height as u64 * dimensions.y as u64;
    tui::layout::Rect {
        x: if gx > u16::MAX as u64 {
            u16::MAX
        } else {
            gx as u16
        },
        y: if gy > u16::MAX as u64 {
            u16::MAX
        } else {
            gy as u16
        },
        width: dimensions.width,
        height: dimensions.height,
    }
}

} // verus!
