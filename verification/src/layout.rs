//! A constraint-based rectangle splitter. Constraints are resolved strictly
//! left-to-right (or top-to-bottom); each resolved size is capped by the span
//! remaining after the constraints before it, so the produced rectangles tile
//! the padded area contiguously, in order, with no gaps or overlaps. The even
//! shortcut splits use integer division throughout: remainder cells are left
//! over at the far edge, never redistributed.
use vstd::prelude::*;
use crate::rect::{RectExt, spec_pad};

verus! {

pub type Length = u16;

pub type RemainingLength = Length;

pub type Percentage = u16;

/// Area constraints that are easy to calculate: each one resolves from the
/// full span and the running offset alone, never from the constraints after
/// it, so no general solver is needed.
///
/// `MinLenGrowthPcnt` is meant for layouts whose later constraints are all
/// percentages that total the remaining share, and `MinLenRemaining` for
/// layouts whose later constraints are all fixed lengths totalling
/// `RemainingLength`; each is `max(min, …)` of its two parts.
#[derive(Clone, Copy)]
pub enum BasicConstraint {
    /// Number of characters / lines.
    Length(Length),
    /// Percentage of the entire area from 0 - 100.
    Percentage(Percentage),
    /// A minimum length that is expanded by the given percentage from 0 - 100.
    MinLenGrowthPcnt(Length, Percentage),
    /// A minimum length that expands up to a specified `RemainingLength`.
    MinLenRemaining(Length, RemainingLength),
}

/// `pcnt` percent of `value`, rounded to nearest with halves rounding up,
/// capped at the top of the range.
pub open spec fn spec_rounded_percentage(value: u16, pcnt: u16) -> u16 {
    let exact = (value * pcnt + 50) / 100;
    if exact > u16::MAX {
        u16::MAX
    } else {
        exact as u16
    }
}

/// Calculate a rounded percentage `pcnt` of the given `value` with integer
/// arithmetic only: the result is `value * pcnt / 100` rounded to nearest,
/// with a half rounding up.
pub fn fast_rounded_percentage(value: u16, pcnt: u16) -> (r: u16)
    ensures
        r == spec_rounded_percentage(value, pcnt),
{
    proof {
        assert(value * pcnt <= 0xfffe0001) by (nonlinear_arith)
            requires
                value <= u16::MAX,
                pcnt <= u16::MAX,
        ;
    }
    let mult: u64 = value as u64 * pcnt as u64;
    let result: u64 = mult / 100 + if mult % 100 >= 50 {
        1u64
    } else {
        0u64
    };
    proof {
        let m = mult as int;
        let q = m / 100;
        let r = m % 100;
        vstd::arithmetic::div_mod::lemma_fundamental_div_mod(m, 100);
        if r >= 50 {
            vstd::arithmetic::div_mod::lemma_fundamental_div_mod_converse(m + 50, 100, q + 1, r - 50);
        } else {
            vstd::arithmetic::div_mod::lemma_fundamental_div_mod_converse(m + 50, 100, q, r + 50);
        }
    }
    if result > u16::MAX as u64 {
        u16::MAX
    } else {
        result as u16
    }
}

/// The size a constraint resolves to, before the remaining-span cap, given
/// the full span and the offset the constraints before it reached.
pub open spec fn spec_resolved_size(c: BasicConstraint, total: u16, offset: int) -> int {
    match c {
        BasicConstraint::Length(len) => len as int,
        BasicConstraint::Percentage(pcnt) => spec_rounded_percentage(total, pcnt) as int,
        BasicConstraint::MinLenGrowthPcnt(min, pcnt) => {
            let grown = spec_rounded_percentage(total, pcnt) as int;
            if grown > min {
                grown
            } else {
                min as int
            }
        },
        BasicConstraint::MinLenRemaining(min, remaining) => {
            let rest = if total - offset - remaining > 0 {
                total - offset - remaining
            } else {
                0
            };
            if rest > min {
                rest
            } else {
                min as int
            }
        },
    }
}

/// The size a constraint receives: its resolved size, capped by the span
/// remaining after the constraints before it.
pub open spec fn spec_clamped_size(c: BasicConstraint, total: u16, offset: int) -> int {
    let size = spec_resolved_size(c, total, offset);
    if size > total - offset {
        total - offset
    } else {
        size
    }
}

/// The offset at which constraint `i` starts: the sum of the sizes received
/// by the constraints before it.
pub open spec fn spec_split_offset(cs: Seq<BasicConstraint>, total: u16, i: int) -> int
    decreases i,
{
    if i <= 0 {
        0
    } else {
        let prev = spec_split_offset(cs, total, i - 1);
        prev + spec_clamped_size(cs[i - 1], total, prev)
    }
}

/// Offsets stay between zero and the full span: sizes are never negative and
/// the running cap keeps their sum within the area. This is the partition
/// law for `SimpleLayout::split`: consecutive cells are contiguous by
/// construction, and the split never overruns the span.
pub proof fn lemma_split_offsets_bounded(cs: Seq<BasicConstraint>, total: u16, i: int)
    requires
        0 <= i,
    ensures
        0 <= spec_split_offset(cs, total, i) <= total,
        spec_split_offset(cs, total, i) <= spec_split_offset(cs, total, i + 1),
    decreases i,
{
    if i > 0 {
        lemma_split_offsets_bounded(cs, total, i - 1);
    }
}

/// When the padded span ends within the coordinate range, consecutive cells
/// of a split are exactly adjacent: no position saturates, so cell `i + 1`
/// starts where cell `i` ends — the split tiles the span with no gaps and
/// no overlaps.
pub proof fn lemma_split_contiguous(cs: Seq<BasicConstraint>, pos: u16, total: u16, i: int)
    requires
        0 <= i,
        pos + total <= u16::MAX,
    ensures
        crate::sat_add16(pos as int, spec_split_offset(cs, total, i + 1)) as int == crate::sat_add16(
            pos as int,
            spec_split_offset(cs, total, i),
        ) + spec_clamped_size(cs[i], total, spec_split_offset(cs, total, i)),
{
    lemma_split_offsets_bounded(cs, total, i);
    lemma_split_offsets_bounded(cs, total, i + 1);
}

/// A rectangle spanning `[pos, pos + size)` along the split axis of `area`,
/// and all of `area` across it.
pub open spec fn spec_axis_rect(
    dir: tui::layout::Direction,
    area: tui::layout::Rect,
    pos: u16,
    size: u16,
) -> tui::layout::Rect {
    match dir {
        tui::layout::Direction::Horizontal => tui::layout::Rect { x: pos, width: size, ..area },
        tui::layout::Direction::Vertical => tui::layout::Rect { y: pos, height: size, ..area },
    }
}

/// The start of `area` along the split axis.
pub open spec fn spec_axis_pos(dir: tui::layout::Direction, area: tui::layout::Rect) -> u16 {
    match dir {
        tui::layout::Direction::Horizontal => area.x,
        tui::layout::Direction::Vertical => area.y,
    }
}

/// The extent of `area` along the split axis.
pub open spec fn spec_axis_size(dir: tui::layout::Direction, area: tui::layout::Rect) -> u16 {
    match dir {
        tui::layout::Direction::Horizontal => area.width,
        tui::layout::Direction::Vertical => area.height,
    }
}

/// A position and size along one axis of a rectangle.
#[derive(Clone, Copy)]
pub(crate) struct GenericRect {
    pub pos: u16,
    pub size: u16,
}

impl GenericRect {
    pub(crate) fn new(pos: u16, size: u16) -> (r: Self)
        ensures
            r.pos == pos,
            r.size == size,
    {
        GenericRect { pos, size }
    }

    pub(crate) fn from_dir(dir: &tui::layout::Direction, area: tui::layout::Rect) -> (r: Self)
        ensures
            r.pos == spec_axis_pos(*dir, area),
            r.size == spec_axis_size(*dir, area),
    {
        match dir {
            tui::layout::Direction::Horizontal => GenericRect::new(area.x, area.width),
            tui::layout::Direction::Vertical => GenericRect::new(area.y, area.height),
        }
    }

    pub(crate) fn as_rect(self, dir: &tui::layout::Direction, area: tui::layout::Rect) -> (r:
        tui::layout::Rect)
        ensures
            r == spec_axis_rect(*dir, area, self.pos, self.size),
    {
        match dir {
            tui::layout::Direction::Horizontal => self.as_horiz_rect(area),
            tui::layout::Direction::Vertical => self.as_vert_rect(area),
        }
    }

    pub(crate) fn as_horiz_rect(self, area: tui::layout::Rect) -> (r: tui::layout::Rect)
        ensures
            r == (tui::layout::Rect { x: self.pos, width: self.size, ..area }),
    {
        tui::layout::Rect { x: self.pos, width: self.size, ..area }
    }

    pub(crate) fn as_vert_rect(self, area: tui::layout::Rect) -> (r: tui::layout::Rect)
        ensures
            r == (tui::layout::Rect { y: self.pos, height: self.size, ..area }),
    {
        tui::layout::Rect { y: self.pos, height: self.size, ..area }
    }
}

/// An evenly split layout.
#[derive(Clone)]
pub struct EvenSplit {
    /// The left / top cell.
    pub left: tui::layout::Rect,
    /// The right / bottom cell.
    pub right: tui::layout::Rect,
}

/// A layout consisting of four evenly sized cells.
#[derive(Clone)]
pub struct QuarterSplit {
    pub first: tui::layout::Rect,
    pub second: tui::layout::Rect,
    pub third: tui::layout::Rect,
    pub fourth: tui::layout::Rect,
}

/// A layout consisting of four evenly sized quadrants.
#[derive(Clone)]
pub struct QuadrantSplit {
    pub top_left: tui::layout::Rect,
    pub top_right: tui::layout::Rect,
    pub bottom_left: tui::layout::Rect,
    pub bottom_right: tui::layout::Rect,
}

/// Build simple layouts without ever allocating more than the result.
#[derive(Clone)]
pub struct SimpleLayout {
    pub direction: tui::layout::Direction,
    pub margin_x: u16,
    pub margin_y: u16,
}

impl SimpleLayout {
    pub fn new(direction: tui::layout::Direction) -> (r: Self)
        ensures
            r.direction == direction,
            r.margin_x == 0,
            r.margin_y == 0,
    {
        SimpleLayout { direction, margin_x: 0, margin_y: 0 }
    }

    pub fn horizontal_margin(self, margin: u16) -> (r: Self)
        ensures
            r == (SimpleLayout { margin_x: margin, ..self }),
    {
        SimpleLayout { margin_x: margin, ..self }
    }

    pub fn vertical_margin(self, margin: u16) -> (r: Self)
        ensures
            r == (SimpleLayout { margin_y: margin, ..self }),
    {
        SimpleLayout { margin_y: margin, ..self }
    }

    pub fn margin(self, margin: u16) -> (r: Self)
        ensures
            r == (SimpleLayout { margin_x: margin, margin_y: margin, ..self }),
    {
        SimpleLayout { margin_x: margin, margin_y: margin, ..self }
    }

    /// The area left once this layout's margins are applied.
    pub open spec fn spec_padded(self, area: tui::layout::Rect) -> tui::layout::Rect {
        spec_pad(area, self.margin_x, self.margin_y)
    }

    fn get_padded(&self, area: tui::layout::Rect) -> (r: tui::layout::Rect)
        ensures
            r == self.spec_padded(area),
    {
        area.pad(self.margin_x, self.margin_y)
    }

    /// Build a layout with two evenly split cells. The two cells take half
    /// the padded span each; an odd remainder cell is left at the far edge.
    pub fn split_evenly(self, area: tui::layout::Rect) -> (r: EvenSplit)
        ensures
            ({
                let padded = self.spec_padded(area);
                let pos = spec_axis_pos(self.direction, padded);
                let half = spec_axis_size(self.direction, padded) as int / 2;
                &&& r.left == spec_axis_rect(self.direction, padded, pos, half as u16)
                &&& r.right == spec_axis_rect(
                    self.direction,
                    padded,
                    crate::sat_add16(pos as int, half),
                    half as u16,
                )
            }),
    {
        let area = self.get_padded(area);
        let gen_rect = GenericRect::from_dir(&self.direction, area);

        let half_size = gen_rect.size / 2;

        let left = GenericRect { size: half_size, ..gen_rect };
        let right = GenericRect { pos: crate::sat_add_u16(gen_rect.pos, half_size), size: half_size };

        EvenSplit {
            left: left.as_rect(&self.direction, area),
            right: right.as_rect(&self.direction, area),
        }
    }

    /// Build a layout consisting of four evenly sized cells. Each cell takes
    /// a quarter of the padded span; remainder cells are left at the far
    /// edge.
    pub fn split_quarters(self, area: tui::layout::Rect) -> (r: QuarterSplit)
        ensures
            ({
                let padded = self.spec_padded(area);
                let pos = spec_axis_pos(self.direction, padded);
                let quarter = spec_axis_size(self.direction, padded) as int / 4;
                &&& r.first == spec_axis_rect(self.direction, padded, pos, quarter as u16)
                &&& r.second == spec_axis_rect(
                    self.direction,
                    padded,
                    crate::sat_add16(pos as int, quarter),
                    quarter as u16,
                )
                &&& r.third == spec_axis_rect(
                    self.direction,
                    padded,
                    crate::sat_add16(pos as int, 2 * quarter),
                    quarter as u16,
                )
                &&& r.fourth == spec_axis_rect(
                    self.direction,
                    padded,
                    crate::sat_add16(pos as int, 3 * quarter),
                    quarter as u16,
                )
            }),
    {
        let area = self.get_padded(area);
        let gen_rect = GenericRect::from_dir(&self.direction, area);

        let quarter_size = gen_rect.size / 4;

        let first = GenericRect::new(gen_rect.pos, quarter_size);
        let second = GenericRect::new(crate::sat_add_u16(gen_rect.pos, quarter_size), quarter_size);
        let third = GenericRect::new(crate::sat_add_u16(gen_rect.pos, 2 * quarter_size), quarter_size);
        let fourth = GenericRect::new(crate::sat_add_u16(gen_rect.pos, 3 * quarter_size), quarter_size);

        QuarterSplit {
            first: first.as_rect(&self.direction, area),
            second: second.as_rect(&self.direction, area),
            third: third.as_rect(&self.direction, area),
            fourth: fourth.as_rect(&self.direction, area),
        }
    }

    /// Build a layout consisting of four evenly sized quadrants. Each
    /// quadrant takes half the padded width and height; odd remainder cells
    /// are left along the right and bottom edges.
    pub fn split_quadrants(self, area: tui::layout::Rect) -> (r: QuadrantSplit)
        ensures
            ({
                let padded = self.spec_padded(area);
                let hw = padded.width as int / 2;
                let hh = padded.height as int / 2;
                &&& r.top_left == (tui::layout::Rect {
                    x: padded.x,
                    y: padded.y,
                    width: hw as u16,
                    height: hh as u16,
                })
                &&& r.top_right == (tui::layout::Rect {
                    x: crate::sat_add16(padded.x as int, hw),
                    y: padded.y,
                    width: hw as u16,
                    height: hh as u16,
                })
                &&& r.bottom_left == (tui::layout::Rect {
                    x: padded.x,
                    y: crate::sat_add16(padded.y as int, hh),
                    width: hw as u16,
                    height: hh as u16,
                })
                &&& r.bottom_right == (tui::layout::Rect {
                    x: crate::sat_add16(padded.x as int, hw),
                    y: crate::sat_add16(padded.y as int, hh),
                    width: hw as u16,
                    height: hh as u16,
                })
            }),
    {
        let area = self.get_padded(area);

        let half_width = area.width / 2;
        let half_height = area.height / 2;

        QuadrantSplit {
            top_left: tui::layout::Rect {
                x: area.x,
                y: area.y,
                width: half_width,
                height: half_height,
            },
            top_right: tui::layout::Rect {
                x: crate::sat_add_u16(area.x, half_width),
                y: area.y,
                width: half_width,
                height: half_height,
            },
            bottom_left: tui::layout::Rect {
                x: area.x,
                y: crate::sat_add_u16(area.y, half_height),
                width: half_width,
                height: half_height,
            },
            bottom_right: tui::layout::Rect {
                x: crate::sat_add_u16(area.x, half_width),
                y: crate::sat_add_u16(area.y, half_height),
                width: half_width,
                height: half_height,
            },
        }
    }

    /// Split the given `area` by the given list of constraints, resolved
    /// strictly in order. Cell `i` starts where cell `i - 1` ended and takes
    /// its constraint's resolved size capped by the span that is left, so
    /// the cells tile the padded area in order without gaps or overlaps.
    pub fn split(self, area: tui::layout::Rect, constraints: &[BasicConstraint]) -> (r: Vec<
        tui::layout::Rect,
    >)
        ensures
            r@.len() == constraints@.len(),
            forall|i: int|
                0 <= i < constraints@.len() ==> r@[i] == #[trigger] spec_axis_rect(
                    self.direction,
                    self.spec_padded(area),
                    crate::sat_add16(
                        spec_axis_pos(self.direction, self.spec_padded(area)) as int,
                        spec_split_offset(
                            constraints@,
                            spec_axis_size(self.direction, self.spec_padded(area)),
                            i,
                        ),
                    ),
                    spec_clamped_size(
                        constraints@[i],
                        spec_axis_size(self.direction, self.spec_padded(area)),
                        spec_split_offset(
                            constraints@,
                            spec_axis_size(self.direction, self.spec_padded(area)),
                            i,
                        ),
                    ) as u16,
                ),
    {
        let area = self.get_padded(area);
        let gen_rect = GenericRect::from_dir(&self.direction, area);
        let ghost total = gen_rect.size;

        let mut results: Vec<tui::layout::Rect> = Vec::new();
        let mut offset: u16 = 0;
        let mut i: usize = 0;

        while i < constraints.len()
            invariant
                gen_rect.size == total,
                results@.len() == i,
                0 <= i <= constraints@.len(),
                offset == spec_split_offset(constraints@, total, i as int),
                offset <= total,
                forall|j: int|
                    0 <= j < i ==> results@[j] == #[trigger] spec_axis_rect(
                        self.direction,
                        area,
                        crate::sat_add16(
                            gen_rect.pos as int,
                            spec_split_offset(constraints@, total, j),
                        ),
                        spec_clamped_size(
                            constraints@[j],
                            total,
                            spec_split_offset(constraints@, total, j),
                        ) as u16,
                    ),
            decreases constraints@.len() - i,
        {
            let c = constraints[i];
            let size: u16 = match c {
                BasicConstraint::Length(len) => len,
                BasicConstraint::Percentage(pcnt) => fast_rounded_percentage(gen_rect.size, pcnt),
                BasicConstraint::MinLenGrowthPcnt(min, pcnt) => {
                    let value = fast_rounded_percentage(gen_rect.size, pcnt);
                    if value > min {
                        value
                    } else {
                        min
                    }
                },
                BasicConstraint::MinLenRemaining(min, remaining) => {
                    let rest: u32 = gen_rect.size as u32 - offset as u32;
                    let rest: u16 = if rest > remaining as u32 {
                        (rest - remaining as u32) as u16
                    } else {
                        0
                    };
                    if rest > min {
                        rest
                    } else {
                        min
                    }
                },
            };

            let max_size = if size < gen_rect.size - offset {
                size
            } else {
                gen_rect.size - offset
            };

            let rect = GenericRect::new(crate::sat_add_u16(gen_rect.pos, offset), max_size);
            results.push(rect.as_rect(&self.direction, area));

            offset = offset + max_size;
            i = i + 1;
        }

        results
    }
}

impl Default for SimpleLayout {
    fn default() -> (r: Self)
        ensures
            r.direction == tui::layout::Direction::Horizontal,
            r.margin_x == 0,
            r.margin_y == 0,
    {
        SimpleLayout {
            direction: tui::layout::Direction::Horizontal,
            margin_x: 0,
            margin_y: 0,
        }
    }
}

} // verus!
