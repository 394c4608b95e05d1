//! A widget that draws fragments of text with different styles across
//! multiple lines: fragments up to each explicit line break form one visual
//! line, aligned within the area. Drawing stops for good at the first
//! fragment that would pass the right edge, and at the bottom edge.
use vstd::prelude::*;
use crate::fragment::{
    first_line_idx, frag_len, frags_len, frags_view, line_prefix, FragView, Fragment,
};
use crate::paint::{buffer_area, ops_view, paint_ops, OpView, PaintOp};
use crate::{cap16, sat_add16, spec_alignment_offset};

verus! {

/// The writes one visual line performs, with its fragments laid out from
/// `x0` cells into the area on row `y`, and whether a fragment that passed
/// the right edge stopped the whole render. The line holds no break
/// fragments; one would end it without a write.
pub open spec fn spec_line_ops(
    line: Seq<FragView>,
    area: tui::layout::Rect,
    x0: int,
    y: int,
) -> (Seq<OpView>, bool)
    decreases line.len(),
{
    if line.len() == 0 {
        (seq![], false)
    } else {
        let l = cap16(frag_len(line[0]) as int) as int;
        if x0 + l > area.width {
            (seq![], true)
        } else {
            match line[0] {
                FragView::Span(sv, _) => {
                    let (rest, stop) = spec_line_ops(line.drop_first(), area, x0 + l, y);
                    (
                        seq![
                            OpView::Text {
                                x: sat_add16(area.x as int, x0),
                                y: sat_add16(area.y as int, y),
                                content: sv.text,
                                max_width: usize::MAX,
                                style: sv.style,
                            },
                        ] + rest,
                        stop,
                    )
                },
                FragView::Char(ch, style) => {
                    let (rest, stop) = spec_line_ops(line.drop_first(), area, x0 + l, y);
                    (
                        seq![
                            OpView::PutChar {
                                x: sat_add16(area.x as int, x0),
                                y: sat_add16(area.y as int, y),
                                ch,
                                style,
                            },
                        ] + rest,
                        stop,
                    )
                },
                FragView::Line => (seq![], false),
            }
        }
    }
}

/// The writes rendering `items` performs from row `y` down: one aligned line
/// per stretch between break fragments, until a fragment passes the right
/// edge or the next row would pass the bottom edge.
pub open spec fn spec_lines_ops(
    items: Seq<FragView>,
    area: tui::layout::Rect,
    alignment: tui::layout::Alignment,
    y: int,
) -> Seq<OpView>
    decreases items.len(),
{
    let line = line_prefix(items);
    let x0 = spec_alignment_offset(alignment, area.width, cap16(frags_len(line) as int)) as int;
    let (lops, stopped) = spec_line_ops(line, area, x0, y);
    if stopped || first_line_idx(items) >= items.len() || y + 1 >= area.height {
        lops
    } else {
        lops + spec_lines_ops(items.skip(first_line_idx(items) as int + 1), area, alignment, y + 1)
    }
}

/// The writes rendering a `TextFragments` widget performs: nothing on a
/// zero-sized area, else its lines from the top row down.
pub open spec fn spec_text_fragments_ops(
    items: Seq<FragView>,
    area: tui::layout::Rect,
    alignment: tui::layout::Alignment,
) -> Seq<OpView> {
    if area.width == 0 || area.height == 0 {
        seq![]
    } else {
        spec_lines_ops(items, area, alignment, 0)
    }
}

/// Draw fragments of text with different styles across multiple lines.
///
/// It is meant for simple text layouts that don't need scrolling. If you
/// only need to draw a single line of text with one style, consider using
/// [`SimpleText`][`crate::simple_text::SimpleText`] instead.
pub struct TextFragments<'a> {
    pub items: &'a [Fragment],
    pub alignment: tui::layout::Alignment,
}

impl<'a> TextFragments<'a> {
    pub fn new(items: &'a [Fragment]) -> (r: Self)
        ensures
            r.items == items,
            r.alignment == tui::layout::Alignment::Left,
    {
        TextFragments { items, alignment: tui::layout::Alignment::Left }
    }

    pub fn alignment(self, alignment: tui::layout::Alignment) -> (r: Self)
        ensures
            r == (TextFragments { alignment, ..self }),
    {
        TextFragments { alignment, ..self }
    }

    /// The writes rendering this widget into `area` performs.
    pub fn plan(&self, area: tui::layout::Rect) -> (ops: Vec<PaintOp>)
        ensures
            ops_view(ops@) == spec_text_fragments_ops(frags_view(self.items@), area, self.alignment),
    {
        let ghost views = frags_view(self.items@);
        let ghost full = spec_lines_ops(views, area, self.alignment, 0);
        let mut ops: Vec<PaintOp> = Vec::new();
        if area.width == 0 || area.height == 0 {
            assert(ops_view(ops@) =~= spec_text_fragments_ops(views, area, self.alignment));
            return ops;
        }

        let mut item_offset: usize = 0;
        let mut offset_y: u16 = 0;

        proof {
            assert(views.skip(0) =~= views);
        }

        loop
            invariant
                views == frags_view(self.items@),
                full == spec_lines_ops(views, area, self.alignment, 0),
                0 <= item_offset <= self.items@.len(),
                0 <= offset_y < area.height,
                area.width > 0,
                full == ops_view(ops@) + spec_lines_ops(
                    views.skip(item_offset as int),
                    area,
                    self.alignment,
                    offset_y as int,
                ),
            decreases self.items@.len() - item_offset,
        {
            let ghost rem = views.skip(item_offset as int);

            // Find the extent of the current line: up to the next explicit
            // line break.
            let mut line_end: usize = item_offset;
            while line_end < self.items.len() && !self.items[line_end].is_line()
                invariant
                    views == frags_view(self.items@),
                    item_offset <= line_end <= self.items@.len(),
                    forall|j: int| item_offset <= j < line_end ==> !(#[trigger] views[j] is Line),
                decreases self.items@.len() - line_end,
            {
                line_end = line_end + 1;
            }
            let ghost line = line_prefix(rem);
            proof {
                assert forall|j: int| 0 <= j < line_end - item_offset implies !(rem[j] is Line) by {
                    assert(rem[j] == views[item_offset + j]);
                }
                if line_end < self.items@.len() {
                    assert(rem[line_end - item_offset] == views[line_end as int]);
                }
                crate::fragment::lemma_first_line_idx_of_clean_prefix(rem, line_end - item_offset);
                assert(line =~= views.subrange(item_offset as int, line_end as int));
            }

            let line_slice = vstd::slice::slice_subrange(self.items, item_offset, line_end);
            proof {
                assert(frags_view(line_slice@) =~= line);
            }
            let line_total = Fragment::total_len(line_slice);
            let mut offset_x: u16 = crate::alignment_offset(self.alignment, area.width, line_total);

            // Draw the line's fragments left to right; a fragment passing the
            // right edge stops the whole render.
            let ghost x0 = offset_x as int;
            let ghost line_start_ops = ops_view(ops@);
            let mut j: usize = item_offset;
            proof {
                assert(line.skip(0) =~= line);
            }
            while j < line_end
                invariant
                    views == frags_view(self.items@),
                    area.width > 0,
                    area.height > 0,
                    0 <= offset_y < area.height,
                    item_offset <= j <= line_end <= self.items@.len(),
                    line == views.subrange(item_offset as int, line_end as int),
                    forall|k: int| item_offset <= k < line_end ==> !(#[trigger] views[k] is Line),
                    offset_x <= area.width,
                    rem == views.skip(item_offset as int),
                    line == line_prefix(rem),
                    x0 == spec_alignment_offset(
                        self.alignment,
                        area.width,
                        cap16(frags_len(line) as int),
                    ) as int,
                    full == spec_lines_ops(views, area, self.alignment, 0),
                    full == line_start_ops + spec_lines_ops(
                        rem,
                        area,
                        self.alignment,
                        offset_y as int,
                    ),
                    spec_line_ops(line, area, x0, offset_y as int) == ({
                        let (rest, stop) = spec_line_ops(
                            line.skip(j - item_offset),
                            area,
                            offset_x as int,
                            offset_y as int,
                        );
                        (ops_view(ops@).skip(line_start_ops.len() as int) + rest, stop)
                    }),
                    ops_view(ops@).take(line_start_ops.len() as int) == line_start_ops,
                    ops@.len() >= line_start_ops.len(),
                decreases line_end - j,
            {
                proof {
                    assert(line.skip(j - item_offset)[0] == line[j - item_offset]);
                    assert(line[j - item_offset] == views[j as int]);
                    assert(line.skip(j - item_offset).drop_first() =~= line.skip(
                        j + 1 - item_offset,
                    ));
                }
                let l = self.items[j].len();
                if offset_x as u32 + l as u32 > area.width as u32 {
                    // This fragment passes the right edge: stop everything.
                    proof {
                        assert(spec_line_ops(line, area, x0, offset_y as int).0 == ops_view(
                            ops@,
                        ).skip(line_start_ops.len() as int));
                        assert(spec_line_ops(line, area, x0, offset_y as int).1);
                        assert(ops_view(ops@) =~= ops_view(ops@).take(line_start_ops.len() as int)
                            + ops_view(ops@).skip(line_start_ops.len() as int));
                        assert(spec_lines_ops(rem, area, self.alignment, offset_y as int)
                            == spec_line_ops(line, area, x0, offset_y as int).0);
                        assert(full == line_start_ops + spec_lines_ops(
                            rem,
                            area,
                            self.alignment,
                            offset_y as int,
                        ));
                        assert(full == ops_view(ops@));
                    }
                    return ops;
                }
                let ghost prev_ops = ops_view(ops@);
                match &self.items[j] {
                    Fragment::Span(span, _) => {
                        ops.push(
                            PaintOp::Text {
                                x: crate::sat_add_u16(area.x, offset_x),
                                y: crate::sat_add_u16(area.y, offset_y),
                                content: span.content.clone(),
                                max_width: usize::MAX,
                                style: span.style,
                            },
                        );
                    },
                    Fragment::Char(ch, style) => {
                        ops.push(
                            PaintOp::PutChar {
                                x: crate::sat_add_u16(area.x, offset_x),
                                y: crate::sat_add_u16(area.y, offset_y),
                                ch: *ch,
                                style: *style,
                            },
                        );
                    },
                    Fragment::Line => {
                        // The line's extent was chosen to stop before any
                        // break fragment, so this arm cannot be reached.
                        proof {
                            assert(false);
                        }
                    },
                }
                proof {
                    assert(ops_view(ops@) =~= prev_ops + seq![ops@.last()@]);
                    assert(ops_view(ops@).skip(line_start_ops.len() as int) =~= prev_ops.skip(
                        line_start_ops.len() as int,
                    ) + seq![ops@.last()@]);
                    assert(ops_view(ops@).take(line_start_ops.len() as int) =~= line_start_ops);
                }
                offset_x = offset_x + l;
                j = j + 1;
            }

            // The line is complete; move to the next row, unless this was the
            // last line or the next row would pass the bottom edge.
            proof {
                assert(line.skip(line_end - item_offset) =~= Seq::<FragView>::empty());
                assert(spec_line_ops(line, area, x0, offset_y as int).0 == ops_view(ops@).skip(
                    line_start_ops.len() as int,
                ));
                assert(!spec_line_ops(line, area, x0, offset_y as int).1);
                assert(ops_view(ops@) =~= ops_view(ops@).take(line_start_ops.len() as int)
                    + ops_view(ops@).skip(line_start_ops.len() as int));
            }
            proof {
                assert(full == line_start_ops + spec_lines_ops(
                    rem,
                    area,
                    self.alignment,
                    offset_y as int,
                ));
            }
            if line_end >= self.items.len() {
                proof {
                    assert(first_line_idx(rem) >= rem.len());
                    assert(spec_lines_ops(rem, area, self.alignment, offset_y as int)
                        == spec_line_ops(line, area, x0, offset_y as int).0);
                    assert(full == ops_view(ops@));
                }
                return ops;
            }
            if offset_y + 1 >= area.height {
                proof {
                    assert(spec_lines_ops(rem, area, self.alignment, offset_y as int)
                        == spec_line_ops(line, area, x0, offset_y as int).0);
                    assert(full == ops_view(ops@));
                }
                return ops;
            }
            proof {
                assert(views.skip(item_offset as int + (line_end - item_offset) + 1) =~= views.skip(
                    line_end as int + 1,
                ));
                assert(rem.skip(first_line_idx(rem) as int + 1) =~= views.skip(line_end as int + 1));
            }
            item_offset = line_end + 1;
            offset_y = offset_y + 1;
        }
    }

    /// Render this widget into `area` of the given buffer. Writes aimed
    /// outside the buffer's area are skipped, so rendering never fails.
    pub fn render(self, area: tui::layout::Rect, buf: &mut tui::buffer::Buffer)
        ensures
            buffer_area(*final(buf)) == buffer_area(*old(buf)),
    {
        let ops = self.plan(area);
        paint_ops(&ops, buf);
    }
}

} // verus!
