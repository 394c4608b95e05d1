//! A widget that draws a single line of text with one style, with alignment
//! and an overflow policy. The render is planned first: the plan says
//! exactly what is painted where, and painting is a separate, clipped step.
use vstd::prelude::*;
use crate::fragment::{OverflowMode, Span, SpanView};
use crate::paint::{buffer_area, paint_ops, ops_view, OpView, PaintOp};
use crate::unicode::text_width;
use crate::{cap16, sat_add16, sat_sub16, spec_alignment_offset};

verus! {

/// This widget provides a fast way to draw a single line of text with a
/// fixed style.
///
/// More complicated text can be drawn with the
/// [`TextFragments`][`crate::text_fragments::TextFragments`] widget.
pub struct SimpleText {
    pub span: Span,
    pub alignment: tui::layout::Alignment,
    pub overflow: OverflowMode,
}

/// The single write a `SimpleText` render performs: the text aligned within
/// the area's width, skipped or clipped by the overflow policy when it does
/// not fit, and nothing at all on a zero-height area.
pub open spec fn spec_simple_text_ops(
    sv: SpanView,
    alignment: tui::layout::Alignment,
    overflow: OverflowMode,
    area: tui::layout::Rect,
) -> Seq<OpView> {
    if area.height == 0 {
        seq![]
    } else {
        let len = cap16(text_width(sv.text) as int);
        let offset = spec_alignment_offset(alignment, area.width, len);
        if area.width < len && overflow is Hide {
            seq![]
        } else {
            let max_width = if area.width < len {
                sat_sub16(area.width as int, sat_sub16(offset as int, len as int) as int)
            } else {
                len
            };
            seq![
                OpView::Text {
                    x: sat_add16(area.x as int, offset as int),
                    y: area.y,
                    content: sv.text,
                    max_width: max_width as usize,
                    style: sv.style,
                },
            ]
        }
    }
}

impl SimpleText {
    pub fn new(span: Span) -> (r: Self)
        ensures
            r.span == span,
            r.alignment == tui::layout::Alignment::Left,
            r.overflow == OverflowMode::Hide,
    {
        SimpleText { span, alignment: tui::layout::Alignment::Left, overflow: OverflowMode::Hide }
    }

    pub fn alignment(self, alignment: tui::layout::Alignment) -> (r: Self)
        ensures
            r == (SimpleText { alignment, ..self }),
    {
        SimpleText { alignment, ..self }
    }

    pub fn overflow(self, overflow: OverflowMode) -> (r: Self)
        ensures
            r == (SimpleText { overflow, ..self }),
    {
        SimpleText { overflow, ..self }
    }

    /// The writes rendering this widget into `area` performs.
    pub fn plan(&self, area: tui::layout::Rect) -> (ops: Vec<PaintOp>)
        ensures
            ops_view(ops@) == spec_simple_text_ops(self.span@, self.alignment, self.overflow, area),
    {
        let mut ops: Vec<PaintOp> = Vec::new();
        if area.height == 0 {
            assert(ops_view(ops@) =~= spec_simple_text_ops(self.span@, self.alignment, self.overflow, area));
            return ops;
        }
        let len = crate::cap_u16(self.span.width());
        let offset = crate::alignment_offset(self.alignment, area.width, len);
        let max_width: u16 = if area.width < len {
            match self.overflow {
                OverflowMode::Hide => {
                    assert(ops_view(ops@) =~= spec_simple_text_ops(
                        self.span@,
                        self.alignment,
                        self.overflow,
                        area,
                    ));
                    return ops;
                },
                OverflowMode::Truncate => crate::sat_sub_u16(area.width, crate::sat_sub_u16(offset, len)),
            }
        } else {
            len
        };
        ops.push(
            PaintOp::Text {
                x: crate::sat_add_u16(area.x, offset),
                y: area.y,
                content: self.span.content.clone(),
                max_width: max_width as usize,
                style: self.span.style,
            },
        );
        assert(ops_view(ops@) =~= spec_simple_text_ops(self.span@, self.alignment, self.overflow, area));
        ops
    }

    /// Render this widget into `area` of the given buffer. Writes aimed
    /// outside the buffer's area are skipped, so rendering never fails.
    pub fn render(self, area: tui::layout::Rect, buf: &mut tui::buffer::Buffer)
        ensures
            buffer_area(*final(buf)) == buffer_area(*old(buf)),
    {
        let ops = self.plan(area);
        paint_ops(&ops, buf);
    }
}

} // verus!
