//! A list widget that paints one span per row, scrolling forward just enough
//! to keep the selected row visible as the last row, and reserving the width
//! of an optional highlight symbol as a left margin for every row.
use vstd::prelude::*;
use crate::fragment::{Span, SpanView};
use crate::paint::{buffer_area, ops_view, paint_ops, OpView, PaintOp};
use crate::unicode::text_width;
use crate::{cap16, sat_add16, sat_sub16, skip_clamped, spec_scroll_offset};

verus! {

/// The views of a sequence of spans.
pub open spec fn spans_view(s: Seq<Span>) -> Seq<SpanView> {
    s.map_values(|sp: Span| sp@)
}

/// The view of an optional highlight symbol with its cached width.
pub open spec fn highlight_view(h: Option<(Span, u16)>) -> Option<(SpanView, u16)> {
    match h {
        Option::Some(p) => Option::Some((p.0@, p.1)),
        Option::None => Option::None,
    }
}

/// The writes the visible rows of a list perform. Row `i` holds the `i`-th
/// remaining item; a selected row is painted in the highlight's style behind
/// its symbol, and every row's text starts after the symbol's width and is
/// clipped to what remains.
pub open spec fn spec_list_rows(
    items: Seq<SpanView>,
    i: int,
    selected: Option<u16>,
    y_offset: u16,
    hl: Option<(SpanView, u16)>,
    area: tui::layout::Rect,
) -> Seq<OpView>
    decreases items.len(),
{
    if items.len() == 0 || i >= area.height {
        seq![]
    } else {
        let is_selected = match selected {
            Option::Some(s) => i == sat_sub16(s as int, y_offset as int),
            Option::None => false,
        };
        let x_offset: int = match hl {
            Option::Some(h) => h.1 as int,
            Option::None => 0,
        };
        let max_width = sat_sub16(area.width as int, x_offset) as usize;
        let y_pos = sat_add16(area.y as int, i);
        let head: Seq<OpView> = if is_selected {
            match hl {
                Option::Some(h) => seq![
                    OpView::Text {
                        x: area.x,
                        y: y_pos,
                        content: h.0.text,
                        max_width,
                        style: h.0.style,
                    },
                ],
                Option::None => seq![],
            }
        } else {
            seq![]
        };
        let style = if is_selected {
            match hl {
                Option::Some(h) => h.0.style,
                Option::None => items[0].style,
            }
        } else {
            items[0].style
        };
        head + seq![
            OpView::Text {
                x: sat_add16(area.x as int, x_offset),
                y: y_pos,
                content: items[0].text,
                max_width,
                style,
            },
        ] + spec_list_rows(items.drop_first(), i + 1, selected, y_offset, hl, area)
    }
}

/// The writes rendering a `SimpleList` performs: nothing on a zero-sized
/// area, else its rows after the scroll offset that keeps the selected row
/// visible.
pub open spec fn spec_simple_list_ops(
    items: Seq<SpanView>,
    selected: Option<u16>,
    hl: Option<(SpanView, u16)>,
    area: tui::layout::Rect,
) -> Seq<OpView> {
    if area.width == 0 || area.height == 0 {
        seq![]
    } else {
        let y_offset = spec_scroll_offset(selected, area.height, 0);
        spec_list_rows(skip_clamped(items, y_offset as int), 0, selected, y_offset, hl, area)
    }
}

/// A list widget that takes a slice of spans for its items.
pub struct SimpleList<'a> {
    pub items: &'a [Span],
    pub selected: Option<u16>,
    pub highlight_symbol: Option<(Span, u16)>,
}

impl<'a> SimpleList<'a> {
    /// Create a new [`SimpleList`] with the given items.
    pub fn new(items: &'a [Span]) -> (r: Self)
        ensures
            r.items == items,
            r.selected is None,
            r.highlight_symbol is None,
    {
        SimpleList { items, selected: None, highlight_symbol: None }
    }

    /// Set which item index is selected.
    pub fn select(self, index: Option<u16>) -> (r: Self)
        ensures
            r == (SimpleList { selected: index, ..self }),
    {
        SimpleList { selected: index, ..self }
    }

    /// Set the span to render on the left of the selected list item.
    pub fn highlight_symbol(self, symbol: Span) -> (r: Self)
        ensures
            ({
                match r.highlight_symbol {
                    Option::Some(h) => h.0 == symbol && h.1 == cap16(
                        text_width(symbol@.text) as int,
                    ) && r.items == self.items && r.selected == self.selected,
                    Option::None => false,
                }
            }),
    {
        let len = crate::cap_u16(symbol.width());
        SimpleList { highlight_symbol: Some((symbol, len)), ..self }
    }

    /// The writes rendering this widget into `area` performs.
    pub fn plan(&self, area: tui::layout::Rect) -> (ops: Vec<PaintOp>)
        ensures
            ops_view(ops@) == spec_simple_list_ops(
                spans_view(self.items@),
                self.selected,
                highlight_view(self.highlight_symbol),
                area,
            ),
    {
        let ghost views = spans_view(self.items@);
        let ghost hlv = highlight_view(self.highlight_symbol);
        let mut ops: Vec<PaintOp> = Vec::new();
        if area.width == 0 || area.height == 0 {
            assert(ops_view(ops@) =~= spec_simple_list_ops(
                views,
                self.selected,
                hlv,
                area,
            ));
            return ops;
        }

        let y_offset = crate::scroll_offset(self.selected, area.height, 0);
        let x_offset: u16 = match &self.highlight_symbol {
            Some(h) => h.1,
            None => 0,
        };
        let max_width = crate::sat_sub_u16(area.width, x_offset);

        let mut idx: usize = if (y_offset as usize) < self.items.len() {
            y_offset as usize
        } else {
            self.items.len()
        };
        let mut i: u16 = 0;
        let ghost start = idx as int;

        proof {
            assert(skip_clamped(views, y_offset as int) =~= views.skip(start));
        }

        while idx < self.items.len() && i < area.height
            invariant
                views == spans_view(self.items@),
                hlv == highlight_view(self.highlight_symbol),
                area.width > 0,
                area.height > 0,
                y_offset == spec_scroll_offset(self.selected, area.height, 0),
                x_offset == (match hlv {
                    Option::Some(h) => h.1,
                    Option::None => 0u16,
                }),
                max_width == sat_sub16(area.width as int, x_offset as int),
                0 <= i <= area.height,
                start <= idx <= self.items@.len(),
                idx - start == i,
                spec_list_rows(skip_clamped(views, y_offset as int), 0, self.selected, y_offset, hlv, area)
                    == ops_view(ops@) + spec_list_rows(
                    views.skip(idx as int),
                    i as int,
                    self.selected,
                    y_offset,
                    hlv,
                    area,
                ),
            decreases self.items@.len() - idx,
        {
            proof {
                assert(views.skip(idx as int)[0] == views[idx as int]);
                assert(views.skip(idx as int).drop_first() =~= views.skip(idx as int + 1));
            }
            let is_selected = match self.selected {
                Some(s) => i == crate::sat_sub_u16(s, y_offset),
                None => false,
            };
            let y_pos = crate::sat_add_u16(area.y, i);

            let ghost before_row = ops_view(ops@);
            let style = match (&self.highlight_symbol, is_selected) {
                (Some(h), true) => {
                    ops.push(
                        PaintOp::Text {
                            x: area.x,
                            y: y_pos,
                            content: h.0.content.clone(),
                            max_width: max_width as usize,
                            style: h.0.style,
                        },
                    );
                    h.0.style
                },
                _ => self.items[idx].style,
            };
            let ghost after_head = ops_view(ops@);
            ops.push(
                PaintOp::Text {
                    x: crate::sat_add_u16(area.x, x_offset),
                    y: y_pos,
                    content: self.items[idx].content.clone(),
                    max_width: max_width as usize,
                    style,
                },
            );
            proof {
                if is_selected && hlv is Some {
                    assert(after_head =~= before_row + seq![ops@[ops@.len() - 2]@]);
                }
                assert(ops_view(ops@) =~= after_head + seq![ops@.last()@]);
            }
            idx = idx + 1;
            i = i + 1;
        }
        proof {
            if idx >= self.items@.len() {
                assert(views.skip(idx as int) =~= Seq::<SpanView>::empty());
            }
        }
        ops
    }

    /// Render this widget into `area` of the given buffer. Writes aimed
    /// outside the buffer's area are skipped, so rendering never fails.
    pub fn render(self, area: tui::layout::Rect, buf: &mut tui::buffer::Buffer)
        ensures
            buffer_area(*final(buf)) == buffer_area(*old(buf)),
    {
        let ops = self.plan(area);
        paint_ops(&ops, buf);
    }
}

} // verus!
