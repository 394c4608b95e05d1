//! A table widget: one rectangle per column, resolved by the layout solver,
//! an optional header row, and data rows that scroll forward just enough to
//! keep the selected row visible as the last one. Rows stop at the bottom
//! edge; a row (or the header) whose cell count does not match the columns
//! renders nothing, while its row stays blank and the rest still render.
use vstd::prelude::*;
use crate::fragment::{Span, SpanView};
use crate::layout::{
    spec_axis_pos, spec_axis_rect, spec_axis_size, spec_clamped_size, spec_split_offset,
    BasicConstraint, SimpleLayout,
};
use crate::paint::{buffer_area, ops_view, paint_ops, OpView, PaintOp};
use crate::simple_list::{highlight_view, spans_view};
use crate::unicode::text_width;
use crate::{cap16, sat_add16, sat_sub16, skip_clamped, spec_scroll_offset};

verus! {

/// The column rectangles a table resolves over `area`: the layout solver's
/// horizontal split, with no margin.
pub open spec fn spec_table_cols(
    area: tui::layout::Rect,
    cs: Seq<BasicConstraint>,
) -> Seq<tui::layout::Rect> {
    Seq::new(
        cs.len(),
        |i: int|
            spec_axis_rect(
                tui::layout::Direction::Horizontal,
                area,
                sat_add16(area.x as int, spec_split_offset(cs, area.width, i)),
                spec_clamped_size(cs[i], area.width, spec_split_offset(cs, area.width, i)) as u16,
            ),
    )
}

/// The writes one table row performs, cell by cell: each cell's text starts
/// `offset_x` cells into its column and is clipped to what remains of the
/// column; a column with no room left ends the row.
pub open spec fn spec_row_cells(
    cols: Seq<tui::layout::Rect>,
    cells: Seq<SpanView>,
    offset_x: u16,
    y: int,
    style_override: Option<tui::style::Style>,
) -> Seq<OpView>
    decreases cols.len(),
{
    if cols.len() == 0 || cells.len() == 0 {
        seq![]
    } else {
        let pos = cols[0];
        let max_width = sat_sub16(pos.width as int, offset_x as int);
        if max_width == 0 {
            seq![]
        } else {
            let style = match style_override {
                Option::Some(st) => st,
                Option::None => cells[0].style,
            };
            seq![
                OpView::Text {
                    x: sat_add16(pos.x as int, offset_x as int),
                    y: sat_add16(pos.y as int, y),
                    content: cells[0].text,
                    max_width: max_width as usize,
                    style,
                },
            ] + spec_row_cells(cols.drop_first(), cells.drop_first(), offset_x, y, style_override)
        }
    }
}

/// The writes the data rows perform, top to bottom: a selected row paints
/// the highlight symbol at the area's left edge and its cells in the
/// highlight's style; rows stop at the bottom edge, and a row whose cell
/// count differs from the column count renders nothing while the rows after
/// it still render.
pub open spec fn spec_table_rows(
    rows: Seq<Seq<SpanView>>,
    row_index: int,
    cols: Seq<tui::layout::Rect>,
    area: tui::layout::Rect,
    selected: Option<u16>,
    item_offset: u16,
    header_offset: u16,
    hl: Option<(SpanView, u16)>,
    offset_x: u16,
) -> Seq<OpView>
    decreases rows.len(),
{
    if rows.len() == 0 || row_index + header_offset >= area.height {
        seq![]
    } else if cols.len() != rows[0].len() {
        spec_table_rows(
            rows.drop_first(),
            row_index + 1,
            cols,
            area,
            selected,
            item_offset,
            header_offset,
            hl,
            offset_x,
        )
    } else {
        let is_selected = match selected {
            Option::Some(s) => row_index == sat_sub16(s as int, item_offset as int),
            Option::None => false,
        };
        let offset_y = header_offset + row_index;
        let head: Seq<OpView> = if is_selected {
            match hl {
                Option::Some(h) => seq![
                    OpView::Text {
                        x: area.x,
                        y: sat_add16(area.y as int, offset_y),
                        content: h.0.text,
                        max_width: h.1 as usize,
                        style: h.0.style,
                    },
                ],
                Option::None => seq![],
            }
        } else {
            seq![]
        };
        let style_override: Option<tui::style::Style> = if is_selected {
            match hl {
                Option::Some(h) => Option::Some(h.0.style),
                Option::None => Option::None,
            }
        } else {
            Option::None
        };
        head + spec_row_cells(cols, rows[0], offset_x, offset_y, style_override)
            + spec_table_rows(
            rows.drop_first(),
            row_index + 1,
            cols,
            area,
            selected,
            item_offset,
            header_offset,
            hl,
            offset_x,
        )
    }
}

/// The writes rendering a `SimpleTable` performs: nothing on a zero-sized
/// area; else the header row when its cell count matches the columns (a
/// mismatched header renders nothing but still takes its row), then the
/// visible data rows.
pub open spec fn spec_simple_table_ops(
    data: Seq<Seq<SpanView>>,
    cs: Seq<BasicConstraint>,
    header: Option<Seq<SpanView>>,
    selected: Option<u16>,
    hl: Option<(SpanView, u16)>,
    area: tui::layout::Rect,
) -> Seq<OpView> {
    if area.width == 0 || area.height == 0 {
        seq![]
    } else {
        let cols = spec_table_cols(area, cs);
        let offset_x: u16 = match hl {
            Option::Some(h) => h.1,
            Option::None => 0u16,
        };
        let header_offset: u16 = match header {
            Option::Some(_) => 1u16,
            Option::None => 0u16,
        };
        let item_offset = spec_scroll_offset(selected, area.height, header_offset);
        let rows = spec_table_rows(
            skip_clamped(data, item_offset as int),
            0,
            cols,
            area,
            selected,
            item_offset,
            header_offset,
            hl,
            offset_x,
        );
        match header {
            Option::Some(h) => {
                if h.len() == cols.len() {
                    spec_row_cells(cols, h, offset_x, 0, Option::None) + rows
                } else {
                    rows
                }
            },
            Option::None => rows,
        }
    }
}

/// A table widget with a fixed column layout.
pub struct SimpleTable<'a> {
    pub data: &'a [Vec<Span>],
    pub layout: Vec<BasicConstraint>,
    pub header: Option<&'a [Span]>,
    pub selected: Option<u16>,
    pub highlight_symbol: Option<(Span, u16)>,
}

/// Push the writes of one table row (or the header) onto `ops`.
fn push_row_cells(
    ops: &mut Vec<PaintOp>,
    cols: &Vec<tui::layout::Rect>,
    cells: &[Span],
    offset_x: u16,
    offset_y: u16,
    style_override: Option<tui::style::Style>,
)
    requires
        cols@.len() == cells@.len(),
    ensures
        ops_view(final(ops)@) == ops_view(old(ops)@) + spec_row_cells(
            cols@,
            spans_view(cells@),
            offset_x,
            offset_y as int,
            style_override,
        ),
{
    let ghost colv = cols@;
    let ghost cellv = spans_view(cells@);
    let mut c: usize = 0;

    proof {
        assert(colv.skip(0) =~= colv);
        assert(cellv.skip(0) =~= cellv);
    }

    while c < cols.len()
        invariant
            colv == cols@,
            cellv == spans_view(cells@),
            colv.len() == cellv.len(),
            0 <= c <= colv.len(),
            spec_row_cells(colv, cellv, offset_x, offset_y as int, style_override) == ops_view(
                ops@,
            ).skip(ops_view(old(ops)@).len() as int) + spec_row_cells(
                colv.skip(c as int),
                cellv.skip(c as int),
                offset_x,
                offset_y as int,
                style_override,
            ),
            ops_view(ops@).take(ops_view(old(ops)@).len() as int) == ops_view(old(ops)@),
            ops@.len() >= old(ops)@.len(),
        decreases colv.len() - c,
    {
        proof {
            assert(colv.skip(c as int)[0] == colv[c as int]);
            assert(cellv.skip(c as int)[0] == cellv[c as int]);
            assert(colv.skip(c as int).drop_first() =~= colv.skip(c as int + 1));
            assert(cellv.skip(c as int).drop_first() =~= cellv.skip(c as int + 1));
        }
        let pos = cols[c];
        let max_width = crate::sat_sub_u16(pos.width, offset_x);
        if max_width == 0 {
            proof {
                assert(spec_row_cells(
                    colv.skip(c as int),
                    cellv.skip(c as int),
                    offset_x,
                    offset_y as int,
                    style_override,
                ) =~= Seq::<OpView>::empty());
                assert(ops_view(ops@) =~= ops_view(ops@).take(ops_view(old(ops)@).len() as int)
                    + ops_view(ops@).skip(ops_view(old(ops)@).len() as int));
            }
            return ;
        }
        let style = match style_override {
            Some(st) => st,
            None => cells[c].style,
        };
        let ghost prev = ops_view(ops@);
        ops.push(
            PaintOp::Text {
                x: crate::sat_add_u16(pos.x, offset_x),
                y: crate::sat_add_u16(pos.y, offset_y),
                content: cells[c].content.clone(),
                max_width: max_width as usize,
                style,
            },
        );
        proof {
            assert(ops_view(ops@) =~= prev + seq![ops@.last()@]);
            assert(ops_view(ops@).skip(ops_view(old(ops)@).len() as int) =~= prev.skip(
                ops_view(old(ops)@).len() as int,
            ) + seq![ops@.last()@]);
            assert(ops_view(ops@).take(ops_view(old(ops)@).len() as int) =~= ops_view(old(ops)@));
        }
        c = c + 1;
    }
    proof {
        assert(colv.skip(c as int) =~= Seq::<tui::layout::Rect>::empty());
        assert(cellv.skip(c as int) =~= Seq::<SpanView>::empty());
        assert(spec_row_cells(
            colv.skip(c as int),
            cellv.skip(c as int),
            offset_x,
            offset_y as int,
            style_override,
        ) =~= Seq::<OpView>::empty());
        assert(ops_view(ops@) =~= ops_view(ops@).take(ops_view(old(ops)@).len() as int) + ops_view(
            ops@,
        ).skip(ops_view(old(ops)@).len() as int));
    }
}

impl<'a> SimpleTable<'a> {
    /// Returns a new [`SimpleTable`] with the given `data` and column
    /// `layout`.
    pub fn new(data: &'a [Vec<Span>], layout: Vec<BasicConstraint>) -> (r: Self)
        ensures
            r.data == data,
            r.layout == layout,
            r.header is None,
            r.selected is None,
            r.highlight_symbol is None,
    {
        SimpleTable { data, layout, header: None, selected: None, highlight_symbol: None }
    }

    pub fn header(self, header: &'a [Span]) -> (r: Self)
        ensures
            r == (SimpleTable { header: Option::Some(header), ..self }),
    {
        SimpleTable { header: Some(header), ..self }
    }

    pub fn select(self, selected: Option<u16>) -> (r: Self)
        ensures
            r == (SimpleTable { selected, ..self }),
    {
        SimpleTable { selected, ..self }
    }

    pub fn highlight_symbol(self, symbol: Span) -> (r: Self)
        ensures
            ({
                match r.highlight_symbol {
                    Option::Some(h) => h.0 == symbol && h.1 == cap16(
                        text_width(symbol@.text) as int,
                    ) && r.data == self.data && r.layout == self.layout && r.header == self.header
                        && r.selected == self.selected,
                    Option::None => false,
                }
            }),
    {
        let len = crate::cap_u16(symbol.width());
        SimpleTable { highlight_symbol: Some((symbol, len)), ..self }
    }

    /// The view of the table's data: each row's spans.
    pub open spec fn data_view(&self) -> Seq<Seq<SpanView>> {
        self.data@.map_values(|row: Vec<Span>| spans_view(row@))
    }

    /// The view of the table's header, when one is set.
    pub open spec fn header_view(&self) -> Option<Seq<SpanView>> {
        match self.header {
            Option::Some(h) => Option::Some(spans_view(h@)),
            Option::None => Option::None,
        }
    }

    /// The writes rendering this widget into `area` performs.
    #[verifier::rlimit(100)]
    pub fn plan(&self, area: tui::layout::Rect) -> (ops: Vec<PaintOp>)
        ensures
            ops_view(ops@) == spec_simple_table_ops(
                self.data_view(),
                self.layout@,
                self.header_view(),
                self.selected,
                highlight_view(self.highlight_symbol),
                area,
            ),
    {
        let ghost dv = self.data_view();
        let ghost hv = self.header_view();
        let ghost hlv = highlight_view(self.highlight_symbol);
        let mut ops: Vec<PaintOp> = Vec::new();
        if area.width == 0 || area.height == 0 {
            assert(ops_view(ops@) =~= spec_simple_table_ops(
                dv,
                self.layout@,
                hv,
                self.selected,
                hlv,
                area,
            ));
            return ops;
        }

        let layout_builder = SimpleLayout::new(tui::layout::Direction::Horizontal);
        let ghost lval = layout_builder;
        let cols = layout_builder.split(area, self.layout.as_slice());
        proof {
            let d = lval.direction;
            let p = lval.spec_padded(area);
            assert(p.x == area.x && p.y == area.y && p.width == area.width
                && p.height == area.height);
            assert(p == area);
            assert forall|i: int|
                0 <= i < self.layout@.len() implies cols@[i] == #[trigger] spec_table_cols(
                area,
                self.layout@,
            )[i] by {
                assert(cols@[i] == spec_axis_rect(
                    d,
                    p,
                    sat_add16(
                        spec_axis_pos(d, p) as int,
                        spec_split_offset(self.layout@, spec_axis_size(d, p), i),
                    ),
                    spec_clamped_size(
                        self.layout@[i],
                        spec_axis_size(d, p),
                        spec_split_offset(self.layout@, spec_axis_size(d, p), i),
                    ) as u16,
                ));
                assert(spec_axis_pos(d, p) == area.x);
                assert(spec_axis_size(d, p) == area.width);
            };
            assert(cols@ =~= spec_table_cols(area, self.layout@));
        }

        let offset_x: u16 = match &self.highlight_symbol {
            Some(h) => h.1,
            None => 0,
        };

        let header_offset: u16 = match self.header {
            Some(columns) => {
                if columns.len() == cols.len() {
                    push_row_cells(&mut ops, &cols, columns, offset_x, 0, None);
                }
                1
            },
            None => 0,
        };

        let item_offset = crate::scroll_offset(self.selected, area.height, header_offset);
        let ghost header_ops = ops_view(ops@);

        let mut idx: usize = if (item_offset as usize) < self.data.len() {
            item_offset as usize
        } else {
            self.data.len()
        };
        let ghost start = idx as int;
        let mut row_index: u16 = 0;

        proof {
            assert(skip_clamped(dv, item_offset as int) =~= dv.skip(start));
        }

        loop
            invariant
                dv == self.data_view(),
                hv == self.header_view(),
                hlv == highlight_view(self.highlight_symbol),
                area.width > 0,
                area.height > 0,
                cols@ == spec_table_cols(area, self.layout@),
                offset_x == (match hlv {
                    Option::Some(h) => h.1,
                    Option::None => 0u16,
                }),
                header_offset == (match hv {
                    Option::Some(_) => 1u16,
                    Option::None => 0u16,
                }),
                item_offset == spec_scroll_offset(self.selected, area.height, header_offset),
                header_ops == (match hv {
                    Option::Some(h) => if h.len() == cols@.len() {
                        spec_row_cells(cols@, h, offset_x, 0, Option::None)
                    } else {
                        Seq::<OpView>::empty()
                    },
                    Option::None => Seq::<OpView>::empty(),
                }),
                0 <= row_index,
                start <= idx <= self.data@.len(),
                idx - start == row_index,
                spec_table_rows(
                    skip_clamped(dv, item_offset as int),
                    0,
                    cols@,
                    area,
                    self.selected,
                    item_offset,
                    header_offset,
                    hlv,
                    offset_x,
                ) == ops_view(ops@).skip(header_ops.len() as int) + spec_table_rows(
                    dv.skip(idx as int),
                    row_index as int,
                    cols@,
                    area,
                    self.selected,
                    item_offset,
                    header_offset,
                    hlv,
                    offset_x,
                ),
                ops_view(ops@).take(header_ops.len() as int) == header_ops,
                ops@.len() >= header_ops.len(),
            decreases self.data@.len() - idx,
        {
            if idx >= self.data.len() {
                proof {
                    assert(dv.skip(idx as int) =~= Seq::<Seq<SpanView>>::empty());
                    assert(spec_table_rows(
                        dv.skip(idx as int),
                        row_index as int,
                        cols@,
                        area,
                        self.selected,
                        item_offset,
                        header_offset,
                        hlv,
                        offset_x,
                    ) =~= Seq::<OpView>::empty());
                }
            proof {
                assert(ops_view(ops@) =~= ops_view(ops@).take(header_ops.len() as int) + ops_view(
                    ops@,
                ).skip(header_ops.len() as int));
            }
            return ops;
            }
            proof {
                assert(dv.skip(idx as int)[0] == dv[idx as int]);
                assert(dv.skip(idx as int).drop_first() =~= dv.skip(idx as int + 1));
            }
            if row_index as u32 + header_offset as u32 >= area.height as u32 {
                proof {
                    assert(spec_table_rows(
                        dv.skip(idx as int),
                        row_index as int,
                        cols@,
                        area,
                        self.selected,
                        item_offset,
                        header_offset,
                        hlv,
                        offset_x,
                    ) =~= Seq::<OpView>::empty());
                }
            proof {
                assert(ops_view(ops@) =~= ops_view(ops@).take(header_ops.len() as int) + ops_view(
                    ops@,
                ).skip(header_ops.len() as int));
            }
            return ops;
            }
            let row: &Vec<Span> = &self.data[idx];
            if cols.len() != row.len() {
                // A mismatched row renders nothing; its row stays blank and
                // the rows after it still render.
                proof {
                    assert(dv[idx as int].len() == row@.len());
                }
                idx = idx + 1;
                row_index = row_index + 1;
                continue ;
            }

            let is_selected = match self.selected {
                Some(s) => row_index == crate::sat_sub_u16(s, item_offset),
                None => false,
            };
            let offset_y: u16 = header_offset + row_index;

            let ghost before_row = ops_view(ops@);
            let style_override: Option<tui::style::Style> = match (
                &self.highlight_symbol,
                is_selected,
            ) {
                (Some(h), true) => {
                    ops.push(
                        PaintOp::Text {
                            x: area.x,
                            y: crate::sat_add_u16(area.y, offset_y),
                            content: h.0.content.clone(),
                            max_width: h.1 as usize,
                            style: h.0.style,
                        },
                    );
                    Some(h.0.style)
                },
                _ => None,
            };
            proof {
                if is_selected && hlv is Some {
                    assert(ops_view(ops@) =~= before_row + seq![ops@.last()@]);
                }
                assert(spans_view(row@) == dv[idx as int]);
            }
            push_row_cells(&mut ops, &cols, row.as_slice(), offset_x, offset_y, style_override);
            proof {
                assert(ops_view(ops@).skip(header_ops.len() as int) =~= before_row.skip(
                    header_ops.len() as int,
                ) + (ops_view(ops@).skip(before_row.len() as int)));
                assert(ops_view(ops@).take(header_ops.len() as int) =~= header_ops);
            }
            idx = idx + 1;
            row_index = row_index + 1;
        }
    }

    /// Render this widget into `area` of the given buffer. Writes aimed
    /// outside the buffer's area are skipped, so rendering never fails.
    pub fn render(self, area: tui::layout::Rect, buf: &mut tui::buffer::Buffer)
        ensures
            buffer_area(*final(buf)) == buffer_area(*old(buf)),
    {
        let ops = self.plan(area);
        paint_ops(&ops, buf);
    }
}

} // verus!
