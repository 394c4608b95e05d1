//! A widget that renders a log of items vertically: items are taken from
//! the tail of the sequence until their line counts fill the viewport, and
//! painted bottom-anchored, each item spanning as many rows as it has lines.
use vstd::prelude::*;
use crate::fragment::{count_lines, frags_view, FragView, Fragment};
use crate::paint::{buffer_area, ops_view, paint_ops, OpView, PaintOp};
use crate::text_fragments::{spec_text_fragments_ops, TextFragments};
use crate::{cap16, sat_add16};

verus! {

/// The views of a sequence of fragment lists.
pub open spec fn log_view(items: Seq<Vec<Fragment>>) -> Seq<Seq<FragView>> {
    items.map_values(|v: Vec<Fragment>| frags_view(v@))
}

/// The writes the log's items perform, last item first, each placed directly
/// above what was already painted: an item taking `n` lines fills rows
/// `y_pos - n` up to `y_pos` of the area, and an item that no longer fits
/// ends the log.
pub open spec fn spec_log_items(
    items: Seq<Seq<FragView>>,
    area: tui::layout::Rect,
    alignment: tui::layout::Alignment,
    y_pos: int,
) -> Seq<OpView>
    decreases items.len(),
{
    if items.len() == 0 {
        seq![]
    } else {
        let n = cap16(1 + count_lines(items.last()) as int) as int;
        if n > y_pos {
            seq![]
        } else {
            let pos = tui::layout::Rect {
                y: sat_add16(area.y as int, y_pos - n),
                height: n as u16,
                ..area
            };
            spec_text_fragments_ops(items.last(), pos, alignment) + spec_log_items(
                items.drop_last(),
                area,
                alignment,
                y_pos - n,
            )
        }
    }
}

/// The writes rendering a `Log` performs: nothing on a zero-sized area, else
/// its items bottom-anchored within the area.
pub open spec fn spec_log_ops(
    items: Seq<Seq<FragView>>,
    area: tui::layout::Rect,
    alignment: tui::layout::Alignment,
) -> Seq<OpView> {
    if area.width == 0 || area.height == 0 {
        seq![]
    } else {
        spec_log_items(items, area, alignment, area.height as int)
    }
}

/// A widget to render a log of items vertically.
pub struct Log<'a> {
    pub items: &'a [Vec<Fragment>],
    pub alignment: tui::layout::Alignment,
}

impl<'a> Log<'a> {
    /// Create a new [`Log`] with the given items.
    pub fn new(items: &'a [Vec<Fragment>]) -> (r: Self)
        ensures
            r.items == items,
            r.alignment == tui::layout::Alignment::Left,
    {
        Log { items, alignment: tui::layout::Alignment::Left }
    }

    pub fn alignment(self, alignment: tui::layout::Alignment) -> (r: Self)
        ensures
            r == (Log { alignment, ..self }),
    {
        Log { alignment, ..self }
    }

    /// The writes rendering this widget into `area` performs.
    pub fn plan(&self, area: tui::layout::Rect) -> (ops: Vec<PaintOp>)
        ensures
            ops_view(ops@) == spec_log_ops(log_view(self.items@), area, self.alignment),
    {
        let ghost views = log_view(self.items@);
        let mut ops: Vec<PaintOp> = Vec::new();
        if area.width == 0 || area.height == 0 {
            assert(ops_view(ops@) =~= spec_log_ops(views, area, self.alignment));
            return ops;
        }

        let mut y_pos: u16 = area.height;
        let mut j: usize = self.items.len();

        proof {
            assert(views.take(j as int) =~= views);
        }

        loop
            invariant
                views == log_view(self.items@),
                area.width > 0,
                area.height > 0,
                0 <= j <= self.items@.len(),
                0 <= y_pos <= area.height,
                spec_log_items(views, area, self.alignment, area.height as int) == ops_view(ops@)
                    + spec_log_items(views.take(j as int), area, self.alignment, y_pos as int),
            decreases j,
        {
            if j == 0 {
                proof {
                    assert(views.take(0) =~= Seq::<Seq<FragView>>::empty());
                    assert(spec_log_items(
                        views.take(0),
                        area,
                        self.alignment,
                        y_pos as int,
                    ) =~= Seq::<OpView>::empty());
                }
                return ops;
            }
            proof {
                assert(views.take(j as int).last() == views[j - 1]);
                assert(views.take(j as int).drop_last() =~= views.take(j - 1));
                assert(frags_view(self.items@[j - 1]@) == views[j - 1]);
            }
            let item: &Vec<Fragment> = &self.items[j - 1];
            let n = Fragment::num_lines(item.as_slice());
            if n > y_pos {
                return ops;
            }
            let pos = tui::layout::Rect {
                x: area.x,
                y: crate::sat_add_u16(area.y, y_pos - n),
                width: area.width,
                height: n,
            };
            let fragments = TextFragments::new(item.as_slice()).alignment(self.alignment);
            let mut sub = fragments.plan(pos);
            let ghost subv = ops_view(sub@);
            let ghost prev = ops_view(ops@);
            ops.append(&mut sub);
            proof {
                assert(ops_view(ops@) =~= prev + subv);
            }
            y_pos = y_pos - n;
            j = j - 1;
        }
    }

    /// Render this widget into `area` of the given buffer. Writes aimed
    /// outside the buffer's area are skipped, so rendering never fails.
    pub fn render(self, area: tui::layout::Rect, buf: &mut tui::buffer::Buffer)
        ensures
            buffer_area(*final(buf)) == buffer_area(*old(buf)),
    {
        let ops = self.plan(area);
        paint_ops(&ops, buf);
    }
}

} // verus!
