//! Trusted view of the tui types this crate paints into: the geometry types
//! are declared with their fields visible, the style is carried opaquely, and
//! every write into a terminal buffer goes through a wrapper here.
use vstd::prelude::*;

verus! {

#[verifier::external_type_specification]
pub struct ExRect(tui::layout::Rect);

#[verifier::external_type_specification]
pub struct ExDirection(tui::layout::Direction);

#[verifier::external_type_specification]
pub struct ExAlignment(tui::layout::Alignment);

#[verifier::external_type_specification]
#[verifier::external_body]
pub struct ExStyle(tui::style::Style);

#[verifier::external_type_specification]
#[verifier::external_body]
pub struct ExBuffer(tui::buffer::Buffer);

/// Relies on tui's hand-written `Style::default`, which never panics; the
/// contracts leave the resulting style value open.
pub assume_specification[ <tui::style::Style as core::default::Default>::default ]() -> tui::style::Style;

/// Relies on tui's derived `Style::eq`, which compares all fields, so it
/// decides equality of the style values themselves.
pub assume_specification[ <tui::style::Style as PartialEq>::eq ](
    a: &tui::style::Style,
    b: &tui::style::Style,
) -> (r: bool)
    ensures
        r == (a == b),
;

/// Relies on tui's derived `Rect::clone`, a field-for-field copy.
pub assume_specification[ <tui::layout::Rect as Clone>::clone ](r: &tui::layout::Rect) -> (res:
    tui::layout::Rect)
    ensures
        res == *r,
;

/// Relies on tui's derived `Direction::clone`, which returns the same variant.
pub assume_specification[ <tui::layout::Direction as Clone>::clone ](
    d: &tui::layout::Direction,
) -> (res: tui::layout::Direction)
    ensures
        res == *d,
;

/// The rectangle a terminal buffer was created over.
pub uninterp spec fn buffer_area(b: tui::buffer::Buffer) -> tui::layout::Rect;

/// A rectangle whose right and bottom edges stay within the coordinate range.
pub open spec fn rect_closed(a: tui::layout::Rect) -> bool {
    a.x + a.width <= u16::MAX && a.y + a.height <= u16::MAX
}

/// The position `(x, y)` lies strictly inside the buffer's area.
pub open spec fn in_buf(b: tui::buffer::Buffer, x: u16, y: u16) -> bool {
    let a = buffer_area(b);
    &&& a.x <= x < a.x + a.width
    &&& a.y <= y < a.y + a.height
}

/// Relies on tui's `Buffer::area`: the rectangle the buffer was created over,
/// which `set_stringn` and `get_mut` bound their writes by.
#[verifier::external_body]
pub(crate) fn buf_area(b: &tui::buffer::Buffer) -> (r: tui::layout::Rect)
    ensures
        r == buffer_area(*b),
{
    *b.area()
}

/// Relies on tui's `Buffer::set_stringn`: paints up to `width` columns of
/// `content` in `style` at `(x, y)`, clipping at the right edge of the
/// buffer's area, which it leaves unchanged. It asserts that `(x, y)` lies
/// inside that area, so the precondition requires it; tui's own invariant
/// that the cell store covers the area keeps the write in bounds.
#[verifier::external_body]
pub(crate) fn buf_set_stringn(
    b: &mut tui::buffer::Buffer,
    x: u16,
    y: u16,
    content: &str,
    width: usize,
    style: tui::style::Style,
)
    requires
        rect_closed(buffer_area(*old(b))),
        in_buf(*old(b), x, y),
    ensures
        buffer_area(*final(b)) == buffer_area(*old(b)),
{
    b.set_stringn(x, y, content, width, style);
}

/// Relies on tui's `Buffer::get_mut`, `Cell::set_char` and `Cell::set_style`:
/// writes one styled character into the cell at `(x, y)`, leaving the
/// buffer's area unchanged. `get_mut` asserts that `(x, y)` lies inside the
/// area, so the precondition requires it.
#[verifier::external_body]
pub(crate) fn buf_put_char(
    b: &mut tui::buffer::Buffer,
    x: u16,
    y: u16,
    ch: char,
    style: tui::style::Style,
)
    requires
        rect_closed(buffer_area(*old(b))),
        in_buf(*old(b), x, y),
    ensures
        buffer_area(*final(b)) == buffer_area(*old(b)),
{
    b.get_mut(x, y).set_char(ch).set_style(style);
}

/// One deferred write into a terminal buffer: a clipped string or a single
/// character.
pub enum PaintOp {
    Text { x: u16, y: u16, content: String, max_width: usize, style: tui::style::Style },
    PutChar { x: u16, y: u16, ch: char, style: tui::style::Style },
}

/// The mathematical image of a paint operation.
pub ghost enum OpView {
    Text { x: u16, y: u16, content: Seq<char>, max_width: usize, style: tui::style::Style },
    PutChar { x: u16, y: u16, ch: char, style: tui::style::Style },
}

impl View for PaintOp {
    type V = OpView;

    open spec fn view(&self) -> OpView {
        match self {
            PaintOp::Text { x, y, content, max_width, style } => OpView::Text {
                x: *x,
                y: *y,
                content: content@,
                max_width: *max_width,
                style: *style,
            },
            PaintOp::PutChar { x, y, ch, style } => OpView::PutChar {
                x: *x,
                y: *y,
                ch: *ch,
                style: *style,
            },
        }
    }
}

/// The views of a sequence of paint operations.
pub open spec fn ops_view(ops: Seq<PaintOp>) -> Seq<OpView> {
    ops.map_values(|op: PaintOp| op@)
}

/// Perform a sequence of paint operations on a terminal buffer. An operation
/// aimed outside the buffer's area is skipped, as is everything when the
/// area's edges leave the coordinate range, so painting never fails.
pub fn paint_ops(ops: &Vec<PaintOp>, buf: &mut tui::buffer::Buffer)
    ensures
        buffer_area(*final(buf)) == buffer_area(*old(buf)),
{
    let a = buf_area(buf);
    if a.x as u32 + a.width as u32 > u16::MAX as u32 || a.y as u32 + a.height as u32
        > u16::MAX as u32 {
        return ;
    }
    let mut i: usize = 0;
    while i < ops.len()
        invariant
            buffer_area(*buf) == buffer_area(*old(buf)),
            rect_closed(buffer_area(*buf)),
            a == buffer_area(*buf),
        decreases ops.len() - i,
    {
        match &ops[i] {
            PaintOp::Text { x, y, content, max_width, style } => {
                if a.x <= *x && *x < a.x + a.width && a.y <= *y && *y < a.y + a.height {
                    buf_set_stringn(buf, *x, *y, content.as_str(), *max_width, *style);
                }
            },
            PaintOp::PutChar { x, y, ch, style } => {
                if a.x <= *x && *x < a.x + a.width && a.y <= *y && *y < a.y + a.height {
                    buf_put_char(buf, *x, *y, *ch, *style);
                }
            },
        }
        i = i + 1;
    }
}

} // verus!
