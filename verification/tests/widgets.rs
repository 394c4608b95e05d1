use tui::buffer::Buffer;
use tui::layout::{Alignment, Rect};
use tui::style::Style;
use tui_utils::fragment::{Fragment, OverflowMode, Span};
use tui_utils::log::Log;
use tui_utils::simple_list::SimpleList;
use tui_utils::simple_text::SimpleText;
use tui_utils::text_fragments::TextFragments;

fn area(width: u16, height: u16) -> Rect {
    Rect {
        x: 0,
        y: 0,
        width,
        height,
    }
}

#[test]
fn fragment_lengths() {
    assert_eq!(Fragment::span("abc").len(), 3);
    assert_eq!(Fragment::span("\u{65e5}\u{672c}").len(), 4);
    assert_eq!(Fragment::Char('x', Style::default()).len(), 1);
    assert_eq!(Fragment::Line.len(), 0);
}

#[test]
fn fragment_totals_and_lines() {
    let items = vec![
        Fragment::span("ab"),
        Fragment::Char('c', Style::default()),
        Fragment::Line,
        Fragment::span("de"),
    ];
    assert_eq!(Fragment::total_len(&items), 5);
    assert_eq!(Fragment::line_len(&items), 3);
    assert_eq!(Fragment::num_lines(&items), 2);
    assert_eq!(
        Fragment::line_items(&items),
        vec![Fragment::span("ab"), Fragment::Char('c', Style::default())]
    );
}

#[test]
fn fragment_empty_sequence_is_one_line() {
    // An empty sequence holds no break markers, so it counts as one line.
    let items: Vec<Fragment> = vec![];
    assert_eq!(Fragment::num_lines(&items), 1);
    assert_eq!(Fragment::total_len(&items), 0);
}

#[test]
fn simple_text_left() {
    let mut buf = Buffer::empty(area(5, 1));
    SimpleText::new(Span::raw("abc")).render(area(5, 1), &mut buf);
    assert_eq!(buf, Buffer::with_lines(vec!["abc  "]));
}

#[test]
fn simple_text_center() {
    let mut buf = Buffer::empty(area(5, 1));
    SimpleText::new(Span::raw("abc"))
        .alignment(Alignment::Center)
        .render(area(5, 1), &mut buf);
    assert_eq!(buf, Buffer::with_lines(vec![" abc "]));
}

#[test]
fn simple_text_right() {
    let mut buf = Buffer::empty(area(5, 1));
    SimpleText::new(Span::raw("abc"))
        .alignment(Alignment::Right)
        .render(area(5, 1), &mut buf);
    assert_eq!(buf, Buffer::with_lines(vec!["  abc"]));
}

#[test]
fn simple_text_hidden_on_overflow() {
    let mut buf = Buffer::empty(area(2, 1));
    SimpleText::new(Span::raw("abc")).render(area(2, 1), &mut buf);
    assert_eq!(buf, Buffer::empty(area(2, 1)));
}

#[test]
fn simple_text_truncated_on_overflow() {
    let mut buf = Buffer::empty(area(2, 1));
    SimpleText::new(Span::raw("abc"))
        .overflow(OverflowMode::Truncate)
        .render(area(2, 1), &mut buf);
    assert_eq!(buf, Buffer::with_lines(vec!["ab"]));
}

#[test]
fn text_fragments_multiline() {
    let items = vec![
        Fragment::span("ab"),
        Fragment::Char('!', Style::default()),
        Fragment::Line,
        Fragment::span("cd"),
    ];
    let mut buf = Buffer::empty(area(4, 2));
    TextFragments::new(&items).render(area(4, 2), &mut buf);
    assert_eq!(buf, Buffer::with_lines(vec!["ab! ", "cd  "]));
}

#[test]
fn text_fragments_stops_at_right_edge() {
    let items = vec![
        Fragment::span("abcde"),
        Fragment::Line,
        Fragment::span("xy"),
    ];
    let mut buf = Buffer::empty(area(3, 2));
    TextFragments::new(&items).render(area(3, 2), &mut buf);
    // The first fragment does not fit, which stops the whole render.
    assert_eq!(buf, Buffer::empty(area(3, 2)));
}

#[test]
fn simple_list_plain() {
    let items = vec![Span::raw("x"), Span::raw("y"), Span::raw("z")];
    let mut buf = Buffer::empty(area(1, 3));
    SimpleList::new(&items).render(area(1, 3), &mut buf);
    assert_eq!(buf, Buffer::with_lines(vec!["x", "y", "z"]));
}

#[test]
fn simple_list_scrolls_to_selection() {
    let items = vec![Span::raw("x"), Span::raw("y"), Span::raw("z")];
    let mut buf = Buffer::empty(area(2, 2));
    SimpleList::new(&items)
        .select(Some(2))
        .highlight_symbol(Span::raw(">"))
        .render(area(2, 2), &mut buf);
    assert_eq!(buf, Buffer::with_lines(vec![" y", ">z"]));
}

#[test]
fn log_anchors_to_the_bottom() {
    let items = vec![
        vec![Fragment::span("a")],
        vec![Fragment::span("b")],
        vec![Fragment::span("c")],
    ];
    let mut buf = Buffer::empty(area(1, 2));
    Log::new(&items).render(area(1, 2), &mut buf);
    assert_eq!(buf, Buffer::with_lines(vec!["b", "c"]));
}

#[test]
fn log_multiline_items() {
    let items = vec![
        vec![Fragment::span("aa")],
        vec![Fragment::span("bb"), Fragment::Line, Fragment::span("cc")],
    ];
    let mut buf = Buffer::empty(area(2, 3));
    Log::new(&items).render(area(2, 3), &mut buf);
    assert_eq!(buf, Buffer::with_lines(vec!["aa", "bb", "cc"]));
}
