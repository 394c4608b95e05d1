use tui_utils::fragment::{Fragment, OverflowMode, Span, SpanOptions};
use tui_utils::wrap::by_letters;

fn total_len(fragments: &[Fragment]) -> u64 {
    fragments.iter().map(|f| f.len() as u64).sum()
}

#[test]
fn letters_fit_unchanged() {
    let fragments = vec![Fragment::span("hello")];
    let result = by_letters(&fragments, 5);

    assert_eq!(result, fragments);
}

#[test]
fn letters_empty() {
    let fragments: Vec<Fragment> = vec![];
    let result = by_letters(&fragments, 10);

    assert_eq!(result, Vec::<Fragment>::new());
}

#[test]
fn letters_wrap_simple() {
    let fragments = vec![Fragment::span("hello world")];
    let result = by_letters(&fragments, 5);

    assert_eq!(
        result,
        vec![
            Fragment::span("hello"),
            Fragment::Line,
            Fragment::span(" worl"),
            Fragment::Line,
            Fragment::span("d")
        ]
    );
}

#[test]
fn letters_wrap_keeps_total_length() {
    let fragments = vec![
        Fragment::span("hello world"),
        Fragment::Char('!', tui::style::Style::default()),
        Fragment::span("again"),
    ];
    let result = by_letters(&fragments, 4);

    assert_eq!(total_len(&result), total_len(&fragments));
}

#[test]
fn letters_wrap_wide_characters() {
    // Each of these characters is two columns wide, so only two fit per line.
    let fragments = vec![Fragment::span("\u{65e5}\u{672c}\u{8a9e}")];
    let result = by_letters(&fragments, 4);

    assert_eq!(
        result,
        vec![
            Fragment::span("\u{65e5}\u{672c}"),
            Fragment::Line,
            Fragment::span("\u{8a9e}")
        ]
    );
}

#[test]
fn letters_wide_grapheme_alone() {
    // A single grapheme wider than the width is placed alone, not dropped.
    let fragments = vec![Fragment::span("a\u{65e5}b")];
    let result = by_letters(&fragments, 1);

    assert_eq!(
        result,
        vec![
            Fragment::span("a"),
            Fragment::Line,
            Fragment::span("\u{65e5}"),
            Fragment::Line,
            Fragment::span("b")
        ]
    );
}

#[test]
fn letters_char_fragments_advance_the_line() {
    let style = tui::style::Style::default();
    let fragments = vec![
        Fragment::Char('a', style),
        Fragment::span("bc"),
    ];
    let result = by_letters(&fragments, 2);

    assert_eq!(
        result,
        vec![
            Fragment::Char('a', style),
            Fragment::span("b"),
            Fragment::Line,
            Fragment::span("c")
        ]
    );
}

#[test]
fn letters_line_resets_the_counter() {
    let fragments = vec![
        Fragment::span("abc"),
        Fragment::Line,
        Fragment::span("def"),
    ];
    let result = by_letters(&fragments, 3);

    assert_eq!(result, fragments);
}

#[test]
fn letters_byte_length_mode() {
    // In byte-length mode a three-byte character counts three cells.
    let opts = SpanOptions::new().unicode_aware(false);
    let fragments = vec![Fragment::Span(Span::raw("\u{65e5}\u{672c}"), opts)];
    let result = by_letters(&fragments, 3);

    assert_eq!(
        result,
        vec![
            Fragment::Span(Span::raw("\u{65e5}"), opts),
            Fragment::Line,
            Fragment::Span(Span::raw("\u{672c}"), opts)
        ]
    );
}

#[test]
fn letters_overflow_mode_is_kept() {
    let opts = SpanOptions::new().overflow(OverflowMode::Truncate);
    let fragments = vec![Fragment::Span(Span::raw("abcd"), opts)];
    let result = by_letters(&fragments, 2);

    assert_eq!(
        result,
        vec![
            Fragment::Span(Span::raw("ab"), opts),
            Fragment::Line,
            Fragment::Span(Span::raw("cd"), opts)
        ]
    );
}
