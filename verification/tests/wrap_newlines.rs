use tui_utils::fragment::Fragment;
use tui_utils::wrap::by_newlines;

#[test]
fn newlines_empty() {
    let fragments: Vec<Fragment> = vec![];
    let result = by_newlines(&fragments);

    assert_eq!(result, Vec::<Fragment>::new());
}

#[test]
fn newlines_no_wrapping() {
    let fragments = vec![Fragment::span("this is a no wrapping test")];
    let result = by_newlines(&fragments);

    assert_eq!(result, fragments);
}

#[test]
fn newlines_wrap_once() {
    let fragments = vec![Fragment::span("this is a simple\nwrapping test")];
    let result = by_newlines(&fragments);

    assert_eq!(
        result,
        vec![
            Fragment::span("this is a simple"),
            Fragment::Line,
            Fragment::span("wrapping test")
        ]
    );
}

#[test]
fn newlines_wrap_three_times() {
    let fragments = vec![Fragment::span("this is\na simple\nwrapping\ntest")];
    let result = by_newlines(&fragments);

    assert_eq!(
        result,
        vec![
            Fragment::span("this is"),
            Fragment::Line,
            Fragment::span("a simple"),
            Fragment::Line,
            Fragment::span("wrapping"),
            Fragment::Line,
            Fragment::span("test")
        ]
    );
}

#[test]
fn newlines_multiple_wraps_at_a_time() {
    let fragments = vec![Fragment::span("this is a\n\n\nwrapping test")];
    let result = by_newlines(&fragments);

    assert_eq!(
        result,
        vec![
            Fragment::span("this is a"),
            Fragment::Line,
            Fragment::Line,
            Fragment::Line,
            Fragment::span("wrapping test")
        ]
    );
}

#[test]
fn newlines_only_wraps() {
    let fragments = vec![Fragment::span("\n\n\n")];
    let result = by_newlines(&fragments);

    assert_eq!(
        result,
        vec![Fragment::Line, Fragment::Line, Fragment::Line]
    );
}

#[test]
fn newlines_only_wraps_once() {
    let fragments = vec![Fragment::span("\n")];
    let result = by_newlines(&fragments);

    assert_eq!(result, vec![Fragment::Line]);
}

#[test]
fn newlines_starts_with_wrap_ends_with_wrap() {
    let fragments = vec![Fragment::span("\nThis is a test!\n")];
    let result = by_newlines(&fragments);

    assert_eq!(
        result,
        vec![
            Fragment::Line,
            Fragment::span("This is a test!"),
            Fragment::Line
        ]
    );
}
