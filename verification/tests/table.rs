use tui::buffer::Buffer;
use tui::layout::Rect;
use tui_utils::fragment::Span;
use tui_utils::layout::BasicConstraint;
use tui_utils::table::SimpleTable;

fn test_table(table: SimpleTable, width: u16, height: u16, expected: Buffer) {
    let area = Rect {
        x: 0,
        y: 0,
        width,
        height,
    };
    let mut buf = Buffer::empty(area);
    table.render(area, &mut buf);
    assert_eq!(buf, expected);
}

fn table_with_selection<'a>(
    data: &'a [Vec<Span>],
    header: &'a [Span],
    select: u16,
) -> SimpleTable<'a> {
    SimpleTable::new(
        data,
        vec![BasicConstraint::Length(12), BasicConstraint::Length(13)],
    )
    .header(header)
    .highlight_symbol(Span::raw(">"))
    .select(Some(select))
}

fn test_data() -> Vec<Vec<Span>> {
    vec![
        vec![Span::raw("Left1"), Span::raw("Right1")],
        vec![Span::raw("Left2"), Span::raw("Right2")],
        vec![Span::raw("Left3"), Span::raw("Right3")],
        vec![Span::raw("Left4"), Span::raw("Right4")],
        vec![Span::raw("Left5"), Span::raw("Right5")],
    ]
}

fn test_large_data() -> Vec<Vec<Span>> {
    (1..=20)
        .map(|i| {
            vec![
                Span::raw(&format!("Left{}", i)),
                Span::raw(&format!("Right{}", i)),
            ]
        })
        .collect()
}

fn test_header() -> Vec<Span> {
    vec![Span::raw("Left Header"), Span::raw("Right Header")]
}

#[test]
fn empty_table() {
    let data = vec![vec![]];

    let table = SimpleTable::new(
        &data,
        vec![BasicConstraint::Length(5), BasicConstraint::Length(5)],
    );

    let expected = {
        let mut buf = Buffer::default();

        buf.resize(Rect {
            x: 0,
            y: 0,
            width: 10,
            height: 10,
        });

        buf
    };

    test_table(table, 10, 10, expected);
}

#[test]
fn basic_table() {
    let data = vec![vec![Span::raw("Left"), Span::raw("Right")]];

    let table = SimpleTable::new(
        &data,
        vec![BasicConstraint::Length(5), BasicConstraint::Length(5)],
    );

    let expected = Buffer::with_lines(vec!["Left Right"]);

    test_table(table, 10, 1, expected);
}

#[test]
fn basic_multiline_table() {
    let data = test_data();

    let table = SimpleTable::new(
        &data,
        vec![BasicConstraint::Length(6), BasicConstraint::Length(6)],
    );

    let expected = Buffer::with_lines(vec![
        "Left1 Right1",
        "Left2 Right2",
        "Left3 Right3",
        "Left4 Right4",
        "Left5 Right5",
    ]);

    test_table(table, 12, 5, expected);
}

#[test]
fn table_header() {
    let data = test_data();
    let header = test_header();

    let table = SimpleTable::new(
        &data,
        vec![
            BasicConstraint::Percentage(50),
            BasicConstraint::Percentage(50),
        ],
    )
    .header(&header);

    let expected = Buffer::with_lines(vec![
        "Left Header Right Header",
        "Left1       Right1",
        "Left2       Right2",
        "Left3       Right3",
        "Left4       Right4",
        "Left5       Right5",
    ]);

    test_table(table, 24, 6, expected);
}

#[test]
fn table_header_with_beginning_selection() {
    let data = test_data();
    let header = test_header();
    let table = table_with_selection(&data, &header, 0);

    let expected = Buffer::with_lines(vec![
        " Left Header Right Header",
        ">Left1       Right1",
        " Left2       Right2",
        " Left3       Right3",
        " Left4       Right4",
        " Left5       Right5",
    ]);

    test_table(table, 25, 6, expected);
}

#[test]
fn table_header_with_mid_selection() {
    let data = test_data();
    let header = test_header();
    let table = table_with_selection(&data, &header, 2);

    let expected = Buffer::with_lines(vec![
        " Left Header Right Header",
        " Left1       Right1",
        " Left2       Right2",
        ">Left3       Right3",
        " Left4       Right4",
        " Left5       Right5",
    ]);

    test_table(table, 25, 6, expected);
}

#[test]
fn table_header_with_end_selection() {
    let data = test_data();
    let header = test_header();
    let table = table_with_selection(&data, &header, 4);

    let expected = Buffer::with_lines(vec![
        " Left Header Right Header",
        " Left1       Right1",
        " Left2       Right2",
        " Left3       Right3",
        " Left4       Right4",
        ">Left5       Right5",
    ]);

    test_table(table, 25, 6, expected);
}

#[test]
fn table_header_with_scrolling_edge_selection() {
    let data = test_large_data();
    let header = test_header();
    let table = table_with_selection(&data, &header, 10);

    let expected = Buffer::with_lines(vec![
        " Left Header Right Header",
        " Left7       Right7      ",
        " Left8       Right8      ",
        " Left9       Right9      ",
        " Left10      Right10     ",
        ">Left11      Right11     ",
    ]);

    test_table(table, 25, 6, expected);
}

#[test]
fn table_header_with_scrolling_mid_selection() {
    let data = test_large_data();
    let header = test_header();
    let table = table_with_selection(&data, &header, 14);

    let expected = Buffer::with_lines(vec![
        " Left Header Right Header",
        " Left11      Right11     ",
        " Left12      Right12     ",
        " Left13      Right13     ",
        " Left14      Right14     ",
        ">Left15      Right15     ",
    ]);

    test_table(table, 25, 6, expected);
}

#[test]
fn table_header_with_scrolling_end_selection() {
    let data = test_large_data();
    let header = test_header();
    let table = table_with_selection(&data, &header, 19);

    let expected = Buffer::with_lines(vec![
        " Left Header Right Header",
        " Left16      Right16     ",
        " Left17      Right17     ",
        " Left18      Right18     ",
        " Left19      Right19     ",
        ">Left20      Right20     ",
    ]);

    test_table(table, 25, 6, expected);
}

#[test]
fn table_header_with_scrolling_overflow_selection() {
    let data = test_large_data();
    let header = test_header();
    let table = table_with_selection(&data, &header, 21);

    let expected = Buffer::with_lines(vec![
        " Left Header Right Header",
        " Left18      Right18     ",
        " Left19      Right19     ",
        " Left20      Right20     ",
        "                         ",
        "                         ",
    ]);

    test_table(table, 25, 6, expected);
}

#[test]
fn table_right_header_cutoff() {
    let data = test_data();
    let header = test_header();

    let table = SimpleTable::new(
        &data,
        vec![BasicConstraint::Length(12), BasicConstraint::Length(13)],
    )
    .header(&header)
    .highlight_symbol(Span::raw(">"))
    .select(Some(2));

    let expected = Buffer::with_lines(vec![
        " Left Header Right H",
        " Left1       Right1",
        " Left2       Right2",
        ">Left3       Right3",
        " Left4       Right4",
        " Left5       Right5",
    ]);

    test_table(table, 20, 6, expected);
}

#[test]
fn table_right_data_cutoff() {
    let data = test_data();
    let header = test_header();

    let table = SimpleTable::new(
        &data,
        vec![BasicConstraint::Length(12), BasicConstraint::Length(13)],
    )
    .header(&header)
    .highlight_symbol(Span::raw(">"))
    .select(Some(2));

    let expected = Buffer::with_lines(vec![
        " Left Header Righ",
        " Left1       Righ",
        " Left2       Righ",
        ">Left3       Righ",
        " Left4       Righ",
        " Left5       Righ",
    ]);

    test_table(table, 17, 6, expected);
}

#[test]
fn table_left_data_cutoff() {
    let data = test_data();
    let header = test_header();

    let table = SimpleTable::new(
        &data,
        vec![BasicConstraint::Length(12), BasicConstraint::Length(13)],
    )
    .header(&header)
    .highlight_symbol(Span::raw(">"))
    .select(Some(2));

    let expected = Buffer::with_lines(vec![" Lef", " Lef", " Lef", ">Lef", " Lef", " Lef"]);

    test_table(table, 4, 6, expected);
}

#[test]
fn table_skips_mismatched_row() {
    let data = vec![
        vec![Span::raw("a"), Span::raw("b")],
        vec![Span::raw("x")],
        vec![Span::raw("c"), Span::raw("d")],
    ];

    let table = SimpleTable::new(
        &data,
        vec![BasicConstraint::Length(3), BasicConstraint::Length(3)],
    );

    // The one-cell row renders nothing, but its row stays and the row after
    // it still renders.
    let expected = Buffer::with_lines(vec!["a  b  ", "      ", "c  d  "]);

    test_table(table, 6, 3, expected);
}

#[test]
fn table_skips_mismatched_header() {
    let data = vec![
        vec![Span::raw("a"), Span::raw("b")],
        vec![Span::raw("c"), Span::raw("d")],
    ];
    let header = vec![Span::raw("H")];

    let table = SimpleTable::new(
        &data,
        vec![BasicConstraint::Length(3), BasicConstraint::Length(3)],
    )
    .header(&header);

    // The one-cell header renders nothing, but still takes its row; the data
    // rows render below it.
    let expected = Buffer::with_lines(vec!["      ", "a  b  ", "c  d  "]);

    test_table(table, 6, 3, expected);
}

#[test]
fn table_full_cutoff() {
    let data = test_data();
    let header = test_header();

    let table = SimpleTable::new(
        &data,
        vec![BasicConstraint::Length(12), BasicConstraint::Length(13)],
    )
    .header(&header)
    .highlight_symbol(Span::raw(">"))
    .select(Some(2));

    let expected = {
        let mut buf = Buffer::default();

        buf.resize(Rect {
            x: 0,
            y: 0,
            width: 0,
            height: 6,
        });

        buf
    };

    test_table(table, 0, 6, expected);
}
