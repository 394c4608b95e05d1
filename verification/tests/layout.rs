use tui::layout::{Direction, Rect};
use tui_utils::layout::{fast_rounded_percentage, BasicConstraint, SimpleLayout};
use tui_utils::rect::RectExt;

fn rect(x: u16, y: u16, width: u16, height: u16) -> Rect {
    Rect {
        x,
        y,
        width,
        height,
    }
}

#[test]
fn percentage_of_ten() {
    assert_eq!(fast_rounded_percentage(10, 50), 5);
    assert_eq!(fast_rounded_percentage(10, 33), 3);
    assert_eq!(fast_rounded_percentage(10, 100), 10);
    assert_eq!(fast_rounded_percentage(10, 0), 0);
}

#[test]
fn percentage_half_rounds_up() {
    // 10 * 25 = 250, exactly 2.5 percent cells: the half rounds up.
    assert_eq!(fast_rounded_percentage(10, 25), 3);
    // 10 * 5 = 50, exactly 0.5: rounds up to 1.
    assert_eq!(fast_rounded_percentage(10, 5), 1);
    // 10 * 24 = 240: rounds down to 2.
    assert_eq!(fast_rounded_percentage(10, 24), 2);
}

#[test]
fn split_is_contiguous_and_bounded() {
    let area = rect(0, 0, 100, 10);
    let cells = SimpleLayout::new(Direction::Horizontal).split(
        area,
        &[
            BasicConstraint::Percentage(30),
            BasicConstraint::Length(20),
            BasicConstraint::MinLenRemaining(10, 0),
        ],
    );

    assert_eq!(cells.len(), 3);
    assert_eq!(cells[0], rect(0, 0, 30, 10));
    assert_eq!(cells[1], rect(30, 0, 20, 10));
    assert_eq!(cells[2], rect(50, 0, 50, 10));

    // No gaps, no overlaps, and the split never overruns the area.
    let mut edge = area.x;
    for cell in &cells {
        assert_eq!(cell.x, edge);
        edge += cell.width;
    }
    assert!(edge <= area.x + area.width);
}

#[test]
fn split_caps_each_cell_by_what_remains() {
    let area = rect(0, 0, 10, 1);
    let cells = SimpleLayout::new(Direction::Horizontal).split(
        area,
        &[BasicConstraint::Length(8), BasicConstraint::Length(8)],
    );

    assert_eq!(cells[0], rect(0, 0, 8, 1));
    assert_eq!(cells[1], rect(8, 0, 2, 1));
}

#[test]
fn split_vertical_direction() {
    let area = rect(2, 3, 10, 20);
    let cells = SimpleLayout::new(Direction::Vertical).split(
        area,
        &[BasicConstraint::Percentage(50), BasicConstraint::Percentage(50)],
    );

    assert_eq!(cells[0], rect(2, 3, 10, 10));
    assert_eq!(cells[1], rect(2, 13, 10, 10));
}

#[test]
fn split_with_margin() {
    let area = rect(0, 0, 12, 6);
    let cells = SimpleLayout::new(Direction::Horizontal)
        .margin(1)
        .split(area, &[BasicConstraint::Length(10)]);

    assert_eq!(cells[0], rect(1, 1, 10, 4));
}

#[test]
fn split_evenly_halves() {
    let split = SimpleLayout::new(Direction::Horizontal).split_evenly(rect(0, 0, 11, 4));

    assert_eq!(split.left, rect(0, 0, 5, 4));
    assert_eq!(split.right, rect(5, 0, 5, 4));
}

#[test]
fn split_quarters_cells() {
    let split = SimpleLayout::new(Direction::Horizontal).split_quarters(rect(0, 0, 8, 2));

    assert_eq!(split.first, rect(0, 0, 2, 2));
    assert_eq!(split.second, rect(2, 0, 2, 2));
    assert_eq!(split.third, rect(4, 0, 2, 2));
    assert_eq!(split.fourth, rect(6, 0, 2, 2));
}

#[test]
fn split_quadrants_cells() {
    let split = SimpleLayout::new(Direction::Horizontal).split_quadrants(rect(0, 0, 10, 6));

    assert_eq!(split.top_left, rect(0, 0, 5, 3));
    assert_eq!(split.top_right, rect(5, 0, 5, 3));
    assert_eq!(split.bottom_left, rect(0, 3, 5, 3));
    assert_eq!(split.bottom_right, rect(5, 3, 5, 3));
}

#[test]
fn pad_saturates_at_zero() {
    assert_eq!(rect(0, 0, 10, 10).pad(2, 3), rect(2, 3, 6, 4));
    assert_eq!(rect(0, 0, 3, 3).pad(2, 2), rect(2, 2, 0, 0));
}

#[test]
fn pad_variants() {
    assert_eq!(rect(1, 1, 10, 10).pad_horiz(2), rect(3, 1, 6, 10));
    assert_eq!(rect(1, 1, 10, 10).pad_left(2), rect(3, 1, 8, 10));
    assert_eq!(rect(1, 1, 10, 10).pad_vert(2), rect(1, 3, 10, 6));
}

#[test]
fn lines_from_edges() {
    assert_eq!(rect(0, 0, 10, 10).lines_from_top(3), rect(0, 0, 10, 3));
    assert_eq!(rect(0, 0, 10, 10).lines_from_bottom(3), rect(0, 7, 10, 3));
    assert_eq!(rect(0, 0, 10, 2).lines_from_top(5), rect(0, 0, 10, 2));
}

#[test]
fn lines_from_bottom_caps_at_the_height() {
    // More than half the height, and more than the whole height: the result
    // is still at most `lines` rows anchored at the bottom edge.
    assert_eq!(rect(0, 0, 10, 10).lines_from_bottom(7), rect(0, 3, 10, 7));
    assert_eq!(rect(0, 0, 10, 2).lines_from_bottom(5), rect(0, 0, 10, 2));
    assert_eq!(rect(0, 5, 10, 4).lines_from_bottom(4), rect(0, 5, 10, 4));
}

#[test]
fn area_cells_clip_to_bounds() {
    let cells = tui_utils::rect::area_cells(rect(1, 1, 2, 2), rect(0, 0, 2, 3));
    // Columns left to right, rows top to bottom; the x = 2 column lies
    // outside the two-cell-wide bounds.
    assert_eq!(cells, vec![(1, 1), (1, 2)]);
}

#[test]
fn grid_positions() {
    // A 4x2 cell at grid coordinates (2, 1) of a container at (10, 10).
    let dimensions = rect(2, 1, 4, 2);
    let container = rect(10, 10, 40, 40);
    assert_eq!(
        tui_utils::grid_pos(dimensions, container),
        rect(18, 12, 4, 2)
    );
    assert_eq!(container.grid_pos(dimensions), rect(18, 12, 4, 2));
}
