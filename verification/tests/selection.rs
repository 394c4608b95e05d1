use tui_utils::list::{EnumListItems, SelectableEnum, WrappedSelection, WrappingIndex};
use tui_utils::scroll_offset;

#[test]
fn scroll_offset_keeps_selection_visible() {
    // Twenty items in a five-row viewport: selecting the last index scrolls
    // so that it becomes the last visible row.
    assert_eq!(scroll_offset(Some(19), 5, 0), 15);
    assert_eq!(scroll_offset(Some(2), 5, 0), 0);
    assert_eq!(scroll_offset(None, 5, 0), 0);
}

#[test]
fn scroll_offset_with_header() {
    assert_eq!(scroll_offset(Some(4), 6, 1), 0);
    assert_eq!(scroll_offset(Some(5), 6, 1), 1);
    assert_eq!(scroll_offset(Some(10), 6, 1), 6);
}

#[test]
fn wrapping_index_increments_and_wraps() {
    let mut index = WrappingIndex::new(0);
    index.increment(3);
    assert_eq!(index.get(), 1);
    index.increment(3);
    assert_eq!(index.get(), 2);
    index.increment(3);
    assert_eq!(index.get(), 0);
    index.increment(0);
    assert_eq!(index.get(), 0);
}

#[test]
fn wrapping_index_decrements_and_wraps() {
    let mut index = WrappingIndex::new(0);
    index.decrement(3);
    assert_eq!(index.get(), 2);
    index.decrement(3);
    assert_eq!(index.get(), 1);
    index.decrement(0);
    assert_eq!(index.get(), 0);
}

#[test]
fn wrapping_index_update_bounds() {
    let mut index = WrappingIndex::new(5);
    index.update_bounds(3);
    assert_eq!(index.get(), 2);
    index.update_bounds(0);
    assert_eq!(index.get(), 0);
}

#[test]
fn wrapped_selection_basics() {
    let mut sel = WrappedSelection::new(vec!["a", "b", "c"]);
    assert_eq!(sel.index(), 0);
    assert!(sel.is_valid_index());
    assert_eq!(sel.selected(), Some(&"a"));

    sel.inc_selected();
    assert_eq!(sel.selected(), Some(&"b"));
    sel.inc_selected();
    sel.inc_selected();
    assert_eq!(sel.selected(), Some(&"a"));

    sel.dec_selected();
    assert_eq!(sel.selected(), Some(&"c"));
}

#[test]
fn wrapped_selection_set_and_bounds() {
    let mut sel = WrappedSelection::new(vec![1, 2, 3]);
    sel.set_selected(2);
    assert_eq!(sel.index(), 2);
    sel.set_selected(9);
    assert_eq!(sel.index(), 2);

    sel.items_mut().pop();
    sel.update_bounds();
    assert_eq!(sel.index(), 1);
}

#[test]
fn wrapping_index_compares_to_usize() {
    let index = WrappingIndex::new(4);
    assert!(index == 4);
    assert!(index != 5);
}

#[test]
fn wrapping_index_get_mut() {
    let mut index = WrappingIndex::new(1);
    *index.get_mut() = 7;
    assert_eq!(index.get(), 7);
}

#[test]
fn wrapped_selection_selected_mut() {
    let mut sel = WrappedSelection::new(vec![10, 20, 30]);
    sel.set_selected(1);
    if let Some(v) = sel.selected_mut() {
        *v = 25;
    }
    assert_eq!(sel.selected(), Some(&25));

    let mut empty = WrappedSelection::new(Vec::<u8>::new());
    assert_eq!(empty.selected_mut(), None);
}

#[test]
fn wrapped_selection_empty() {
    let sel = WrappedSelection::new(Vec::<u8>::new());
    assert!(!sel.is_valid_index());
    assert_eq!(sel.selected(), None);
}

#[derive(Copy, Clone, Debug, PartialEq, Eq)]
enum Fruit {
    Apple,
    Pear,
    Plum,
}

impl EnumListItems for Fruit {
    fn items() -> &'static [Fruit] {
        &[Fruit::Apple, Fruit::Pear, Fruit::Plum]
    }
}

#[test]
fn selectable_enum_cycles_variants() {
    let mut sel = SelectableEnum::<Fruit>::new();
    assert_eq!(sel.index(), 0);
    assert_eq!(sel.selected(), Some(Fruit::Apple));

    sel.increment();
    assert_eq!(sel.selected(), Some(Fruit::Pear));
    sel.increment();
    sel.increment();
    assert_eq!(sel.selected(), Some(Fruit::Apple));

    sel.decrement();
    assert_eq!(sel.selected(), Some(Fruit::Plum));
}
