//! Selection bookkeeping for list-like widgets: an index that wraps around
//! its bounds, a selection over an owned vector of items, and a selection
//! over the variants of an enum.
use vstd::prelude::*;
use core::marker::PhantomData;

verus! {

/// An index that wraps around zero and a maximum value.
#[derive(Copy, Clone, PartialEq, Eq, Structural, Debug)]
pub struct WrappingIndex(pub usize);

impl WrappingIndex {
    pub fn new(index: usize) -> (r: Self)
        ensures
            r.0 == index,
    {
        WrappingIndex(index)
    }

    pub fn get(self) -> (r: usize)
        ensures
            r == self.0,
    {
        self.0
    }

    pub fn get_mut(&mut self) -> (r: &mut usize)
        ensures
            *r == old(self).0,
            final(self).0 == *final(r),
    {
        &mut self.0
    }

    /// Increment the index by 1, wrapping around `max` if necessary; a bound
    /// of zero resets the index to zero.
    pub fn increment(&mut self, max: usize)
        ensures
            max > 0 ==> final(self).0 == (old(self).0 + 1) % (max as int),
            max == 0 ==> final(self).0 == 0,
    {
        if max > 0 {
            let r = self.0 % max;
            proof {
                let x = old(self).0 as int;
                let m = max as int;
                vstd::arithmetic::div_mod::lemma_fundamental_div_mod(x, m);
                assert((x / m) * m == m * (x / m)) by (nonlinear_arith);
                assert((x / m + 1) * m == m * (x / m) + m) by (nonlinear_arith);
                if r + 1 < max {
                    vstd::arithmetic::div_mod::lemma_fundamental_div_mod_converse(
                        old(self).0 as int + 1,
                        max as int,
                        old(self).0 as int / max as int,
                        r as int + 1,
                    );
                } else {
                    vstd::arithmetic::div_mod::lemma_fundamental_div_mod_converse(
                        old(self).0 as int + 1,
                        max as int,
                        old(self).0 as int / max as int + 1,
                        0,
                    );
                }
            }
            self.0 = if r + 1 < max {
                r + 1
            } else {
                0
            };
        } else {
            self.0 = 0;
        }
    }

    /// Decrement the index by 1, wrapping around to `max - 1` if necessary.
    pub fn decrement(&mut self, max: usize)
        ensures
            old(self).0 == 0 ==> final(self).0 == (if max > 0 {
                max - 1
            } else {
                0int
            }),
            old(self).0 > 0 ==> final(self).0 == old(self).0 - 1,
    {
        self.0 = if self.0 == 0 {
            if max > 0 {
                max - 1
            } else {
                0
            }
        } else {
            self.0 - 1
        };
    }

    /// Ensure the index is within the given `max` value.
    ///
    /// If the index is out of bounds, it is set to one less than the given
    /// `max`.
    pub fn update_bounds(&mut self, max: usize)
        ensures
            final(self).0 == (if old(self).0 >= max {
                if max > 0 {
                    max - 1
                } else {
                    0int
                }
            } else {
                old(self).0 as int
            }),
    {
        if self.0 >= max {
            self.0 = if max > 0 {
                max - 1
            } else {
                0
            };
        }
    }
}

impl PartialEq<usize> for WrappingIndex {
    fn eq(&self, other: &usize) -> (r: bool) {
        self.0 == *other
    }
}

impl vstd::std_specs::cmp::PartialEqSpecImpl<usize> for WrappingIndex {
    open spec fn obeys_eq_spec() -> bool {
        true
    }

    open spec fn eq_spec(&self, other: &usize) -> bool {
        self.0 == *other
    }
}

impl Default for WrappingIndex {
    fn default() -> (r: Self)
        ensures
            r.0 == 0,
    {
        WrappingIndex(0)
    }
}

/// A count of displayable items.
pub trait NumItems {
    /// The number of items this value holds.
    spec fn spec_num_items(&self) -> nat;

    fn num_items(&self) -> (r: usize)
        ensures
            r == self.spec_num_items(),
    ;
}

impl<T> NumItems for Vec<T> {
    open spec fn spec_num_items(&self) -> nat {
        self@.len()
    }

    fn num_items(&self) -> (r: usize) {
        self.len()
    }
}

/// Items that can be selected by a wrapping index.
pub struct WrappedSelection<Val> {
    pub index: WrappingIndex,
    pub items: Vec<Val>,
}

impl<Val> WrappedSelection<Val> {
    pub fn new(items: Vec<Val>) -> (r: Self)
        ensures
            r.index.0 == 0,
            r.items == items,
    {
        WrappedSelection::with_index(WrappingIndex::new(0), items)
    }

    pub fn with_index(index: WrappingIndex, items: Vec<Val>) -> (r: Self)
        ensures
            r.index == index,
            r.items == items,
    {
        WrappedSelection { index, items }
    }

    /// Returns the current index position.
    pub fn index(&self) -> (r: usize)
        ensures
            r == self.index.0,
    {
        self.index.get()
    }

    /// Returns true if the current selection index is in bounds.
    pub fn is_valid_index(&self) -> (r: bool)
        ensures
            r == (self.items@.len() > 0 && self.index.0 < self.items@.len()),
    {
        self.items.len() > 0 && self.index.get() < self.items.len()
    }

    /// Returns a reference to the currently selected value, or `None` when
    /// the index is out of bounds.
    pub fn selected(&self) -> (r: Option<&Val>)
        ensures
            self.index.0 < self.items@.len() ==> r == Option::Some(&self.items@[self.index.0 as int]),
            self.index.0 >= self.items@.len() ==> r is None,
    {
        if !self.is_valid_index() {
            return None;
        }
        Some(&self.items[self.index.get()])
    }

    /// Returns a mutable reference to the currently selected value, or
    /// `None` when the index is out of bounds.
    pub fn selected_mut(&mut self) -> (r: Option<&mut Val>)
        ensures
            old(self).index.0 >= old(self).items@.len() ==> r is None && *final(self) == *old(
                self,
            ),
            old(self).index.0 < old(self).items@.len() ==> (match r {
                Option::Some(v) => {
                    &&& *v == old(self).items@[old(self).index.0 as int]
                    &&& final(self).items@ == old(self).items@.update(
                        old(self).index.0 as int,
                        *final(v),
                    )
                    &&& final(self).index == old(self).index
                },
                Option::None => false,
            }),
    {
        if !self.is_valid_index() {
            return None;
        }
        let i = self.index.get();
        Some(&mut self.items[i])
    }

    /// Increment the selected item index by 1, wrapping around if necessary.
    pub fn inc_selected(&mut self)
        ensures
            final(self).items == old(self).items,
            old(self).items@.len() > 0 ==> final(self).index.0 == (old(self).index.0 + 1) % (old(
                self,
            ).items@.len() as int),
            old(self).items@.len() == 0 ==> final(self).index.0 == 0,
    {
        let max = self.items.len();
        self.index.increment(max)
    }

    /// Decrement the selected item index by 1, wrapping around if necessary.
    pub fn dec_selected(&mut self)
        ensures
            final(self).items == old(self).items,
            old(self).index.0 > 0 ==> final(self).index.0 == old(self).index.0 - 1,
            old(self).index.0 == 0 ==> final(self).index.0 == (if old(self).items@.len() > 0 {
                old(self).items@.len() - 1
            } else {
                0int
            }),
    {
        let max = self.items.len();
        self.index.decrement(max)
    }

    /// Set the selection index to `selected`; an out-of-bounds value is
    /// ignored.
    pub fn set_selected(&mut self, selected: usize)
        ensures
            final(self).items == old(self).items,
            selected < old(self).items@.len() ==> final(self).index.0 == selected,
            selected >= old(self).items@.len() ==> final(self).index == old(self).index,
    {
        if selected >= self.items.len() {
            return ;
        }
        self.index = WrappingIndex::new(selected);
    }

    /// Update the selection index to ensure it stays in bounds.
    ///
    /// This should be called whenever an item is removed.
    pub fn update_bounds(&mut self)
        ensures
            final(self).items == old(self).items,
            final(self).index.0 == (if old(self).index.0 >= old(self).items@.len() {
                if old(self).items@.len() > 0 {
                    old(self).items@.len() - 1
                } else {
                    0int
                }
            } else {
                old(self).index.0 as int
            }),
    {
        let max = self.items.len();
        self.index.update_bounds(max)
    }

    /// Returns a mutable reference to the contained items.
    ///
    /// Make sure to call [`Self::update_bounds()`] if any items are going to
    /// be removed.
    pub fn items_mut(&mut self) -> (r: &mut Vec<Val>)
        ensures
            *r == old(self).items,
            final(self).items == *final(r),
            final(self).index == old(self).index,
    {
        &mut self.items
    }
}

/// Enum variants to display on a list. The implementer lists the variants
/// in ordinary code, so the trait carries no contracts: nothing here is
/// assumed of the list, and whatever `items` returns, the selection below
/// stays in bounds or yields `None`.
pub trait EnumListItems: Sized + 'static {
    fn items() -> &'static [Self];

    fn num_items() -> usize {
        Self::items().len()
    }
}

/// An enum with selectable variants.
pub struct SelectableEnum<T: EnumListItems + Copy> {
    pub index: WrappingIndex,
    pub _phantom: PhantomData<T>,
}

impl<T: EnumListItems + Copy> SelectableEnum<T> {
    pub fn new() -> (r: Self)
        ensures
            r.index.0 == 0,
    {
        SelectableEnum { index: WrappingIndex::new(0), _phantom: PhantomData }
    }

    /// Returns the current selected index.
    pub fn index(&self) -> (r: usize)
        ensures
            r == self.index.0,
    {
        self.index.get()
    }

    /// Returns the currently selected enum variant, or `None` when the
    /// variant list does not cover the index. The trait carries no
    /// specification of its list, so the exact contract lives on
    /// `variant_at`, which this merely applies to `items()` and the current
    /// index.
    pub fn selected(&self) -> Option<T> {
        Self::variant_at(T::items(), self.index.get())
    }

    /// The variant at `index` of a variant list, when the list covers it.
    pub fn variant_at(items: &[T], index: usize) -> (r: Option<T>)
        ensures
            index < items@.len() ==> r == Option::Some(items@[index as int]),
            index >= items@.len() ==> r is None,
    {
        if index < items.len() {
            Some(items[index])
        } else {
            None
        }
    }

    /// Increment the selected variant index by 1, wrapping around the
    /// count that `num_items` reports, as `WrappingIndex::increment`
    /// specifies.
    pub fn increment(&mut self) {
        let max = T::num_items();
        self.index.increment(max)
    }

    /// Decrement the selected variant index by 1, wrapping around the
    /// count that `num_items` reports, as `WrappingIndex::decrement`
    /// specifies.
    pub fn decrement(&mut self) {
        let max = T::num_items();
        self.index.decrement(max)
    }
}

impl<T: EnumListItems + Copy> Default for SelectableEnum<T> {
    fn default() -> (r: Self)
        ensures
            r.index.0 == 0,
    {
        SelectableEnum::new()
    }
}

} // verus!
