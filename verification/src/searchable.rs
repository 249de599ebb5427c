//! A list with a search filter: the items, and those of them that the last
//! search let through.
use vstd::prelude::*;

verus! {

/// A list of items and the selection that the last search made among them.
pub struct Searchable<T, F> where T: Clone, F: Fn(&T, &str) -> bool {
    vec: Vec<T>,
    filter: F,
    filtered: Vec<T>,
}

/// Whether `picks` names places in a list of `count` items, in rising order.
pub open spec fn rising(picks: Seq<int>, count: int) -> bool {
    &&& forall|k: int| 0 <= k < picks.len() ==> 0 <= #[trigger] picks[k] < count
    &&& forall|k: int, l: int| 0 <= k < l < picks.len() ==> picks[k] < picks[l]
}

/// Whether `shown` is what a search for `value` selects from `items`.
///
/// An empty `value` selects every item. Any other selects, in order, the
/// items for which the filter answered yes, and the filter answered no for
/// every other item. Each selected item is a clone of the item in the list.
pub open spec fn selects<T: Clone, F: Fn(&T, &str) -> bool>(
    items: Seq<T>,
    filter: F,
    value: &str,
    shown: Seq<T>,
) -> bool {
    if value@.len() == 0 {
        &&& shown.len() == items.len()
        &&& forall|i: int| 0 <= i < items.len() ==> cloned(#[trigger] items[i], shown[i])
    } else {
        exists|picks: Seq<int>|
            {
                &&& rising(picks, items.len() as int)
                &&& picks.len() == shown.len()
                &&& forall|k: int|
                    0 <= k < picks.len() ==> cloned(items[#[trigger] picks[k]], shown[k])
                        && call_ensures(filter, (&items[picks[k]], value), true)
                &&& forall|i: int|
                    0 <= i < items.len() && !picks.contains(i) ==> call_ensures(
                        filter,
                        (&#[trigger] items[i], value),
                        false,
                    )
            }
    }
}

/// Whether the filter may be asked about every item with this value.
pub open spec fn askable<T: Clone, F: Fn(&T, &str) -> bool>(
    items: Seq<T>,
    filter: F,
    value: &str,
) -> bool {
    forall|i: int| 0 <= i < items.len() ==> call_requires(filter, (&#[trigger] items[i], value))
}

impl<T, F> Searchable<T, F> where T: Clone, F: Fn(&T, &str) -> bool {
    /// All items, in order.
    pub closed spec fn items(&self) -> Seq<T> {
        self.vec@
    }

    /// The items that the last search selected, in order.
    pub closed spec fn shown(&self) -> Seq<T> {
        self.filtered@
    }

    /// The filter that searches ask.
    pub closed spec fn filter(&self) -> F {
        self.filter
    }

    /// A list of the given items, searched for `search_value`.
    pub fn new(vec: Vec<T>, search_value: &str, predicate: F) -> (list: Self)
        requires
            askable(vec@, predicate, search_value),
        ensures
            list.items() == vec@,
            list.filter() == predicate,
            selects(list.items(), list.filter(), search_value, list.shown()),
    {
        let mut searchable = Self { vec, filter: predicate, filtered: Vec::new() };
        searchable.search(search_value);
        searchable
    }

    /// Searches the items for `value` and selects those that the filter lets
    /// through; an empty `value` selects them all.
    pub fn search(&mut self, value: &str)
        requires
            askable(old(self).items(), old(self).filter(), value),
        ensures
            final(self).items() == old(self).items(),
            final(self).filter() == old(self).filter(),
            selects(final(self).items(), final(self).filter(), value, final(self).shown()),
    {
        let mut filtered: Vec<T> = Vec::new();
        let all = value.unicode_len() == 0;
        let ghost mut picks: Seq<int> = Seq::empty();
        let mut i: usize = 0;
        while i < self.vec.len()
            invariant
                i <= self.vec.len(),
                self.vec@ == old(self).vec@,
                self.filter == old(self).filter,
                askable(self.vec@, self.filter, value),
                all == (value@.len() == 0),
                rising(picks, i as int),
                picks.len() == filtered.len(),
                all ==> filtered.len() == i,
                all ==> forall|j: int| 0 <= j < i ==> cloned(#[trigger] self.vec@[j], filtered@[j]),
                forall|k: int|
                    0 <= k < picks.len() ==> cloned(self.vec@[#[trigger] picks[k]], filtered@[k])
                        && (!all ==> call_ensures(self.filter, (&self.vec@[picks[k]], value), true)),
                !all ==> forall|j: int|
                    0 <= j < i && !picks.contains(j) ==> call_ensures(
                        self.filter,
                        (&#[trigger] self.vec@[j], value),
                        false,
                    ),
            decreases self.vec.len() - i,
        {
            let item = &self.vec[i];
            let keep = all || (self.filter)(item, value);
            let ghost before = picks;
            if keep {
                filtered.push(item.clone());
                proof {
                    picks = picks.push(i as int);
                    assert(picks[picks.len() - 1] == i as int);
                    assert forall|j: int| 0 <= j < i + 1 && !picks.contains(j) implies 0 <= j < i
                        && !before.contains(j) by {
                        if before.contains(j) {
                            let k = choose|k: int| 0 <= k < before.len() && before[k] == j;
                            assert(picks[k] == j);
                        }
                    }
                }
            } else {
                proof {
                    assert(call_ensures(self.filter, (&self.vec@[i as int], value), false));
                    assert(!picks.contains(i as int)) by {
                        if picks.contains(i as int) {
                            let k = choose|k: int| 0 <= k < picks.len() && picks[k] == i as int;
                            assert(picks[k] < i);
                        }
                    }
                }
            }
            i += 1;
        }
        self.filtered = filtered;
    }

    /// How many items the last search selected.
    pub fn len(&self) -> (count: usize)
        ensures
            count == self.shown().len(),
    {
        self.filtered.len()
    }

    /// Whether the last search selected nothing.
    pub fn is_empty(&self) -> (empty: bool)
        ensures
            empty == (self.shown().len() == 0),
    {
        self.filtered.len() == 0
    }

    /// All items, whatever the last search selected.
    pub fn non_filtered_iter(&self) -> (items: std::slice::Iter<'_, T>)
        ensures
            vstd::std_specs::slice::into_iter_elts(items) == self.items(),
    {
        self.vec.iter()
    }

    /// The items that the last search selected.
    pub fn iter(&self) -> (items: std::slice::Iter<'_, T>)
        ensures
            vstd::std_specs::slice::into_iter_elts(items) == self.shown(),
    {
        self.filtered.iter()
    }
}

impl<T, F> std::ops::Index<usize> for Searchable<T, F> where T: Clone, F: Fn(&T, &str) -> bool {
    type Output = T;

    fn index(&self, index: usize) -> (item: &T)
        ensures
            *item == self.shown()[index as int],
    {
        &self.filtered[index]
    }
}

impl<T, F> vstd::std_specs::core::IndexSpecImpl<usize> for Searchable<T, F> where T: Clone, F: Fn(&T, &str) -> bool {
    open spec fn index_req(&self, index: &usize) -> bool {
        *index < self.shown().len()
    }
}

impl<'a, T, F> IntoIterator for &'a Searchable<T, F> where T: Clone, F: Fn(&T, &str) -> bool {
    type Item = &'a T;

    type IntoIter = std::slice::Iter<'a, T>;

    fn into_iter(self) -> (items: std::slice::Iter<'a, T>)
        ensures
            vstd::std_specs::slice::into_iter_elts(items) == self.shown(),
    {
        self.filtered.iter()
    }
}

} // verus!
