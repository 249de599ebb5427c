//! The settings of one host block as a list of pairs in which no key occurs
//! twice, and the map from keys to values that such a list stands for.
use super::host_entry::{EntryKey, EntryType};
use vstd::prelude::*;

verus! {

/// A list of settings as contracts see it: each key with its value.
pub type Pairs = Seq<(EntryKey, Seq<char>)>;

/// The settings that a list of entries holds, each key and each value taken
/// by its view.
pub open spec fn pairs_of(entries: Seq<(EntryType, String)>) -> Pairs {
    Seq::new(entries.len(), |i: int| (entries[i].0@, entries[i].1@))
}

/// No key occurs twice in the list.
pub open spec fn distinct_keys(pairs: Pairs) -> bool {
    forall|i: int, j: int| 0 <= i < j < pairs.len() ==> pairs[i].0 != pairs[j].0
}

/// The key occurs in the list.
pub open spec fn has_key(pairs: Pairs, key: EntryKey) -> bool {
    exists|i: int| 0 <= i < pairs.len() && #[trigger] pairs[i].0 == key
}

/// The map that a list of settings stands for; of two pairs with one key the
/// later one counts.
pub open spec fn to_map(pairs: Pairs) -> Map<EntryKey, Seq<char>>
    decreases pairs.len(),
{
    if pairs.len() == 0 {
        Map::empty()
    } else {
        to_map(pairs.drop_last()).insert(pairs.last().0, pairs.last().1)
    }
}

/// Filling `receiver` from `donor`: every key of either map, with the value
/// that `receiver` gives it wherever `receiver` has the key.
pub open spec fn fill_if_absent(
    receiver: Map<EntryKey, Seq<char>>,
    donor: Map<EntryKey, Seq<char>>,
) -> Map<EntryKey, Seq<char>> {
    donor.union_prefer_right(receiver)
}

/// Overwriting `receiver` from `donor`: every key of either map, with the
/// value that `donor` gives it wherever `donor` has the key.
pub open spec fn overwrite(
    receiver: Map<EntryKey, Seq<char>>,
    donor: Map<EntryKey, Seq<char>>,
) -> Map<EntryKey, Seq<char>> {
    receiver.union_prefer_right(donor)
}

/// The map of a list has exactly the keys that occur in the list.
pub proof fn lemma_to_map_keys(pairs: Pairs, key: EntryKey)
    ensures
        to_map(pairs).contains_key(key) <==> has_key(pairs, key),
    decreases pairs.len(),
{
    if pairs.len() > 0 {
        let front = pairs.drop_last();
        lemma_to_map_keys(front, key);
        if has_key(front, key) {
            let i = choose|i: int| 0 <= i < front.len() && #[trigger] front[i].0 == key;
            assert(pairs[i].0 == key);
        }
        if pairs.last().0 == key {
            assert(pairs[pairs.len() - 1].0 == key);
        }
        if has_key(pairs, key) {
            let i = choose|i: int| 0 <= i < pairs.len() && #[trigger] pairs[i].0 == key;
            if i < pairs.len() - 1 {
                assert(front[i].0 == key);
            }
        }
    }
}

/// Where no key occurs twice, the map gives each key the value listed with it.
pub proof fn lemma_to_map_value(pairs: Pairs, i: int)
    requires
        distinct_keys(pairs),
        0 <= i < pairs.len(),
    ensures
        to_map(pairs).contains_key(pairs[i].0),
        to_map(pairs)[pairs[i].0] == pairs[i].1,
    decreases pairs.len(),
{
    let front = pairs.drop_last();
    if i < pairs.len() - 1 {
        assert(distinct_keys(front)) by {
            assert forall|a: int, b: int| 0 <= a < b < front.len() implies front[a].0
                != front[b].0 by {
                assert(pairs[a].0 != pairs[b].0);
            }
        }
        lemma_to_map_value(front, i);
        assert(front[i] == pairs[i]);
        assert(pairs[i].0 != pairs[pairs.len() - 1].0);
    }
}

/// Where no key occurs twice, the map is finite and has as many keys as the
/// list has pairs.
pub proof fn lemma_to_map_len(pairs: Pairs)
    requires
        distinct_keys(pairs),
    ensures
        to_map(pairs).dom().finite(),
        to_map(pairs).len() == pairs.len(),
    decreases pairs.len(),
{
    if pairs.len() > 0 {
        let front = pairs.drop_last();
        assert(distinct_keys(front)) by {
            assert forall|a: int, b: int| 0 <= a < b < front.len() implies front[a].0
                != front[b].0 by {
                assert(pairs[a].0 != pairs[b].0);
            }
        }
        lemma_to_map_len(front);
        lemma_to_map_keys(front, pairs.last().0);
        if has_key(front, pairs.last().0) {
            let i = choose|i: int| 0 <= i < front.len() && #[trigger] front[i].0 == pairs.last().0;
            assert(pairs[i].0 != pairs[pairs.len() - 1].0);
        }
        assert(to_map(pairs).dom() =~= to_map(front).dom().insert(pairs.last().0));
    }
}

/// Appending a pair inserts it into the map.
pub proof fn lemma_to_map_push(pairs: Pairs, key: EntryKey, value: Seq<char>)
    ensures
        to_map(pairs.push((key, value))) == to_map(pairs).insert(key, value),
{
    assert(pairs.push((key, value)).drop_last() =~= pairs);
}

/// Where no key occurs twice, replacing the value listed with a key inserts
/// the new value into the map, and still no key occurs twice.
pub proof fn lemma_to_map_update(pairs: Pairs, i: int, value: Seq<char>)
    requires
        distinct_keys(pairs),
        0 <= i < pairs.len(),
    ensures
        distinct_keys(pairs.update(i, (pairs[i].0, value))),
        to_map(pairs.update(i, (pairs[i].0, value))) == to_map(pairs).insert(pairs[i].0, value),
{
    let key = pairs[i].0;
    let changed = pairs.update(i, (key, value));
    assert(distinct_keys(changed)) by {
        assert forall|a: int, b: int| 0 <= a < b < changed.len() implies changed[a].0
            != changed[b].0 by {
            assert(pairs[a].0 != pairs[b].0);
        }
    }
    assert forall|k: EntryKey|
        to_map(changed).contains_key(k) == to_map(pairs).insert(key, value).contains_key(
            k,
        ) by {
        lemma_to_map_keys(changed, k);
        lemma_to_map_keys(pairs, k);
        if has_key(changed, k) {
            let a = choose|a: int| 0 <= a < changed.len() && #[trigger] changed[a].0 == k;
            assert(pairs[a].0 == k);
        }
        if has_key(pairs, k) {
            let a = choose|a: int| 0 <= a < pairs.len() && #[trigger] pairs[a].0 == k;
            assert(changed[a].0 == k);
        }
        if k == key {
            assert(changed[i].0 == k);
        }
    }
    assert forall|k: EntryKey| to_map(changed).contains_key(k) implies to_map(changed)[k]
        == to_map(pairs).insert(key, value)[k] by {
        lemma_to_map_keys(changed, k);
        let a = choose|a: int| 0 <= a < changed.len() && #[trigger] changed[a].0 == k;
        lemma_to_map_value(changed, a);
        lemma_to_map_value(pairs, a);
    }
    assert(to_map(changed) =~= to_map(pairs).insert(key, value));
}

} // verus!
