//! One host block: the patterns of its `Host` line and its settings.
use super::entries::{
    distinct_keys, fill_if_absent, has_key, lemma_to_map_keys, lemma_to_map_len,
    lemma_to_map_push, lemma_to_map_update, lemma_to_map_value, overwrite, pairs_of, to_map,
};
use super::host_entry::{EntryKey, EntryType};
use super::pattern::{has_wildcard, matchers, regex_source_of, starts_negated};
use vstd::prelude::*;

verus! {

/// A key with its value.
pub type Entry = (EntryType, String);

/// What a [`Host`] stands for in contracts: its patterns in order, and its
/// settings as a map from keys to values.
pub struct HostView {
    pub patterns: Seq<Seq<char>>,
    pub entries: Map<EntryKey, Seq<char>>,
}

/// One section of a configuration file: the patterns of its `Host` line and the
/// settings below it. The section before the first `Host` line has no pattern.
#[derive(Debug)]
pub struct Host {
    patterns: Vec<String>,
    entries: Vec<(EntryType, String)>,
}

impl View for Host {
    type V = HostView;

    closed spec fn view(&self) -> HostView {
        HostView { patterns: self.patterns.deep_view(), entries: to_map(pairs_of(self.entries@)) }
    }
}

/// A copy of a list of strings.
fn clone_strings(strings: &Vec<String>) -> (copy: Vec<String>)
    ensures
        copy.deep_view() == strings.deep_view(),
{
    let mut copy: Vec<String> = Vec::new();
    let mut i: usize = 0;
    while i < strings.len()
        invariant
            i <= strings.len(),
            copy.len() == i,
            forall|j: int| 0 <= j < i ==> copy[j]@ == strings[j]@,
        decreases strings.len() - i,
    {
        copy.push(strings[i].clone());
        i += 1;
    }
    assert(copy.deep_view() =~= strings.deep_view());
    copy
}

impl Host {
    #[verifier::type_invariant]
    closed spec fn well_formed(&self) -> bool {
        distinct_keys(pairs_of(self.entries@))
    }

    /// A block with the given patterns and no settings.
    pub fn new(patterns: Vec<String>) -> (host: Host)
        ensures
            host@.patterns == patterns.deep_view(),
            host@.entries == Map::<EntryKey, Seq<char>>::empty(),
    {
        Host { patterns, entries: Vec::new() }
    }

    /// Where the key stands in the list of settings, if it does.
    fn position(&self, key: &EntryType) -> (found: Option<usize>)
        ensures
            match found {
                Some(i) => i < self.entries.len() && self.entries[i as int].0@ == key@,
                None => !self@.entries.contains_key(key@),
            },
    {
        let mut i: usize = 0;
        while i < self.entries.len()
            invariant
                i <= self.entries.len(),
                forall|j: int| 0 <= j < i ==> self.entries[j].0@ != key@,
            decreases self.entries.len() - i,
        {
            if self.entries[i].0.same_key(key) {
                return Some(i);
            }
            i += 1;
        }
        proof {
            let pairs = pairs_of(self.entries@);
            lemma_to_map_keys(pairs, key@);
            if has_key(pairs, key@) {
                let j = choose|j: int| 0 <= j < pairs.len() && #[trigger] pairs[j].0 == key@;
                assert(self.entries[j].0@ == key@);
            }
        }
        None
    }

    /// Sets a key to a value, in place of the value that the key had.
    pub fn update(&mut self, entry: Entry)
        ensures
            final(self)@.patterns == old(self)@.patterns,
            final(self)@.entries == old(self)@.entries.insert(entry.0@, entry.1@),
    {
        proof {
            use_type_invariant(&*self);
        }
        let ghost before = pairs_of(self.entries@);
        let ghost key = entry.0@;
        let ghost value = entry.1@;
        let found = self.position(&entry.0);
        let mut entries: Vec<(EntryType, String)> = Vec::new();
        std::mem::swap(&mut self.entries, &mut entries);
        match found {
            Some(i) => {
                entries.set(i, entry);
                proof {
                    lemma_to_map_update(before, i as int, value);
                    assert(pairs_of(entries@) =~= before.update(i as int, (key, value)));
                }
            },
            None => {
                entries.push(entry);
                proof {
                    lemma_to_map_push(before, key, value);
                    assert(pairs_of(entries@) =~= before.push((key, value)));
                    assert forall|a: int, b: int|
                        0 <= a < b < before.len() + 1 implies before.push((key, value))[a].0
                        != before.push((key, value))[b].0 by {
                        lemma_to_map_keys(before, key);
                        if b == before.len() {
                            assert(before[a].0 != key);
                        }
                    }
                }
            },
        }
        self.entries = entries;
    }

    /// The patterns of the block's `Host` line, in order.
    pub fn get_patterns(&self) -> (patterns: &Vec<String>)
        ensures
            patterns.deep_view() == self@.patterns,
    {
        &self.patterns
    }

    /// The value of a key, if the block sets it.
    pub fn get(&self, entry: &EntryType) -> (value: Option<String>)
        ensures
            match value {
                Some(text) => self@.entries.contains_key(entry@) && text@ == self@.entries[entry@],
                None => !self@.entries.contains_key(entry@),
            },
    {
        proof {
            use_type_invariant(self);
        }
        match self.position(entry) {
            Some(i) => {
                proof {
                    lemma_to_map_value(pairs_of(self.entries@), i as int);
                }
                Some(self.entries[i].1.clone())
            },
            None => None,
        }
    }

    /// Whether the block sets the key.
    pub fn contains(&self, entry: &EntryType) -> (found: bool)
        ensures
            found == self@.entries.contains_key(entry@),
    {
        proof {
            use_type_invariant(self);
        }
        match self.position(entry) {
            Some(i) => {
                proof {
                    lemma_to_map_value(pairs_of(self.entries@), i as int);
                }
                true
            },
            None => false,
        }
    }

    /// How many keys the block sets.
    pub fn entry_count(&self) -> (count: usize)
        ensures
            self@.entries.dom().finite(),
            count == self@.entries.len(),
    {
        proof {
            use_type_invariant(self);
            lemma_to_map_len(pairs_of(self.entries@));
        }
        self.entries.len()
    }

    /// Whether the block sets no key at all.
    pub fn is_empty(&self) -> (empty: bool)
        ensures
            empty == (self@.entries.len() == 0),
            empty == (self@.entries == Map::<EntryKey, Seq<char>>::empty()),
    {
        proof {
            use_type_invariant(self);
            lemma_to_map_len(pairs_of(self.entries@));
            if self.entries.len() == 0 {
                assert(self@.entries =~= Map::<EntryKey, Seq<char>>::empty());
            } else {
                lemma_to_map_value(pairs_of(self.entries@), 0);
            }
        }
        self.entries.len() == 0
    }

    /// A block with the given patterns and the settings of this one.
    pub fn with_patterns(&self, patterns: Vec<String>) -> (host: Host)
        ensures
            host@.patterns == patterns.deep_view(),
            host@.entries == self@.entries,
    {
        let copy = self.clone();
        proof {
            use_type_invariant(&copy);
        }
        Host { patterns, entries: copy.entries }
    }

    /// The wildcards among the block's patterns, each as the text of its
    /// regular expression and whether it is negated.
    pub fn matching_pattern_regexes(&self) -> (found: Vec<(String, bool)>)
        ensures
            found.len() == matchers(self@.patterns).len(),
            forall|i: int|
                0 <= i < found.len() ==> (#[trigger] found[i]).0@ == matchers(
                    self@.patterns,
                )[i].0 && found[i].1 == matchers(self@.patterns)[i].1,
    {
        let mut found: Vec<(String, bool)> = Vec::new();
        let ghost patterns = self@.patterns;
        let mut i: usize = 0;
        while i < self.patterns.len()
            invariant
                i <= self.patterns.len(),
                patterns == self.patterns.deep_view(),
                found.len() == matchers(patterns.take(i as int)).len(),
                forall|j: int|
                    0 <= j < found.len() ==> (#[trigger] found[j]).0@ == matchers(
                        patterns.take(i as int),
                    )[j].0 && found[j].1 == matchers(patterns.take(i as int))[j].1,
            decreases self.patterns.len() - i,
        {
            proof {
                assert(patterns.take(i + 1).drop_last() =~= patterns.take(i as int));
                assert(patterns.take(i + 1).last() == self.patterns[i as int]@);
            }
            let pattern = self.patterns[i].as_str();
            if has_wildcard(pattern) {
                found.push((regex_source_of(pattern), starts_negated(pattern)));
            }
            i += 1;
        }
        assert(patterns.take(i as int) =~= patterns);
        found
    }

    /// Appends the patterns of `host` to the patterns of this block.
    pub fn extend_patterns(&mut self, host: &Host)
        ensures
            final(self)@.patterns == old(self)@.patterns + host@.patterns,
            final(self)@.entries == old(self)@.entries,
    {
        proof {
            use_type_invariant(&*self);
        }
        let mut patterns: Vec<String> = Vec::new();
        std::mem::swap(&mut self.patterns, &mut patterns);
        let ghost before = patterns.deep_view();
        let mut i: usize = 0;
        while i < host.patterns.len()
            invariant
                i <= host.patterns.len(),
                patterns.deep_view() == before + host.patterns.deep_view().take(i as int),
            decreases host.patterns.len() - i,
        {
            let ghost shorter = patterns.deep_view();
            patterns.push(host.patterns[i].clone());
            assert(patterns.deep_view() =~= shorter.push(host.patterns[i as int]@));
            assert(host.patterns.deep_view().take(i + 1) =~= host.patterns.deep_view().take(
                i as int,
            ).push(host.patterns[i as int]@));
            i += 1;
        }
        assert(host.patterns.deep_view().take(i as int) =~= host.patterns.deep_view());
        self.patterns = patterns;
    }

    /// Takes over every setting of `host`, in place of what this block had
    /// for the same key.
    pub fn extend_entries(&mut self, host: &Host)
        ensures
            final(self)@.patterns == old(self)@.patterns,
            final(self)@.entries == overwrite(old(self)@.entries, host@.entries),
    {
        let ghost donor = pairs_of(host.entries@);
        let mut i: usize = 0;
        assert(self@.entries =~= overwrite(old(self)@.entries, to_map(donor.take(0))));
        while i < host.entries.len()
            invariant
                i <= host.entries.len(),
                donor == pairs_of(host.entries@),
                self@.patterns == old(self)@.patterns,
                self@.entries == overwrite(old(self)@.entries, to_map(donor.take(i as int))),
            decreases host.entries.len() - i,
        {
            let key = host.entries[i].0.clone();
            let value = host.entries[i].1.clone();
            proof {
                assert(donor.take(i + 1).drop_last() =~= donor.take(i as int));
                assert(overwrite(old(self)@.entries, to_map(donor.take(i + 1))) =~= overwrite(
                    old(self)@.entries,
                    to_map(donor.take(i as int)),
                ).insert(key@, value@));
            }
            self.update((key, value));
            i += 1;
        }
        assert(donor.take(i as int) =~= donor);
    }

    /// Takes over the settings of `host` for the keys that this block does
    /// not set; what this block sets stays as it is.
    pub fn extend_if_not_contained(&mut self, host: &Host)
        ensures
            final(self)@.patterns == old(self)@.patterns,
            final(self)@.entries == fill_if_absent(old(self)@.entries, host@.entries),
    {
        proof {
            use_type_invariant(host);
        }
        let ghost donor = pairs_of(host.entries@);
        let mut i: usize = 0;
        assert(self@.entries =~= fill_if_absent(old(self)@.entries, to_map(donor.take(0))));
        while i < host.entries.len()
            invariant
                i <= host.entries.len(),
                donor == pairs_of(host.entries@),
                distinct_keys(donor),
                self@.patterns == old(self)@.patterns,
                self@.entries == fill_if_absent(
                    old(self)@.entries,
                    to_map(donor.take(i as int)),
                ),
            decreases host.entries.len() - i,
        {
            proof {
                assert(donor.take(i + 1).drop_last() =~= donor.take(i as int));
                lemma_to_map_keys(donor.take(i as int), donor[i as int].0);
                if has_key(donor.take(i as int), donor[i as int].0) {
                    let j = choose|j: int|
                        0 <= j < donor.take(i as int).len() && #[trigger] donor.take(
                            i as int,
                        )[j].0 == donor[i as int].0;
                    assert(donor[j].0 != donor[i as int].0);
                }
            }
            if !self.contains(&host.entries[i].0) {
                let key = host.entries[i].0.clone();
                let value = host.entries[i].1.clone();
                proof {
                    assert(fill_if_absent(old(self)@.entries, to_map(donor.take(i + 1)))
                        =~= fill_if_absent(
                        old(self)@.entries,
                        to_map(donor.take(i as int)),
                    ).insert(key@, value@));
                }
                self.update((key, value));
            } else {
                proof {
                    assert(fill_if_absent(old(self)@.entries, to_map(donor.take(i + 1)))
                        =~= fill_if_absent(old(self)@.entries, to_map(donor.take(i as int))));
                }
            }
            i += 1;
        }
        assert(donor.take(i as int) =~= donor);
    }

    /// Whether every setting of this block is a setting of `host`, with the
    /// same value.
    fn entries_within(&self, host: &Host) -> (within: bool)
        ensures
            within == (forall|key: EntryKey| #[trigger]
                self@.entries.contains_key(key) ==> host@.entries.contains_key(key)
                    && host@.entries[key] == self@.entries[key]),
    {
        proof {
            use_type_invariant(self);
            use_type_invariant(host);
        }
        let ghost pairs = pairs_of(self.entries@);
        let mut i: usize = 0;
        while i < self.entries.len()
            invariant
                i <= self.entries.len(),
                pairs == pairs_of(self.entries@),
                distinct_keys(pairs),
                forall|j: int|
                    0 <= j < i ==> host@.entries.contains_key(#[trigger] pairs[j].0)
                        && host@.entries[pairs[j].0] == pairs[j].1,
            decreases self.entries.len() - i,
        {
            proof {
                lemma_to_map_value(pairs, i as int);
            }
            let ghost key = pairs[i as int].0;
            assert(self@.entries.contains_key(key) && self@.entries[key] == pairs[i as int].1);
            match host.get(&self.entries[i].0) {
                Some(value) => {
                    if value != self.entries[i].1 {
                        assert(host@.entries[key] != self@.entries[key]);
                        return false;
                    }
                },
                None => {
                    assert(!host@.entries.contains_key(key));
                    return false;
                },
            }
            i += 1;
        }
        proof {
            assert forall|key: EntryKey| #[trigger]
                self@.entries.contains_key(key) implies host@.entries.contains_key(key)
                && host@.entries[key] == self@.entries[key] by {
                lemma_to_map_keys(pairs, key);
                let j = choose|j: int| 0 <= j < pairs.len() && #[trigger] pairs[j].0 == key;
                lemma_to_map_value(pairs, j);
            }
        }
        true
    }

    /// Whether two blocks have the same settings: the same keys, each with
    /// the same value.
    pub fn same_entries(&self, host: &Host) -> (same: bool)
        ensures
            same == (self@.entries == host@.entries),
    {
        let same = self.entries_within(host) && host.entries_within(self);
        proof {
            if same {
                assert(self@.entries =~= host@.entries);
            }
        }
        same
    }
}

impl Clone for Host {
    fn clone(&self) -> (copy: Host)
        ensures
            copy@ == self@,
    {
        proof {
            use_type_invariant(self);
        }
        let mut entries: Vec<(EntryType, String)> = Vec::new();
        let mut i: usize = 0;
        while i < self.entries.len()
            invariant
                i <= self.entries.len(),
                pairs_of(entries@) == pairs_of(self.entries@).take(i as int),
            decreases self.entries.len() - i,
        {
            let ghost shorter = pairs_of(entries@);
            let key = self.entries[i].0.clone();
            let value = self.entries[i].1.clone();
            entries.push((key, value));
            assert(pairs_of(entries@) =~= shorter.push((key@, value@)));
            assert(pairs_of(self.entries@).take(i + 1) =~= pairs_of(self.entries@).take(
                i as int,
            ).push((key@, value@)));
            i += 1;
        }
        assert(pairs_of(self.entries@).take(i as int) =~= pairs_of(self.entries@));
        Host { patterns: clone_strings(&self.patterns), entries }
    }
}

} // verus!
