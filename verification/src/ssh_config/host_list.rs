//! The steps that resolve a list of host blocks: spreading blocks over their
//! patterns, applying wildcard blocks to named hosts, giving each host a
//! destination, and merging hosts with the same settings.
use super::entries::fill_if_absent;
use super::host::{Host, HostView};
use super::host_entry::{EntryKey, EntryType};
use super::pattern::{
    has_wildcard, is_wildcard, pattern_applies, regex_compiles, regex_source, wildcard_applies,
    wildcard_compiles,
};
use vstd::prelude::*;

verus! {

/// The blocks that one block spreads into: one for each of its patterns, with
/// that pattern alone and the block's settings. A block without patterns
/// stays as it is.
pub open spec fn spread_block(block: HostView) -> Seq<HostView> {
    if block.patterns.len() == 0 {
        seq![block]
    } else {
        Seq::new(
            block.patterns.len(),
            |i: int| HostView { patterns: seq![block.patterns[i]], entries: block.entries },
        )
    }
}

/// The blocks of a list, each spread, in the order of the list.
pub open spec fn spread_blocks(blocks: Seq<HostView>) -> Seq<HostView>
    decreases blocks.len(),
{
    if blocks.len() == 0 {
        Seq::empty()
    } else {
        spread_blocks(blocks.drop_last()) + spread_block(blocks.last())
    }
}

/// A block whose first pattern is a wildcard. Among spread blocks these are
/// the blocks that configure other hosts and are no hosts themselves.
pub open spec fn is_pattern_block(block: HostView) -> bool {
    block.patterns.len() > 0 && is_wildcard(block.patterns[0])
}

/// Whether a list holds a pattern block.
pub open spec fn has_pattern_block(blocks: Seq<HostView>) -> bool {
    exists|i: int| 0 <= i < blocks.len() && is_pattern_block(#[trigger] blocks[i])
}

/// What applying patterns asks of spread blocks: the regular expression of
/// every pattern block is one that the `regex` crate accepts, and if there is
/// a pattern block at all, every block has a pattern to go by.
pub open spec fn patterns_usable(blocks: Seq<HostView>) -> bool {
    &&& forall|i: int|
        0 <= i < blocks.len() && is_pattern_block(#[trigger] blocks[i]) ==> regex_compiles(
            regex_source(blocks[i].patterns[0]),
        )
    &&& has_pattern_block(blocks) ==> forall|i: int|
        0 <= i < blocks.len() ==> (#[trigger] blocks[i]).patterns.len() > 0
}

/// The settings of a host named `name` once the pattern blocks among `blocks`
/// have been applied in order: each one that applies fills in the keys that
/// are still unset.
pub open spec fn filled_from(
    entries: Map<EntryKey, Seq<char>>,
    name: Seq<char>,
    blocks: Seq<HostView>,
) -> Map<EntryKey, Seq<char>>
    decreases blocks.len(),
{
    if blocks.len() == 0 {
        entries
    } else {
        let so_far = filled_from(entries, name, blocks.drop_last());
        let block = blocks.last();
        if is_pattern_block(block) && pattern_applies(block.patterns[0], name) {
            fill_if_absent(so_far, block.entries)
        } else {
            so_far
        }
    }
}

/// A named host with the pattern blocks among `blocks` applied to it.
pub open spec fn with_patterns_applied(host: HostView, blocks: Seq<HostView>) -> HostView {
    HostView {
        patterns: host.patterns,
        entries: filled_from(host.entries, host.patterns[0], blocks),
    }
}

/// The named hosts among the first `count` of `blocks`, in order, each with
/// the pattern blocks among all of `blocks` applied to it.
pub open spec fn named_hosts(blocks: Seq<HostView>, count: int) -> Seq<HostView>
    decreases count,
{
    if count <= 0 {
        Seq::empty()
    } else {
        let before = named_hosts(blocks, count - 1);
        let block = blocks[count - 1];
        if is_pattern_block(block) {
            before
        } else {
            before.push(with_patterns_applied(block, blocks))
        }
    }
}

/// The result of applying patterns: the blocks are spread, every pattern
/// block is applied to every named host, and the named hosts remain.
pub open spec fn apply_patterns_to(blocks: Seq<HostView>) -> Seq<HostView> {
    named_hosts(spread_blocks(blocks), spread_blocks(blocks).len() as int)
}

/// A block whose destination falls back to its own first pattern where no
/// `Hostname` is set.
pub open spec fn with_default_hostname(block: HostView) -> HostView {
    if block.entries.contains_key(EntryType::Hostname@) {
        block
    } else {
        HostView {
            patterns: block.patterns,
            entries: block.entries.insert(EntryType::Hostname@, block.patterns[0]),
        }
    }
}

/// Every block of the list with [`with_default_hostname`] applied.
pub open spec fn default_hostnames(blocks: Seq<HostView>) -> Seq<HostView> {
    Seq::new(blocks.len(), |i: int| with_default_hostname(blocks[i]))
}

/// Every block that sets no `Hostname` has a pattern to take its place.
pub open spec fn can_default_hostnames(blocks: Seq<HostView>) -> bool {
    forall|i: int|
        0 <= i < blocks.len() && !(#[trigger] blocks[i]).entries.contains_key(
            EntryType::Hostname@,
        ) ==> blocks[i].patterns.len() > 0
}

/// The place of the first row that has the settings `entries`; the number of
/// rows if none has them.
pub open spec fn row_of(rows: Seq<HostView>, entries: Map<EntryKey, Seq<char>>) -> int
    decreases rows.len(),
{
    if rows.len() == 0 {
        0
    } else if rows[0].entries == entries {
        0
    } else {
        1 + row_of(rows.drop_first(), entries)
    }
}

/// The rows after one more block: the first row with the block's settings
/// takes the block's patterns behind its own, or, if there is no such row,
/// the block becomes a new last row.
pub open spec fn absorb(rows: Seq<HostView>, block: HostView) -> Seq<HostView> {
    let row = row_of(rows, block.entries);
    if row < rows.len() {
        rows.update(
            row,
            HostView {
                patterns: rows[row].patterns + block.patterns,
                entries: rows[row].entries,
            },
        )
    } else {
        rows.push(block)
    }
}

/// The blocks of a list merged: one row for each distinct set of settings, at
/// the place of the first block that has them, with the patterns of all
/// blocks that have them, in the order of the list.
pub open spec fn merge_blocks(blocks: Seq<HostView>) -> Seq<HostView>
    decreases blocks.len(),
{
    if blocks.len() == 0 {
        Seq::empty()
    } else {
        absorb(merge_blocks(blocks.drop_last()), blocks.last())
    }
}

/// No two rows have the same settings.
pub open spec fn distinct_entries(rows: Seq<HostView>) -> bool {
    forall|i: int, j: int| 0 <= i < j < rows.len() ==> rows[i].entries != rows[j].entries
}

/// [`row_of`] gives the least place whose row has the settings.
pub proof fn lemma_row_of(rows: Seq<HostView>, entries: Map<EntryKey, Seq<char>>)
    ensures
        0 <= row_of(rows, entries) <= rows.len(),
        row_of(rows, entries) < rows.len() ==> rows[row_of(rows, entries)].entries == entries,
        forall|i: int| 0 <= i < row_of(rows, entries) ==> (#[trigger] rows[i]).entries != entries,
    decreases rows.len(),
{
    if rows.len() > 0 && rows[0].entries != entries {
        let rest = rows.drop_first();
        lemma_row_of(rest, entries);
        assert forall|i: int| 0 <= i < row_of(rows, entries) implies (#[trigger] rows[i]).entries
            != entries by {
            if i > 0 {
                assert(rest[i - 1] == rows[i]);
            }
        }
    }
}

/// A place before which no row has the settings, and which is the end of the
/// rows or a row that has them, is the place that [`row_of`] gives.
pub proof fn lemma_row_of_is(rows: Seq<HostView>, entries: Map<EntryKey, Seq<char>>, place: int)
    requires
        0 <= place <= rows.len(),
        forall|i: int| 0 <= i < place ==> (#[trigger] rows[i]).entries != entries,
        place < rows.len() ==> rows[place].entries == entries,
    ensures
        row_of(rows, entries) == place,
{
    lemma_row_of(rows, entries);
    let found = row_of(rows, entries);
    if found < place {
        assert(rows[found].entries != entries);
    }
    if place < found {
        assert(rows[place].entries != entries);
    }
}

/// The patterns of all blocks of a list, in order.
pub open spec fn all_patterns(blocks: Seq<HostView>) -> Seq<Seq<char>>
    decreases blocks.len(),
{
    if blocks.len() == 0 {
        Seq::empty()
    } else {
        all_patterns(blocks.drop_last()) + blocks.last().patterns
    }
}

/// The patterns of two lists, one behind the other, are the patterns of the
/// first behind those of the second.
pub proof fn lemma_all_patterns_concat(first: Seq<HostView>, second: Seq<HostView>)
    ensures
        all_patterns(first + second) == all_patterns(first) + all_patterns(second),
    decreases second.len(),
{
    if second.len() == 0 {
        assert(first + second =~= first);
        assert(all_patterns(first) + all_patterns(second) =~= all_patterns(first));
    } else {
        lemma_all_patterns_concat(first, second.drop_last());
        assert((first + second).drop_last() =~= first + second.drop_last());
        assert(all_patterns(first + second) =~= all_patterns(first) + all_patterns(second));
    }
}

/// Spreading one block that has patterns gives one block for each pattern, in
/// order, each with that pattern alone and with the block's settings.
pub proof fn lemma_spread_block(block: HostView)
    requires
        block.patterns.len() > 0,
    ensures
        spread_block(block).len() == block.patterns.len(),
        forall|i: int|
            0 <= i < block.patterns.len() ==> (#[trigger] spread_block(block)[i]).patterns
                == seq![block.patterns[i]] && spread_block(block)[i].entries == block.entries,
        all_patterns(spread_block(block)) == block.patterns,
{
    lemma_spread_block_patterns(block, block.patterns.len() as int);
    assert(spread_block(block).take(block.patterns.len() as int) =~= spread_block(block));
    assert(block.patterns.take(block.patterns.len() as int) =~= block.patterns);
}

/// The patterns of the first `count` blocks that a block spreads into are the
/// block's first `count` patterns.
proof fn lemma_spread_block_patterns(block: HostView, count: int)
    requires
        0 <= count <= block.patterns.len(),
        block.patterns.len() > 0,
    ensures
        all_patterns(spread_block(block).take(count)) == block.patterns.take(count),
    decreases count,
{
    let spread = spread_block(block);
    if count == 0 {
        assert(spread.take(0) =~= Seq::<HostView>::empty());
        assert(block.patterns.take(0) =~= Seq::<Seq<char>>::empty());
    } else {
        lemma_spread_block_patterns(block, count - 1);
        assert(spread.take(count).drop_last() =~= spread.take(count - 1));
        assert(spread.take(count).last().patterns == seq![block.patterns[count - 1]]);
        assert(block.patterns.take(count) =~= block.patterns.take(count - 1) + seq![
            block.patterns[count - 1],
        ]);
    }
}

/// Spreading keeps the patterns of the list, in their order; and where every
/// block has a pattern, every block that comes out has exactly one.
pub proof fn lemma_spread_patterns(blocks: Seq<HostView>)
    ensures
        all_patterns(spread_blocks(blocks)) == all_patterns(blocks),
        (forall|i: int| 0 <= i < blocks.len() ==> (#[trigger] blocks[i]).patterns.len() > 0)
            ==> forall|k: int|
            0 <= k < spread_blocks(blocks).len() ==> (#[trigger] spread_blocks(
                blocks,
            )[k]).patterns.len() == 1,
    decreases blocks.len(),
{
    if blocks.len() > 0 {
        let front = blocks.drop_last();
        let last = blocks.last();
        lemma_spread_patterns(front);
        lemma_all_patterns_concat(spread_blocks(front), spread_block(last));
        if last.patterns.len() > 0 {
            lemma_spread_block(last);
        } else {
            let single = spread_block(last);
            assert(single.drop_last() =~= Seq::<HostView>::empty());
            assert(all_patterns(single.drop_last()) =~= Seq::<Seq<char>>::empty());
            assert(single.last() == last);
            assert(all_patterns(single) =~= last.patterns);
        }
        if forall|i: int| 0 <= i < blocks.len() ==> (#[trigger] blocks[i]).patterns.len() > 0 {
            assert forall|i: int| 0 <= i < front.len() implies (#[trigger] front[i]).patterns.len()
                > 0 by {
                assert(front[i] == blocks[i]);
            }
            assert(blocks[blocks.len() - 1].patterns.len() > 0);
            assert forall|k: int| 0 <= k < spread_blocks(blocks).len() implies (
            #[trigger] spread_blocks(blocks)[k]).patterns.len() == 1 by {
                if k < spread_blocks(front).len() {
                    assert(spread_blocks(blocks)[k] == spread_blocks(front)[k]);
                } else {
                    assert(spread_blocks(blocks)[k] == spread_block(last)[k - spread_blocks(
                        front,
                    ).len()]);
                }
            }
        }
    }
}

/// Filling never changes what the receiver sets, fills in every key that
/// only the donor sets, and sets no other key.
pub proof fn lemma_fill_if_absent(
    receiver: Map<EntryKey, Seq<char>>,
    donor: Map<EntryKey, Seq<char>>,
    key: EntryKey,
)
    ensures
        fill_if_absent(receiver, donor).contains_key(key) <==> receiver.contains_key(key)
            || donor.contains_key(key),
        receiver.contains_key(key) ==> fill_if_absent(receiver, donor)[key] == receiver[key],
        !receiver.contains_key(key) && donor.contains_key(key) ==> fill_if_absent(
            receiver,
            donor,
        )[key] == donor[key],
{
}

/// Applying pattern blocks never changes a setting that the host has itself.
pub proof fn lemma_patterns_never_override(
    entries: Map<EntryKey, Seq<char>>,
    name: Seq<char>,
    blocks: Seq<HostView>,
    key: EntryKey,
)
    requires
        entries.contains_key(key),
    ensures
        filled_from(entries, name, blocks).contains_key(key),
        filled_from(entries, name, blocks)[key] == entries[key],
    decreases blocks.len(),
{
    if blocks.len() > 0 {
        lemma_patterns_never_override(entries, name, blocks.drop_last(), key);
    }
}

/// Whether the block at `place` is a pattern block that applies to the name
/// and sets the key.
pub open spec fn supplies(blocks: Seq<HostView>, place: int, name: Seq<char>, key: EntryKey) -> bool {
    &&& 0 <= place < blocks.len()
    &&& is_pattern_block(blocks[place])
    &&& pattern_applies(blocks[place].patterns[0], name)
    &&& blocks[place].entries.contains_key(key)
}

/// Applying pattern blocks fills in a setting that the host lacks from the
/// first pattern block that applies to the host and has the setting.
pub proof fn lemma_patterns_fill_in(
    entries: Map<EntryKey, Seq<char>>,
    name: Seq<char>,
    blocks: Seq<HostView>,
    place: int,
    key: EntryKey,
)
    requires
        !entries.contains_key(key),
        supplies(blocks, place, name, key),
        forall|earlier: int| 0 <= earlier < place ==> !supplies(blocks, earlier, name, key),
    ensures
        filled_from(entries, name, blocks).contains_key(key),
        filled_from(entries, name, blocks)[key] == blocks[place].entries[key],
    decreases blocks.len(),
{
    let front = blocks.drop_last();
    if place < blocks.len() - 1 {
        assert(supplies(front, place, name, key));
        assert forall|earlier: int| 0 <= earlier < place implies !supplies(
            front,
            earlier,
            name,
            key,
        ) by {
            assert(!supplies(blocks, earlier, name, key));
        }
        lemma_patterns_fill_in(entries, name, front, place, key);
    } else {
        assert forall|earlier: int| 0 <= earlier < front.len() implies !supplies(
            front,
            earlier,
            name,
            key,
        ) by {
            assert(!supplies(blocks, earlier, name, key));
        }
        lemma_patterns_leave_unset(entries, name, front, key);
    }
}

/// Where no pattern block applies to the host and has the setting, and the
/// host lacks it, the setting stays unset.
pub proof fn lemma_patterns_leave_unset(
    entries: Map<EntryKey, Seq<char>>,
    name: Seq<char>,
    blocks: Seq<HostView>,
    key: EntryKey,
)
    requires
        !entries.contains_key(key),
        forall|place: int| 0 <= place < blocks.len() ==> !supplies(blocks, place, name, key),
    ensures
        !filled_from(entries, name, blocks).contains_key(key),
    decreases blocks.len(),
{
    if blocks.len() > 0 {
        let front = blocks.drop_last();
        assert forall|place: int| 0 <= place < front.len() implies !supplies(
            front,
            place,
            name,
            key,
        ) by {
            assert(!supplies(blocks, place, name, key));
        }
        lemma_patterns_leave_unset(entries, name, front, key);
        assert(!supplies(blocks, blocks.len() - 1, name, key));
    }
}

/// A block that sets no `Hostname` gets its own first pattern as `Hostname`;
/// a block that sets one stays as it is.
pub proof fn lemma_default_hostname(block: HostView)
    ensures
        with_default_hostname(block).patterns == block.patterns,
        with_default_hostname(block).entries.contains_key(EntryType::Hostname@),
        block.entries.contains_key(EntryType::Hostname@) ==> with_default_hostname(block)
            == block,
        !block.entries.contains_key(EntryType::Hostname@) ==> with_default_hostname(
            block,
        ).entries[EntryType::Hostname@] == block.patterns[0],
{
}

/// Taking in one more block keeps the rows distinct in their settings.
pub proof fn lemma_absorb_distinct(rows: Seq<HostView>, block: HostView)
    requires
        distinct_entries(rows),
    ensures
        distinct_entries(absorb(rows, block)),
{
    lemma_row_of(rows, block.entries);
    let after = absorb(rows, block);
    assert forall|i: int, j: int| 0 <= i < j < after.len() implies after[i].entries
        != after[j].entries by {
        if row_of(rows, block.entries) < rows.len() {
            assert(rows[i].entries != rows[j].entries);
        } else if j < rows.len() {
            assert(rows[i].entries != rows[j].entries);
        } else {
            assert(rows[i].entries != block.entries);
        }
    }
}

/// No two merged blocks have the same settings.
pub proof fn lemma_merge_distinct(blocks: Seq<HostView>)
    ensures
        distinct_entries(merge_blocks(blocks)),
    decreases blocks.len(),
{
    if blocks.len() > 0 {
        lemma_merge_distinct(blocks.drop_last());
        lemma_absorb_distinct(merge_blocks(blocks.drop_last()), blocks.last());
    }
}

/// Merging changes nothing in a list in which no two blocks have the same
/// settings.
pub proof fn lemma_merge_of_distinct(blocks: Seq<HostView>)
    requires
        distinct_entries(blocks),
    ensures
        merge_blocks(blocks) == blocks,
    decreases blocks.len(),
{
    if blocks.len() > 0 {
        let front = blocks.drop_last();
        let last = blocks.last();
        assert forall|i: int, j: int| 0 <= i < j < front.len() implies front[i].entries
            != front[j].entries by {
            assert(blocks[i].entries != blocks[j].entries);
        }
        lemma_merge_of_distinct(front);
        assert forall|i: int| 0 <= i < front.len() implies (#[trigger] front[i]).entries
            != last.entries by {
            assert(blocks[i].entries != blocks[blocks.len() - 1].entries);
        }
        lemma_row_of_is(front, last.entries, front.len() as int);
        assert(front.push(last) =~= blocks);
    }
}

/// Merging is idempotent: merging what has been merged changes nothing.
pub proof fn lemma_merge_idempotent(blocks: Seq<HostView>)
    ensures
        merge_blocks(merge_blocks(blocks)) == merge_blocks(blocks),
{
    lemma_merge_distinct(blocks);
    lemma_merge_of_distinct(merge_blocks(blocks));
}

/// Computes [`is_pattern_block`].
pub fn is_pattern_host(host: &Host) -> (wildcard: bool)
    ensures
        wildcard == is_pattern_block(host@),
{
    let patterns = host.get_patterns();
    patterns.len() > 0 && has_wildcard(patterns[0].as_str())
}

/// Transformations of a list of host blocks.
pub trait HostVecExt: Sized {
    /// The blocks of the list, in order.
    spec fn blocks(&self) -> Seq<HostView>;

    /// Gives every block that sets no `Hostname` its own first pattern as
    /// `Hostname`.
    fn apply_name_to_empty_hostname(&self) -> (hosts: Self)
        requires
            can_default_hostnames(self.blocks()),
        ensures
            hosts.blocks() == default_hostnames(self.blocks()),
    ;

    /// Merges the blocks that have the same settings into one block each.
    fn merge_same_hosts(&self) -> (hosts: Self)
        ensures
            hosts.blocks() == merge_blocks(self.blocks()),
    ;

    /// Spreads the blocks that have several patterns into one block for each
    /// pattern.
    fn spread(&self) -> (hosts: Self)
        ensures
            hosts.blocks() == spread_blocks(self.blocks()),
    ;

    /// Applies the settings of the pattern blocks to the named hosts that
    /// they match, and removes the pattern blocks.
    fn apply_patterns(&self) -> (hosts: Self)
        requires
            patterns_usable(spread_blocks(self.blocks())),
        ensures
            hosts.blocks() == apply_patterns_to(self.blocks()),
    ;

    /// Whether [`HostVecExt::apply_patterns`] can be used on the list.
    fn can_apply_patterns(&self) -> (usable: bool)
        ensures
            usable == patterns_usable(spread_blocks(self.blocks())),
    ;

    /// Whether [`HostVecExt::apply_name_to_empty_hostname`] can be used on
    /// the list.
    fn can_apply_name_to_empty_hostname(&self) -> (usable: bool)
        ensures
            usable == can_default_hostnames(self.blocks()),
    ;
}

impl HostVecExt for Vec<Host> {
    open spec fn blocks(&self) -> Seq<HostView> {
        Seq::new(self@.len(), |i: int| self@[i]@)
    }

    fn apply_name_to_empty_hostname(&self) -> (hosts: Vec<Host>) {
        let mut hosts: Vec<Host> = Vec::new();
        let mut i: usize = 0;
        while i < self.len()
            invariant
                i <= self.len(),
                can_default_hostnames(self.blocks()),
                hosts.len() == i,
                forall|j: int| 0 <= j < i ==> hosts[j]@ == with_default_hostname(self[j]@),
            decreases self.len() - i,
        {
            let mut host = self[i].clone();
            assert(self.blocks()[i as int] == self[i as int]@);
            if !host.contains(&EntryType::Hostname) {
                let name = host.get_patterns()[0].clone();
                host.update((EntryType::Hostname, name));
            }
            hosts.push(host);
            i += 1;
        }
        assert(hosts.blocks() =~= default_hostnames(self.blocks()));
        hosts
    }

    fn merge_same_hosts(&self) -> (hosts: Vec<Host>) {
        let mut rows: Vec<Host> = Vec::new();
        let mut i: usize = 0;
        assert(self.blocks().take(0) =~= Seq::<HostView>::empty());
        assert(rows.blocks() =~= Seq::<HostView>::empty());
        while i < self.len()
            invariant
                i <= self.len(),
                rows.blocks() == merge_blocks(self.blocks().take(i as int)),
            decreases self.len() - i,
        {
            let host = &self[i];
            let ghost before = rows.blocks();
            proof {
                assert(self.blocks().take(i + 1).drop_last() =~= self.blocks().take(i as int));
                assert(self.blocks().take(i + 1).last() == host@);
            }
            let mut row: usize = 0;
            while row < rows.len() && !rows[row].same_entries(host)
                invariant
                    row <= rows.len(),
                    before == rows.blocks(),
                    forall|j: int| 0 <= j < row ==> (#[trigger] before[j]).entries != host@.entries,
                decreases rows.len() - row,
            {
                assert(before[row as int] == rows[row as int]@);
                row += 1;
            }
            proof {
                if row < rows.len() {
                    assert(before[row as int] == rows[row as int]@);
                }
                lemma_row_of_is(before, host@.entries, row as int);
            }
            if row < rows.len() {
                let mut merged = rows[row].clone();
                merged.extend_patterns(host);
                rows.set(row, merged);
                assert(rows.blocks() =~= absorb(before, host@));
            } else {
                rows.push(host.clone());
                assert(rows.blocks() =~= absorb(before, host@));
            }
            i += 1;
        }
        assert(self.blocks().take(i as int) =~= self.blocks());
        rows
    }

    fn spread(&self) -> (hosts: Vec<Host>) {
        let mut hosts: Vec<Host> = Vec::new();
        let mut i: usize = 0;
        assert(self.blocks().take(0) =~= Seq::<HostView>::empty());
        assert(hosts.blocks() =~= Seq::<HostView>::empty());
        while i < self.len()
            invariant
                i <= self.len(),
                hosts.blocks() == spread_blocks(self.blocks().take(i as int)),
            decreases self.len() - i,
        {
            let host = &self[i];
            let patterns = host.get_patterns();
            let ghost before = hosts.blocks();
            proof {
                assert(self.blocks().take(i + 1).drop_last() =~= self.blocks().take(i as int));
                assert(self.blocks().take(i + 1).last() == host@);
            }
            if patterns.len() == 0 {
                hosts.push(host.clone());
                assert(hosts.blocks() =~= before + spread_block(host@));
            } else {
                let mut k: usize = 0;
                assert(hosts.blocks() =~= before + spread_block(host@).take(0));
                while k < patterns.len()
                    invariant
                        k <= patterns.len(),
                        patterns.len() > 0,
                        patterns.deep_view() == host@.patterns,
                        hosts.blocks() == before + spread_block(host@).take(k as int),
                    decreases patterns.len() - k,
                {
                    let mut one: Vec<String> = Vec::new();
                    one.push(patterns[k].clone());
                    assert(one.deep_view() =~= seq![host@.patterns[k as int]]);
                    let ghost shorter = hosts.blocks();
                    let single = host.with_patterns(one);
                    hosts.push(single);
                    assert(hosts.blocks() =~= shorter.push(spread_block(host@)[k as int]));
                    assert(hosts.blocks() =~= before + spread_block(host@).take(k + 1));
                    k += 1;
                }
                assert(spread_block(host@).take(k as int) =~= spread_block(host@));
            }
            i += 1;
        }
        assert(self.blocks().take(i as int) =~= self.blocks());
        hosts
    }

    fn apply_patterns(&self) -> (hosts: Vec<Host>) {
        let spread = self.spread();
        let ghost blocks = spread.blocks();
        let mut hosts: Vec<Host> = Vec::new();
        let mut j: usize = 0;
        assert(hosts.blocks() =~= named_hosts(blocks, 0));
        while j < spread.len()
            invariant
                j <= spread.len(),
                blocks == spread.blocks(),
                patterns_usable(blocks),
                hosts.blocks() == named_hosts(blocks, j as int),
            decreases spread.len() - j,
        {
            let target = &spread[j];
            assert(blocks[j as int] == target@);
            if !is_pattern_host(target) {
                let mut host = target.clone();
                let mut i: usize = 0;
                assert(blocks.take(0) =~= Seq::<HostView>::empty());
                while i < spread.len()
                    invariant
                        i <= spread.len(),
                        blocks == spread.blocks(),
                        patterns_usable(blocks),
                        j < spread.len(),
                        blocks[j as int] == target@,
                        host@.patterns == target@.patterns,
                        host@.entries == filled_from(
                            target@.entries,
                            target@.patterns[0],
                            blocks.take(i as int),
                        ),
                    decreases spread.len() - i,
                {
                    let donor = &spread[i];
                    proof {
                        assert(blocks[i as int] == donor@);
                        assert(blocks.take(i + 1).drop_last() =~= blocks.take(i as int));
                        assert(blocks.take(i + 1).last() == donor@);
                    }
                    if is_pattern_host(donor) {
                        assert(is_pattern_block(blocks[i as int]));
                        assert(blocks[j as int].patterns.len() > 0);
                        let name = target.get_patterns()[0].as_str();
                        let pattern = donor.get_patterns()[0].as_str();
                        assert(name@ == target@.patterns[0]);
                        assert(pattern@ == donor@.patterns[0]);
                        match wildcard_applies(pattern, name) {
                            Some(true) => {
                                host.extend_if_not_contained(donor);
                            },
                            _ => {},
                        }
                    }
                    i += 1;
                }
                assert(blocks.take(i as int) =~= blocks);
                let ghost before = hosts.blocks();
                hosts.push(host);
                assert(hosts.blocks() =~= before.push(with_patterns_applied(target@, blocks)));
            }
            j += 1;
        }
        hosts
    }

    fn can_apply_patterns(&self) -> (usable: bool) {
        let spread = self.spread();
        let ghost blocks = spread.blocks();
        let mut found_pattern = false;
        let mut all_named = true;
        let mut i: usize = 0;
        while i < spread.len()
            invariant
                i <= spread.len(),
                blocks == spread.blocks(),
                blocks == spread_blocks(self.blocks()),
                found_pattern == has_pattern_block(blocks.take(i as int)),
                all_named == (forall|j: int|
                    0 <= j < i ==> (#[trigger] blocks[j]).patterns.len() > 0),
                forall|j: int|
                    0 <= j < i && is_pattern_block(#[trigger] blocks[j]) ==> regex_compiles(
                        regex_source(blocks[j].patterns[0]),
                    ),
            decreases spread.len() - i,
        {
            let host = &spread[i];
            assert(blocks[i as int] == host@);
            proof {
                if has_pattern_block(blocks.take(i as int)) {
                    let k = choose|k: int|
                        0 <= k < blocks.take(i as int).len() && is_pattern_block(
                            #[trigger] blocks.take(i as int)[k],
                        );
                    assert(is_pattern_block(blocks.take(i + 1)[k]));
                }
                if has_pattern_block(blocks.take(i + 1)) {
                    let k = choose|k: int|
                        0 <= k < blocks.take(i + 1).len() && is_pattern_block(
                            #[trigger] blocks.take(i + 1)[k],
                        );
                    if k < i {
                        assert(is_pattern_block(blocks.take(i as int)[k]));
                    }
                }
                if is_pattern_block(host@) {
                    assert(is_pattern_block(blocks.take(i + 1)[i as int]));
                }
            }
            if host.get_patterns().len() == 0 {
                all_named = false;
            } else if is_pattern_host(host) {
                found_pattern = true;
                let pattern = host.get_patterns()[0].as_str();
                assert(pattern@ == host@.patterns[0]);
                if !wildcard_compiles(pattern) {
                    assert(is_pattern_block(blocks[i as int]));
                    return false;
                }
            }
            i += 1;
        }
        assert(blocks.take(i as int) =~= blocks);
        !found_pattern || all_named
    }

    fn can_apply_name_to_empty_hostname(&self) -> (usable: bool) {
        let mut i: usize = 0;
        while i < self.len()
            invariant
                i <= self.len(),
                forall|j: int|
                    0 <= j < i && !(#[trigger] self.blocks()[j]).entries.contains_key(
                        EntryType::Hostname@,
                    ) ==> self.blocks()[j].patterns.len() > 0,
            decreases self.len() - i,
        {
            let host = &self[i];
            assert(self.blocks()[i as int] == host@);
            if !host.contains(&EntryType::Hostname) && host.get_patterns().len() == 0 {
                return false;
            }
            i += 1;
        }
        true
    }
}

} // verus!
