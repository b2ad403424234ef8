//! What the storage's changes do to the records of the database.
//!
//! The storage keeps the bounds of the log in memory and the log itself in the database. The laws
//! here say that the two stay together: every change leaves the database with a log that spans
//! exactly the bounds that the storage keeps, and a storage that is created anew on the database
//! finds these bounds again.
use vstd::prelude::*;

use crate::batch::apply_ops;
use crate::batch::law_batches_compose;
use crate::batch::Records;
use crate::batch::WriteOpView;
use crate::codec::decoded_entry;
use crate::codec::decoded_snapshot;
use crate::keys::entry_key;
use crate::keys::law_entry_key_holds_its_index;
use crate::keys::single_key;
use crate::keys::CONF_STATE_DISCRIMINATOR;
use crate::keys::HARD_STATE_DISCRIMINATOR;
use crate::keys::RAFT_ENTRY_DISCRIMINATOR;
use crate::keys::SNAPSHOT;
use crate::messages::EntryView;
use crate::messages::HardStateView;
use crate::messages::SnapshotView;
use crate::records::advanced_hard_state;
use crate::records::appends;
use crate::records::applies_snapshot;
use crate::records::entry_deletes;
use crate::records::max_index;
use crate::records::min_index;
use crate::records::put_ops;
use crate::records::puts_entries;
use crate::records::puts_entry;
use crate::records::stored_conf_state;
use crate::records::stored_hard_state;
use crate::records::stored_snapshot;
use crate::records::stores_entry;
use crate::storage::FIRST_RAFT_INDEX;

verus! {

/// The record under a key, if there is one.
pub open spec fn record(records: Records, key: Seq<u8>) -> Option<Seq<u8>> {
    if records.contains_key(key) {
        Some(records[key])
    } else {
        None
    }
}

/// The entry that the database holds at an index, if there is one and it can be read.
pub open spec fn stored_entry(records: Records, idx: u64) -> Option<EntryView> {
    match record(records, entry_key(idx)) {
        Some(bytes) => decoded_entry(bytes),
        None => None,
    }
}

/// The key is that of an entry between the two indices.
pub open spec fn names_entry(key: Seq<u8>, first: int, last: int) -> bool {
    exists|idx: u64| first <= idx <= last && key == #[trigger] entry_key(idx)
}

/// The key lies where the log lies.
pub open spec fn in_log(key: Seq<u8>) -> bool {
    key.len() > 0 && key[0] == RAFT_ENTRY_DISCRIMINATOR
}

/// Where the log lies, the database has a record for each index from `first` to `last`, and nothing
/// else.
pub open spec fn holds_keys(records: Records, first: int, last: int) -> bool {
    &&& forall|idx: u64|
        first <= idx <= last ==> records.contains_key(#[trigger] entry_key(idx))
    &&& forall|key: Seq<u8>| #[trigger]
        records.contains_key(key) && in_log(key) ==> names_entry(key, first, last)
}

/// The database holds the log from `first` to `last`: where the log lies, there is a readable entry
/// for each index, which says that it is that index's, and nothing else.
pub open spec fn holds_log(records: Records, first: int, last: int) -> bool {
    &&& holds_keys(records, first, last)
    &&& forall|idx: u64|
        first <= idx <= last ==> (#[trigger] stored_entry(records, idx) matches Some(entry)
            && entry.index == idx)
}

/// The snapshot tells where an empty log starts: behind the snapshot, or at the first index where
/// there is none.
pub open spec fn anchored(records: Records, first: int, last: int) -> bool {
    match record(records, single_key(SNAPSHOT)) {
        Some(bytes) => decoded_snapshot(bytes) matches Some(snapshot) && first == snapshot.index()
            + 1 && last == snapshot.index(),
        None => first == FIRST_RAFT_INDEX && last == 0,
    }
}

/// The bounds of a log: it starts at the first index or behind, and ends right before its start
/// where it is empty.
pub open spec fn valid_bounds(first: int, last: int) -> bool {
    FIRST_RAFT_INDEX <= first <= last + 1
}

/// The database has the records of the log, and tells where it is even if it is empty. This is all
/// that it takes to find the bounds; whether the records can be read does not matter.
pub open spec fn recoverable(records: Records, first: int, last: int) -> bool {
    &&& valid_bounds(first, last)
    &&& holds_keys(records, first, last)
    &&& first > last ==> anchored(records, first, last)
}

/// The entries follow each other without a gap, from `first` on.
pub open spec fn contiguous(entries: Seq<EntryView>, first: int) -> bool {
    forall|i: int| 0 <= i < entries.len() ==> (#[trigger] entries[i]).index == first + i
}

/// What is stored of each entry reads back as that entry.
pub open spec fn all_read_back(entries: Seq<EntryView>) -> bool {
    forall|i: int| 0 <= i < entries.len() ==> (#[trigger] entries[i]).reads_back()
}

/// Nothing but the entries between the two indices differs.
pub open spec fn same_outside(before: Records, after: Records, first: int, last: int) -> bool {
    forall|key: Seq<u8>|
        !names_entry(key, first, last) ==> #[trigger] record(after, key) == record(before, key)
}

proof fn lemma_entry_key_is_one_to_one(a: u64, b: u64)
    requires
        entry_key(a) == entry_key(b),
    ensures
        a == b,
{
    law_entry_key_holds_its_index(a);
    law_entry_key_holds_its_index(b);
}

pub(crate) proof fn lemma_names_its_own_index(idx: u64, first: int, last: int)
    ensures
        names_entry(entry_key(idx), first, last) <==> first <= idx <= last,
{
    if names_entry(entry_key(idx), first, last) {
        let other = choose|other: u64|
            first <= other <= last && entry_key(idx) == #[trigger] entry_key(other);
        lemma_entry_key_is_one_to_one(idx, other);
    }
}

pub(crate) proof fn lemma_deletes(records: Records, from: int, to: int)
    requires
        0 <= from,
        to <= u64::MAX,
    ensures
        same_outside(records, apply_ops(records, entry_deletes(from, to)), from, to),
        forall|idx: u64|
            from <= idx <= to ==> record(
                apply_ops(records, entry_deletes(from, to)),
                #[trigger] entry_key(idx),
            ) is None,
    decreases to - from + 1,
{
    let ops = entry_deletes(from, to);
    if from <= to {
        lemma_deletes(records, from, to - 1);
        assert(ops.drop_last() =~= entry_deletes(from, to - 1));
        let before = apply_ops(records, ops.drop_last());
        let after = apply_ops(records, ops);
        assert(after == before.remove(entry_key(to as u64)));
        assert forall|key: Seq<u8>| !names_entry(key, from, to) implies #[trigger] record(
            after,
            key,
        ) == record(records, key) by {
            if names_entry(key, from, to - 1) {
                let idx = choose|idx: u64|
                    from <= idx <= to - 1 && key == #[trigger] entry_key(idx);
                assert(from <= idx <= to && key == entry_key(idx));
            }
            assert(record(before, key) == record(records, key));
            assert(key != entry_key(to as u64));
        }
        assert forall|idx: u64| from <= idx <= to implies record(
            after,
            #[trigger] entry_key(idx),
        ) is None by {
            if idx < to {
                assert(record(before, entry_key(idx)) is None);
            }
        }
    }
}

proof fn lemma_puts(
    records: Records,
    entries: Seq<EntryView>,
    ops: Seq<WriteOpView>,
    first: int,
)
    requires
        0 <= first,
        first + entries.len() <= u64::MAX + 1,
        contiguous(entries, first),
        puts_entries(ops, entries),
    ensures
        same_outside(records, apply_ops(records, ops), first, first + entries.len() - 1),
        forall|i: int|
            0 <= i < entries.len() ==> (record(
                apply_ops(records, ops),
                entry_key((#[trigger] entries[i]).index),
            ) matches Some(bytes) && stores_entry(bytes, entries[i])),
    decreases entries.len(),
{
    let after = apply_ops(records, ops);
    let last = first + entries.len() - 1;
    if entries.len() > 0 {
        let fewer = entries.drop_last();
        assert forall|i: int| 0 <= i < fewer.len() implies puts_entry(
            ops.drop_last()[i],
            #[trigger] fewer[i],
        ) by {
            assert(puts_entry(ops[i], entries[i]));
        }
        lemma_puts(records, fewer, ops.drop_last(), first);
        let before = apply_ops(records, ops.drop_last());
        let key_of_last = entry_key(last as u64);
        assert(entries.last() == entries[entries.len() - 1]);
        assert(entries.last().index == last);
        assert(puts_entry(ops.last(), entries.last()));
        let value = ops.last()->value;
        assert(after == before.insert(key_of_last, value));
        assert forall|key: Seq<u8>| !names_entry(key, first, last) implies #[trigger] record(
            after,
            key,
        ) == record(records, key) by {
            if names_entry(key, first, last - 1) {
                let idx = choose|idx: u64|
                    first <= idx <= last - 1 && key == #[trigger] entry_key(idx);
                assert(first <= idx <= last && key == entry_key(idx));
            }
            assert(record(before, key) == record(records, key));
            assert(key != key_of_last);
        }
        assert forall|i: int| 0 <= i < entries.len() implies (record(
            after,
            entry_key((#[trigger] entries[i]).index),
        ) matches Some(bytes) && stores_entry(bytes, entries[i])) by {
            if i < fewer.len() {
                assert(fewer[i] == entries[i]);
                assert(record(before, entry_key(fewer[i].index)) is Some);
                if entry_key(entries[i].index) == key_of_last {
                    lemma_entry_key_is_one_to_one(entries[i].index, last as u64);
                }
            }
        }
    }
}

pub(crate) proof fn lemma_entry_keys_are_in_log(key: Seq<u8>, first: int, last: int)
    ensures
        names_entry(key, first, last) ==> in_log(key),
{
}

/// What appending does to each record: those of the entries are written, those behind them up to
/// the old end are gone, and the others are as they were.
proof fn lemma_append(
    records: Records,
    last: u64,
    entries: Seq<EntryView>,
    ops: Seq<WriteOpView>,
)
    requires
        entries.len() > 0,
        contiguous(entries, entries[0].index as int),
        appends(ops, entries, last),
    ensures
        entries.last().index == entries[0].index + entries.len() - 1,
        forall|i: int|
            0 <= i < entries.len() ==> (record(
                apply_ops(records, ops),
                entry_key((#[trigger] entries[i]).index),
            ) matches Some(bytes) && stores_entry(bytes, entries[i])),
        forall|idx: u64|
            entries.last().index < idx <= last ==> record(
                apply_ops(records, ops),
                #[trigger] entry_key(idx),
            ) is None,
        forall|key: Seq<u8>|
            !names_entry(key, entries[0].index as int, entries.last().index as int)
                && !names_entry(key, entries.last().index + 1, last as int) ==> #[trigger] record(
                apply_ops(records, ops),
                key,
            ) == record(records, key),
{
    let start = entries[0].index as int;
    let end = entries.last().index as int;
    assert(entries.last() == entries[entries.len() - 1]);
    let deletes = entry_deletes(end + 1, last as int);
    let puts = ops.skip(deletes.len() as int);
    let kept = apply_ops(records, deletes);
    let after = apply_ops(records, ops);
    assert(ops =~= deletes + puts);
    law_batches_compose(records, deletes, puts);
    lemma_deletes(records, end + 1, last as int);
    lemma_puts(kept, entries, puts, start);
    assert forall|idx: u64| end < idx <= last implies record(
        after,
        #[trigger] entry_key(idx),
    ) is None by {
        lemma_names_its_own_index(idx, start, end);
        assert(record(after, entry_key(idx)) == record(kept, entry_key(idx)));
    }
    assert forall|key: Seq<u8>|
        !names_entry(key, start, end) && !names_entry(
            key,
            end + 1,
            last as int,
        ) implies #[trigger] record(after, key) == record(records, key) by {
        assert(record(kept, key) == record(records, key));
    }
}

proof fn lemma_append_keys(
    records: Records,
    first: u64,
    last: u64,
    entries: Seq<EntryView>,
    ops: Seq<WriteOpView>,
)
    requires
        holds_keys(records, first as int, last as int),
        entries.len() > 0,
        first <= entries[0].index <= last + 1,
        contiguous(entries, entries[0].index as int),
        appends(ops, entries, last),
    ensures
        holds_keys(apply_ops(records, ops), first as int, entries.last().index as int),
{
    let start = entries[0].index as int;
    let end = entries.last().index as int;
    let after = apply_ops(records, ops);
    lemma_append(records, last, entries, ops);
    assert forall|idx: u64| first <= idx <= end implies after.contains_key(
        #[trigger] entry_key(idx),
    ) by {
        if idx < start {
            lemma_names_its_own_index(idx, start, end);
            lemma_names_its_own_index(idx, end + 1, last as int);
            assert(records.contains_key(entry_key(idx)));
            assert(record(after, entry_key(idx)) == record(records, entry_key(idx)));
        } else {
            assert(entries[idx - start].index == idx);
        }
    }
    assert forall|key: Seq<u8>| #[trigger]
        after.contains_key(key) && in_log(key) implies names_entry(
        key,
        first as int,
        end,
    ) by {
        if names_entry(key, start, end) {
            let idx = choose|idx: u64| start <= idx <= end && key == #[trigger] entry_key(idx);
            assert(first <= idx <= end && key == entry_key(idx));
        } else {
            if names_entry(key, end + 1, last as int) {
                let idx = choose|idx: u64|
                    end + 1 <= idx <= last && key == #[trigger] entry_key(idx);
                assert(record(after, entry_key(idx)) is None);
            }
            assert(record(after, key) == record(records, key));
            assert(records.contains_key(key));
            let idx = choose|idx: u64| first <= idx <= last && key == #[trigger] entry_key(idx);
            if idx > end {
                assert(names_entry(key, end + 1, last as int));
            }
            assert(first <= idx <= end && key == entry_key(idx));
        }
    }
}

/// What is appended is what is read: afterwards the log ends with the appended entries, the
/// entries before them are as they were, nothing is left behind them, and no other record changes.
/// A storage that is created anew finds the new bounds, whatever the entries hold.
pub proof fn law_append_makes_the_end_of_the_log(
    records: Records,
    first: u64,
    last: u64,
    entries: Seq<EntryView>,
    ops: Seq<WriteOpView>,
)
    requires
        holds_keys(records, first as int, last as int),
        valid_bounds(first as int, last as int),
        entries.len() > 0,
        first <= entries[0].index <= last + 1,
        contiguous(entries, entries[0].index as int),
        appends(ops, entries, last),
    ensures
        ({
            let after = apply_ops(records, ops);
            &&& recoverable(after, first as int, entries.last().index as int)
            &&& holds_log(records, first as int, last as int) && all_read_back(entries)
                ==> holds_log(after, first as int, entries.last().index as int)
            &&& forall|i: int|
                0 <= i < entries.len() && entries[i].reads_back() ==> stored_entry(
                    after,
                    (#[trigger] entries[i]).index,
                ) == Some(entries[i])
            &&& forall|idx: u64|
                idx < entries[0].index ==> #[trigger] stored_entry(after, idx) == stored_entry(
                    records,
                    idx,
                )
            &&& forall|idx: u64|
                idx > entries.last().index ==> #[trigger] stored_entry(after, idx) is None
            &&& forall|key: Seq<u8>|
                !in_log(key) ==> #[trigger] record(after, key) == record(records, key)
        }),
{
    let start = entries[0].index as int;
    let end = entries.last().index as int;
    let after = apply_ops(records, ops);
    lemma_append_keys(records, first, last, entries, ops);
    assert(start <= end) by {
        lemma_append_at(records, last, entries, ops, entries[0].index);
    }
    assert forall|key: Seq<u8>| !in_log(key) implies #[trigger] record(after, key) == record(
        records,
        key,
    ) by {
        lemma_append_elsewhere(records, last, entries, ops, key);
    }
    assert forall|idx: u64| idx < start implies #[trigger] stored_entry(after, idx)
        == stored_entry(records, idx) by {
        lemma_append_at(records, last, entries, ops, idx);
    }
    assert forall|idx: u64| idx > end implies #[trigger] stored_entry(after, idx) is None by {
        lemma_names_its_own_index(idx, first as int, end);
        assert(in_log(entry_key(idx)));
        assert(!after.contains_key(entry_key(idx)));
    }
    assert forall|i: int| 0 <= i < entries.len() && entries[i].reads_back() implies stored_entry(
        after,
        (#[trigger] entries[i]).index,
    ) == Some(entries[i]) by {
        lemma_append_at(records, last, entries, ops, entries[i].index);
    }
    if holds_log(records, first as int, last as int) && all_read_back(entries) {
        assert forall|idx: u64| first <= idx <= end implies (#[trigger] stored_entry(
            after,
            idx,
        ) matches Some(entry) && entry.index == idx) by {
            lemma_append_at(records, last, entries, ops, idx);
            if idx < start {
                assert(stored_entry(records, idx) is Some);
            } else {
                assert(entries[idx - start].index == idx);
                assert(entries[idx - start].reads_back());
            }
        }
    }
}

/// What is stored of the entry can be told from the entry: it reads back, or there is but one way
/// to write it.
pub open spec fn is_determined(entry: EntryView) -> bool {
    entry.reads_back() || entry.has_one_form()
}

proof fn lemma_append_at(
    records: Records,
    last: u64,
    entries: Seq<EntryView>,
    ops: Seq<WriteOpView>,
    idx: u64,
)
    requires
        entries.len() > 0,
        contiguous(entries, entries[0].index as int),
        appends(ops, entries, last),
    ensures
        entries.last().index == entries[0].index + entries.len() - 1,
        entries[0].index <= idx <= entries.last().index ==> (record(
            apply_ops(records, ops),
            entry_key(idx),
        ) matches Some(bytes) && stores_entry(bytes, entries[idx - entries[0].index])),
        entries.last().index < idx <= last ==> record(
            apply_ops(records, ops),
            entry_key(idx),
        ) is None,
        idx < entries[0].index || entries.last().index < idx && last < idx ==> record(
            apply_ops(records, ops),
            entry_key(idx),
        ) == record(records, entry_key(idx)),
{
    let start = entries[0].index as int;
    let end = entries.last().index as int;
    lemma_append(records, last, entries, ops);
    lemma_names_its_own_index(idx, start, end);
    lemma_names_its_own_index(idx, end + 1, last as int);
    if start <= idx <= end {
        assert(entries[idx - start].index == idx);
    }
}

proof fn lemma_append_elsewhere(
    records: Records,
    last: u64,
    entries: Seq<EntryView>,
    ops: Seq<WriteOpView>,
    key: Seq<u8>,
)
    requires
        entries.len() > 0,
        contiguous(entries, entries[0].index as int),
        appends(ops, entries, last),
        !in_log(key),
    ensures
        record(apply_ops(records, ops), key) == record(records, key),
{
    lemma_append(records, last, entries, ops);
    lemma_entry_keys_are_in_log(key, entries[0].index as int, entries.last().index as int);
    lemma_entry_keys_are_in_log(key, entries.last().index + 1, last as int);
}

/// Entries that are appended in two calls, one right behind the other, leave what they leave when
/// they are appended in one call: the same end of the log, the same entry at every index, and the
/// same other records.
pub proof fn law_appends_concatenate(
    records: Records,
    last: u64,
    x: Seq<EntryView>,
    y: Seq<EntryView>,
    x_ops: Seq<WriteOpView>,
    y_ops: Seq<WriteOpView>,
    joined_ops: Seq<WriteOpView>,
)
    requires
        x.len() > 0,
        y.len() > 0,
        contiguous(x, x[0].index as int),
        contiguous(y, x.last().index + 1),
        forall|i: int| 0 <= i < x.len() ==> is_determined(#[trigger] x[i]),
        forall|i: int| 0 <= i < y.len() ==> is_determined(#[trigger] y[i]),
        appends(x_ops, x, last),
        appends(y_ops, y, x.last().index),
        appends(joined_ops, x + y, last),
    ensures
        ({
            let one_by_one = apply_ops(apply_ops(records, x_ops), y_ops);
            let at_once = apply_ops(records, joined_ops);
            &&& y.last().index == (x + y).last().index
            &&& forall|idx: u64| #[trigger]
                stored_entry(one_by_one, idx) == stored_entry(at_once, idx)
            &&& forall|key: Seq<u8>|
                !in_log(key) ==> #[trigger] record(one_by_one, key) == record(at_once, key)
        }),
{
    let joined = x + y;
    let start = x[0].index as int;
    let middle = x.last().index as int;
    let end = y.last().index as int;
    assert(x.last() == x[x.len() - 1]);
    assert(y[0].index == middle + 1);
    assert forall|i: int| 0 <= i < joined.len() implies (#[trigger] joined[i]).index == start + i
        && is_determined(joined[i]) by {
        if i >= x.len() {
            assert(joined[i] == y[i - x.len()]);
        } else {
            assert(joined[i] == x[i]);
        }
    }
    assert(joined[0] == x[0]);
    assert(joined.last() == y.last());
    let between = apply_ops(records, x_ops);
    let one_by_one = apply_ops(between, y_ops);
    let at_once = apply_ops(records, joined_ops);
    assert forall|idx: u64| #[trigger] stored_entry(one_by_one, idx) == stored_entry(
        at_once,
        idx,
    ) by {
        lemma_append_at(records, last, x, x_ops, idx);
        lemma_append_at(between, x.last().index, y, y_ops, idx);
        lemma_append_at(records, last, joined, joined_ops, idx);
        if start <= idx <= middle {
            assert(joined[idx - start] == x[idx - start]);
            assert(is_determined(x[idx - start]));
        } else if middle < idx <= end {
            assert(joined[idx - start] == y[idx - middle - 1]);
            assert(is_determined(y[idx - middle - 1]));
        }
    }
    assert forall|key: Seq<u8>| !in_log(key) implies #[trigger] record(one_by_one, key) == record(
        at_once,
        key,
    ) by {
        lemma_append_elsewhere(records, last, x, x_ops, key);
        lemma_append_elsewhere(between, x.last().index, y, y_ops, key);
        lemma_append_elsewhere(records, last, joined, joined_ops, key);
    }
}

/// To append the same entries again changes nothing: neither the end of the log, nor the entry at
/// any index, nor another record.
pub proof fn law_append_is_idempotent(
    records: Records,
    last: u64,
    x: Seq<EntryView>,
    ops: Seq<WriteOpView>,
    again_ops: Seq<WriteOpView>,
)
    requires
        x.len() > 0,
        contiguous(x, x[0].index as int),
        forall|i: int| 0 <= i < x.len() ==> is_determined(#[trigger] x[i]),
        appends(ops, x, last),
        appends(again_ops, x, x.last().index),
    ensures
        ({
            let once = apply_ops(records, ops);
            let twice = apply_ops(once, again_ops);
            &&& forall|idx: u64| #[trigger]
                stored_entry(twice, idx) == stored_entry(once, idx)
            &&& forall|key: Seq<u8>|
                !in_log(key) ==> #[trigger] record(twice, key) == record(once, key)
        }),
{
    let once = apply_ops(records, ops);
    let twice = apply_ops(once, again_ops);
    assert forall|idx: u64| #[trigger] stored_entry(twice, idx) == stored_entry(once, idx) by {
        lemma_append_at(records, last, x, ops, idx);
        lemma_append_at(once, x.last().index, x, again_ops, idx);
        if x[0].index <= idx <= x.last().index {
            assert(is_determined(x[idx - x[0].index]));
        }
    }
    assert forall|key: Seq<u8>| !in_log(key) implies #[trigger] record(twice, key) == record(
        once,
        key,
    ) by {
        lemma_append_elsewhere(once, x.last().index, x, again_ops, key);
    }
}

/// A transaction that appends to what it has already gathered extends the log by the entries.
pub proof fn law_transaction_append_extends_the_log(
    records: Records,
    batch: Seq<WriteOpView>,
    first: u64,
    last: u64,
    entries: Seq<EntryView>,
    puts: Seq<WriteOpView>,
)
    requires
        holds_keys(apply_ops(records, batch), first as int, last as int),
        valid_bounds(first as int, last as int),
        last + entries.len() <= u64::MAX,
        contiguous(entries, last + 1),
        puts_entries(puts, entries),
    ensures
        ({
            let before = apply_ops(records, batch);
            let after = apply_ops(records, batch + puts);
            &&& holds_keys(after, first as int, last + entries.len())
            &&& entries.len() > 0 || recoverable(before, first as int, last as int) ==> recoverable(
                after,
                first as int,
                last + entries.len(),
            )
            &&& holds_log(before, first as int, last as int) && all_read_back(entries)
                ==> holds_log(after, first as int, last + entries.len())
            &&& forall|i: int|
                0 <= i < entries.len() && entries[i].reads_back() ==> stored_entry(
                    after,
                    (#[trigger] entries[i]).index,
                ) == Some(entries[i])
            &&& same_outside(before, after, last + 1, last + entries.len())
        }),
{
    let before = apply_ops(records, batch);
    let after = apply_ops(records, batch + puts);
    let end = last + entries.len();
    law_batches_compose(records, batch, puts);
    lemma_puts(before, entries, puts, last + 1);
    assert forall|idx: u64| first <= idx <= end implies after.contains_key(
        #[trigger] entry_key(idx),
    ) by {
        lemma_names_its_own_index(idx, last + 1, end);
        if idx <= last {
            assert(before.contains_key(entry_key(idx)));
            assert(record(after, entry_key(idx)) == record(before, entry_key(idx)));
        } else {
            assert(entries[idx - last - 1].index == idx);
        }
    }
    assert forall|key: Seq<u8>| #[trigger]
        after.contains_key(key) && in_log(key) implies names_entry(
        key,
        first as int,
        end,
    ) by {
        if names_entry(key, last + 1, end) {
            let idx = choose|idx: u64| last + 1 <= idx <= end && key == #[trigger] entry_key(idx);
            assert(first <= idx <= end && key == entry_key(idx));
        } else {
            assert(record(after, key) == record(before, key));
            assert(before.contains_key(key));
            let idx = choose|idx: u64| first <= idx <= last && key == #[trigger] entry_key(idx);
            assert(first <= idx <= end && key == entry_key(idx));
        }
    }
    if holds_log(before, first as int, last as int) && all_read_back(entries) {
        assert forall|idx: u64| first <= idx <= end implies (#[trigger] stored_entry(
            after,
            idx,
        ) matches Some(entry) && entry.index == idx) by {
            lemma_names_its_own_index(idx, last + 1, end);
            if idx <= last {
                assert(stored_entry(before, idx) is Some);
                assert(record(after, entry_key(idx)) == record(before, entry_key(idx)));
            } else {
                assert(entries[idx - last - 1].index == idx);
                assert(entries[idx - last - 1].reads_back());
            }
        }
    }
}

/// A transaction that trims what it has already gathered leaves the log behind the trim point as
/// it was, nothing of it before, and every other record alone.
pub proof fn law_trim_removes_the_start_of_the_log(
    records: Records,
    batch: Seq<WriteOpView>,
    first: u64,
    last: u64,
    trim_point: u64,
)
    requires
        holds_keys(apply_ops(records, batch), first as int, last as int),
        first <= trim_point,
    ensures
        ({
            let before = apply_ops(records, batch);
            let effective = min_index(trim_point, last);
            let after = apply_ops(records, batch + entry_deletes(first as int, effective as int));
            &&& holds_keys(after, trim_point + 1, max_index(last, trim_point) as int)
            &&& holds_log(before, first as int, last as int) ==> holds_log(
                after,
                trim_point + 1,
                max_index(last, trim_point) as int,
            )
            &&& valid_bounds(trim_point + 1, max_index(last, trim_point) as int)
            &&& trim_point < last ==> recoverable(after, trim_point + 1, last as int)
            &&& forall|idx: u64|
                idx > trim_point ==> #[trigger] stored_entry(after, idx) == stored_entry(
                    before,
                    idx,
                )
            &&& forall|idx: u64|
                idx <= trim_point ==> #[trigger] stored_entry(after, idx) is None
            &&& forall|key: Seq<u8>|
                !in_log(key) ==> #[trigger] record(after, key) == record(before, key)
        }),
{
    let before = apply_ops(records, batch);
    let effective = min_index(trim_point, last) as int;
    let after = apply_ops(records, batch + entry_deletes(first as int, effective));
    law_batches_compose(records, batch, entry_deletes(first as int, effective));
    lemma_deletes(before, first as int, effective);
    assert forall|key: Seq<u8>| !in_log(key) implies #[trigger] record(after, key) == record(
        before,
        key,
    ) by {
        lemma_entry_keys_are_in_log(key, first as int, effective);
    }
    assert forall|idx: u64| idx > trim_point implies #[trigger] stored_entry(after, idx)
        == stored_entry(before, idx) by {
        lemma_names_its_own_index(idx, first as int, effective);
        assert(record(after, entry_key(idx)) == record(before, entry_key(idx)));
    }
    assert forall|idx: u64|
        trim_point + 1 <= idx <= max_index(last, trim_point) implies after.contains_key(
        #[trigger] entry_key(idx),
    ) by {
        lemma_names_its_own_index(idx, first as int, effective);
        assert(before.contains_key(entry_key(idx)));
        assert(record(after, entry_key(idx)) == record(before, entry_key(idx)));
    }
    assert forall|idx: u64| idx <= trim_point implies #[trigger] stored_entry(
        after,
        idx,
    ) is None by {
        lemma_names_its_own_index(idx, first as int, effective);
        lemma_names_its_own_index(idx, first as int, last as int);
        if first <= idx <= effective {
            assert(record(after, entry_key(idx)) is None);
        } else {
            assert(record(after, entry_key(idx)) == record(before, entry_key(idx)));
            assert(in_log(entry_key(idx)));
            assert(!before.contains_key(entry_key(idx)));
        }
    }
    assert forall|key: Seq<u8>| #[trigger]
        after.contains_key(key) && in_log(key) implies names_entry(
        key,
        trim_point + 1,
        max_index(last, trim_point) as int,
    ) by {
        if names_entry(key, first as int, effective) {
            let idx = choose|idx: u64|
                first <= idx <= effective && key == #[trigger] entry_key(idx);
            assert(record(after, entry_key(idx)) is None);
        } else {
            assert(record(after, key) == record(before, key));
            assert(before.contains_key(key));
            let idx = choose|idx: u64| first <= idx <= last && key == #[trigger] entry_key(idx);
            lemma_names_its_own_index(idx, first as int, effective);
            assert(trim_point + 1 <= idx <= max_index(last, trim_point) && key == entry_key(idx));
        }
    }
}

proof fn lemma_log_is_kept(before: Records, after: Records, first: int, last: int)
    requires
        holds_keys(before, first, last),
        forall|key: Seq<u8>|
            in_log(key) ==> #[trigger] record(after, key) == record(before, key),
    ensures
        holds_keys(after, first, last),
        holds_log(before, first, last) ==> holds_log(after, first, last),
{
    assert forall|idx: u64| #[trigger] stored_entry(after, idx) == stored_entry(before, idx) by {
        assert(in_log(entry_key(idx)));
        assert(record(after, entry_key(idx)) == record(before, entry_key(idx)));
    }
    assert forall|idx: u64| first <= idx <= last implies after.contains_key(
        #[trigger] entry_key(idx),
    ) by {
        assert(in_log(entry_key(idx)));
        assert(record(after, entry_key(idx)) == record(before, entry_key(idx)));
    }
    assert forall|key: Seq<u8>| #[trigger]
        after.contains_key(key) && in_log(key) implies names_entry(key, first, last) by {
        assert(record(after, key) == record(before, key));
        assert(before.contains_key(key));
    }
}

/// A database that nothing was written to holds the empty log.
pub proof fn law_empty_database_is_recoverable()
    ensures
        recoverable(Map::empty(), FIRST_RAFT_INDEX as int, 0),
{
}

/// A record of which there is only one reads back as it was written. No other record changes, nor
/// does the log.
pub proof fn law_single_record_reads_back(
    records: Records,
    batch: Seq<WriteOpView>,
    discriminator: u8,
    value: Seq<u8>,
    first: u64,
    last: u64,
)
    requires
        discriminator > RAFT_ENTRY_DISCRIMINATOR,
    ensures
        ({
            let before = apply_ops(records, batch);
            let after = apply_ops(records, batch + put_ops(single_key(discriminator), value));
            &&& record(after, single_key(discriminator)) == Some(value)
            &&& forall|key: Seq<u8>|
                key != single_key(discriminator) ==> #[trigger] record(after, key) == record(
                    before,
                    key,
                )
            &&& holds_keys(before, first as int, last as int) ==> holds_keys(
                after,
                first as int,
                last as int,
            )
            &&& holds_log(before, first as int, last as int) ==> holds_log(
                after,
                first as int,
                last as int,
            )
            &&& recoverable(before, first as int, last as int) && (discriminator != SNAPSHOT
                || first <= last) ==> recoverable(after, first as int, last as int)
        }),
{
    let before = apply_ops(records, batch);
    let ops = put_ops(single_key(discriminator), value);
    let after = apply_ops(records, batch + ops);
    law_batches_compose(records, batch, ops);
    assert(ops.drop_last() =~= Seq::<WriteOpView>::empty());
    assert(apply_ops(before, ops.drop_last()) == before);
    assert(after == before.insert(single_key(discriminator), value));
    assert(single_key(discriminator)[0] == discriminator);
    assert(single_key(SNAPSHOT)[0] == SNAPSHOT);
    if holds_keys(before, first as int, last as int) {
        lemma_log_is_kept(before, after, first as int, last as int);
    }
}

/// An applied snapshot reads back with its members, and the hard state is moved up to it. The log
/// starts behind the snapshot, what lies there is as it was, and a storage that is created anew
/// finds it, from the snapshot where nothing lies there. No record changes that has nothing to do
/// with the snapshot.
pub proof fn law_apply_snapshot_replaces_the_start_of_the_log(
    records: Records,
    batch: Seq<WriteOpView>,
    first: u64,
    last: u64,
    snapshot: SnapshotView,
    hard_state: HardStateView,
    ops: Seq<WriteOpView>,
)
    requires
        holds_keys(apply_ops(records, batch), first as int, last as int),
        first <= snapshot.index(),
        applies_snapshot(ops, snapshot, hard_state, first, last),
    ensures
        ({
            let before = apply_ops(records, batch);
            let after = apply_ops(records, batch + ops);
            &&& valid_bounds(snapshot.index() + 1, max_index(last, snapshot.index()) as int)
            &&& holds_keys(
                after,
                snapshot.index() + 1,
                max_index(last, snapshot.index()) as int,
            )
            &&& snapshot.reads_back() || snapshot.index() < last ==> recoverable(
                after,
                snapshot.index() + 1,
                max_index(last, snapshot.index()) as int,
            )
            &&& holds_log(before, first as int, last as int) ==> holds_log(
                after,
                snapshot.index() + 1,
                max_index(last, snapshot.index()) as int,
            )
            &&& snapshot.reads_back() ==> stored_snapshot(record(after, single_key(SNAPSHOT)))
                == Some(snapshot)
            &&& snapshot.conf_state().reads_back() ==> stored_conf_state(
                record(after, single_key(CONF_STATE_DISCRIMINATOR)),
            ) == Some(snapshot.conf_state())
            &&& hard_state.reads_back() ==> stored_hard_state(
                record(after, single_key(HARD_STATE_DISCRIMINATOR)),
            ) == Some(advanced_hard_state(hard_state, snapshot))
            &&& forall|idx: u64|
                idx > snapshot.index() ==> #[trigger] stored_entry(after, idx) == stored_entry(
                    before,
                    idx,
                )
            &&& forall|key: Seq<u8>|
                !in_log(key) && key != single_key(SNAPSHOT) && key != single_key(
                    CONF_STATE_DISCRIMINATOR,
                ) && key != single_key(HARD_STATE_DISCRIMINATOR) ==> #[trigger] record(after, key)
                    == record(before, key)
        }),
{
    let before = apply_ops(records, batch);
    let members_bytes = ops[0]->value;
    let state_bytes = ops[1]->value;
    let whole_bytes = ops[2]->value;
    let members = put_ops(single_key(CONF_STATE_DISCRIMINATOR), members_bytes);
    let state = put_ops(single_key(HARD_STATE_DISCRIMINATOR), state_bytes);
    let whole = put_ops(single_key(SNAPSHOT), whole_bytes);
    let effective = min_index(snapshot.index(), last);
    let deletes = entry_deletes(first as int, effective as int);
    let written = batch + members + state + whole;
    assert(ops =~= members + state + whole + deletes) by {
        assert forall|i: int| 3 <= i < ops.len() implies ops[i] == #[trigger] (members + state
            + whole + deletes)[i] by {
            assert(ops[i] == ops.skip(3)[i - 3]);
        }
    }
    assert(batch + ops =~= written + deletes);
    assert(single_key(CONF_STATE_DISCRIMINATOR)[0] == CONF_STATE_DISCRIMINATOR);
    assert(single_key(HARD_STATE_DISCRIMINATOR)[0] == HARD_STATE_DISCRIMINATOR);
    assert(single_key(SNAPSHOT)[0] == SNAPSHOT);
    law_single_record_reads_back(
        records,
        batch,
        CONF_STATE_DISCRIMINATOR,
        members_bytes,
        first,
        last,
    );
    law_single_record_reads_back(
        records,
        batch + members,
        HARD_STATE_DISCRIMINATOR,
        state_bytes,
        first,
        last,
    );
    law_single_record_reads_back(
        records,
        batch + members + state,
        SNAPSHOT,
        whole_bytes,
        first,
        last,
    );
    law_trim_removes_the_start_of_the_log(records, written, first, last, snapshot.index());
    let stored = apply_ops(records, written);
    let after = apply_ops(records, written + deletes);
    assert(record(after, single_key(SNAPSHOT)) == record(stored, single_key(SNAPSHOT)));
    assert(record(after, single_key(HARD_STATE_DISCRIMINATOR)) == record(
        stored,
        single_key(HARD_STATE_DISCRIMINATOR),
    ));
    assert(record(after, single_key(CONF_STATE_DISCRIMINATOR)) == record(
        stored,
        single_key(CONF_STATE_DISCRIMINATOR),
    ));
    assert forall|idx: u64| idx > snapshot.index() implies #[trigger] stored_entry(after, idx)
        == stored_entry(before, idx) by {
        assert(in_log(entry_key(idx)));
        assert(stored_entry(after, idx) == stored_entry(stored, idx));
    }
}

/// Applying a snapshot turns neither the term nor the commit index back, and keeps the rest.
pub proof fn law_hard_state_never_goes_back(hard_state: HardStateView, snapshot: SnapshotView)
    ensures
        advanced_hard_state(hard_state, snapshot).term >= hard_state.term,
        advanced_hard_state(hard_state, snapshot).term >= snapshot.term(),
        advanced_hard_state(hard_state, snapshot).commit >= hard_state.commit,
        advanced_hard_state(hard_state, snapshot).commit >= snapshot.index(),
        advanced_hard_state(hard_state, snapshot).vote == hard_state.vote,
        advanced_hard_state(hard_state, snapshot).unknown == hard_state.unknown,
{
}

} // verus!
