//! What reading gives, on a database that holds the log.
use vstd::prelude::*;

use crate::batch::Records;
use crate::codec::decoded_entry;
use crate::error::RaftError;
use crate::error::StorageError;
use crate::keys::entry_key;
use crate::keys::first_difference;
use crate::keys::key_before;
use crate::keys::law_entry_key_holds_its_index;
use crate::keys::law_entry_keys_are_ordered;
use crate::keys::single_key;
use crate::keys::SNAPSHOT;
use crate::laws::holds_keys;
use crate::laws::holds_log;
use crate::laws::in_log;
use crate::laws::names_entry;
use crate::laws::record;
use crate::laws::recoverable;
use crate::laws::stored_entry;
use crate::messages::SnapshotView;
use crate::reader::compacted_term;
use crate::reader::term_key_for;
use crate::reader::EntryScanView;
use crate::records::stored_conf_state;
use crate::records::stored_hard_state;
use crate::records::stored_snapshot;
use crate::storage::asked_for;
use crate::storage::checked_index;
use crate::storage::checked_range;
use crate::storage::committed;
use crate::storage::nothing_stored;
use crate::storage::recovered_bounds;
use crate::storage::stored_snapshot_index;
use crate::storage::well_formed_ends;
use crate::storage::LogEnds;
use crate::storage::StorageView;

verus! {

/// The key lies in the range from `start` up to but not including `end`.
pub open spec fn in_range(key: Seq<u8>, start: Seq<u8>, end: Seq<u8>) -> bool {
    !key_before(key, start) && key_before(key, end)
}

/// The first and the last key between the keys of the smallest and of the largest index that the
/// database holds, if it holds any.
pub open spec fn are_log_ends(records: Records, ends: Option<LogEnds>) -> bool {
    let start = entry_key(0);
    let end = entry_key(u64::MAX);
    match ends {
        Some(ends) => {
            &&& records.contains_key(ends.first_key@) && in_range(ends.first_key@, start, end)
            &&& records.contains_key(ends.last_key@) && in_range(ends.last_key@, start, end)
            &&& forall|key: Seq<u8>| #[trigger]
                records.contains_key(key) && in_range(key, start, end) ==> !key_before(
                    key,
                    ends.first_key@,
                ) && !key_before(ends.last_key@, key)
        },
        None => forall|key: Seq<u8>| #[trigger]
            records.contains_key(key) ==> !in_range(key, start, end),
    }
}

proof fn lemma_range_lies_in_log(key: Seq<u8>, low: u64, high: u64)
    requires
        in_range(key, entry_key(low), entry_key(high)),
    ensures
        in_log(key),
{
    if key.len() == 0 || key[0] < entry_key(low)[0] {
        assert(first_difference(key, entry_key(low), 0));
    } else {
        let at = choose|at: int| #[trigger] first_difference(key, entry_key(high), at);
        assert(key[0] <= entry_key(high)[0]);
    }
}

/// Between the keys of `low` and `high` the database has the records of the entries from `low` up
/// to but not including `high`, and nothing else.
pub proof fn law_range_holds_the_entries(
    records: Records,
    first: u64,
    last: u64,
    low: u64,
    high: u64,
    key: Seq<u8>,
)
    requires
        holds_keys(records, first as int, last as int),
        first <= low,
        high <= last + 1,
    ensures
        (records.contains_key(key) && in_range(key, entry_key(low), entry_key(high)))
            <==> names_entry(key, low as int, high - 1),
{
    if records.contains_key(key) && in_range(key, entry_key(low), entry_key(high)) {
        lemma_range_lies_in_log(key, low, high);
        let idx = choose|idx: u64| first <= idx <= last && key == #[trigger] entry_key(idx);
        law_entry_keys_are_ordered(idx, low);
        law_entry_keys_are_ordered(idx, high);
        assert(low <= idx <= high - 1 && key == entry_key(idx));
    }
    if names_entry(key, low as int, high - 1) {
        let idx = choose|idx: u64| low <= idx <= high - 1 && key == #[trigger] entry_key(idx);
        law_entry_keys_are_ordered(idx, low);
        law_entry_keys_are_ordered(idx, high);
        assert(records.contains_key(entry_key(idx)));
    }
}

/// A storage that is created anew finds the bounds of the log that the database holds.
pub proof fn law_bounds_are_recovered(
    records: Records,
    first: u64,
    last: u64,
    ends: Option<LogEnds>,
)
    requires
        recoverable(records, first as int, last as int),
        last < u64::MAX,
        are_log_ends(records, ends),
    ensures
        ends matches Some(ends) ==> well_formed_ends(ends),
        recovered_bounds(ends, stored_snapshot_index(record(records, single_key(SNAPSHOT)))) == (
            first as int,
            last as int,
        ),
{
    let start = entry_key(0);
    let end = entry_key(u64::MAX);
    if first <= last {
        assert(records.contains_key(entry_key(first)));
        assert(records.contains_key(entry_key(last)));
        law_entry_keys_are_ordered(first, 0);
        law_entry_keys_are_ordered(first, u64::MAX);
        law_entry_keys_are_ordered(last, 0);
        law_entry_keys_are_ordered(last, u64::MAX);
        assert(in_range(entry_key(first), start, end));
        assert(in_range(entry_key(last), start, end));
    }
    if let Some(ends) = ends {
        lemma_range_lies_in_log(ends.first_key@, 0, u64::MAX);
        lemma_range_lies_in_log(ends.last_key@, 0, u64::MAX);
        let a = choose|a: u64| first <= a <= last && ends.first_key@ == #[trigger] entry_key(a);
        let b = choose|b: u64| first <= b <= last && ends.last_key@ == #[trigger] entry_key(b);
        assert(names_entry(ends.first_key@, first as int, last as int));
        assert(names_entry(ends.last_key@, first as int, last as int));
        law_entry_keys_are_ordered(first, a);
        law_entry_keys_are_ordered(b, last);
        law_entry_key_holds_its_index(a);
        law_entry_key_holds_its_index(b);
    }
}

/// On a database that nothing was written to, the log is empty and starts at the first index, and
/// nothing is stored.
pub proof fn law_new_storage_is_empty(ends: Option<LogEnds>, storage: StorageView)
    requires
        are_log_ends(Map::empty(), ends),
        (storage.first_index as int, storage.last_index as int) == recovered_bounds(
            ends,
            stored_snapshot_index(None),
        ),
    ensures
        storage.first_index == 1,
        storage.last_index == 0,
        nothing_stored(
            storage,
            false,
            stored_snapshot(None)->0,
            stored_hard_state(None)->0,
            stored_conf_state(None)->0,
        ),
{
}

/// A walk that takes the records of `values` in turn, as long as it wants more; `None` where it
/// stumbles over one of them.
pub open spec fn walked(scan: EntryScanView, values: Seq<Seq<u8>>) -> Option<EntryScanView>
    decreases values.len(),
{
    if values.len() == 0 || !scan.wants_more() {
        Some(scan)
    } else {
        match decoded_entry(values[0]) {
            Some(entry) if entry.index == scan.expected_index() => walked(
                scan.taken(entry, values[0].len()),
                values.drop_first(),
            ),
            _ => None,
        }
    }
}

/// The records of the entries from `low` up to but not including `high`, in order.
pub open spec fn entry_records(records: Records, low: u64, high: u64) -> Seq<Seq<u8>> {
    Seq::new((high - low) as nat, |i: int| records[entry_key((low + i) as u64)])
}

/// How long these records are together.
pub open spec fn total_len(values: Seq<Seq<u8>>) -> nat
    decreases values.len(),
{
    if values.len() == 0 {
        0
    } else {
        total_len(values.drop_last()) + values.last().len()
    }
}

proof fn lemma_walk(scan: EntryScanView, all: Seq<Seq<u8>>, at: int) -> (n: int)
    requires
        0 <= at <= all.len(),
        scan.entries.len() == at,
        scan.size == total_len(all.take(at)),
        forall|i: int|
            0 <= i < at ==> decoded_entry(#[trigger] all[i]) == Some(scan.entries[i]),
        forall|i: int|
            0 <= i < all.len() ==> (decoded_entry(#[trigger] all[i]) matches Some(entry)
                && entry.index == scan.low + i),
        at > 1 ==> total_len(all.take(at - 1)) == 0 || total_len(all.take(at - 1)) < scan.max_size,
    ensures
        at <= n <= all.len(),
        walked(scan, all.skip(at)) matches Some(end) && {
            &&& end.low == scan.low
            &&& end.high == scan.high
            &&& end.max_size == scan.max_size
            &&& end.entries.len() == n
            &&& end.size == total_len(all.take(n))
            &&& forall|i: int|
                0 <= i < n ==> decoded_entry(#[trigger] all[i]) == Some(end.entries[i])
            &&& n < all.len() ==> !end.wants_more()
        },
        n > 1 ==> total_len(all.take(n - 1)) == 0 || total_len(all.take(n - 1)) < scan.max_size,
        n == at ==> at == all.len() || !scan.wants_more(),
    decreases all.len() - at,
{
    let rest = all.skip(at);
    if rest.len() == 0 || !scan.wants_more() {
        at
    } else {
        assert(rest[0] == all[at]);
        let entry = decoded_entry(all[at])->0;
        let next = scan.taken(entry, rest[0].len());
        assert(rest.drop_first() =~= all.skip(at + 1));
        assert(all.take(at + 1).drop_last() =~= all.take(at));
        assert(all.take(at + 1 - 1) =~= all.take(at));
        lemma_walk(next, all, at + 1)
    }
}

/// A walk over a range of the log gives the stored entries from the start of the range on. It
/// gives the first of them however long it is, and stops short of the end of the range only where
/// the limit is reached: without the last entry that it gives, the limit was not.
pub proof fn law_scan_gives_the_start_of_the_range(
    records: Records,
    first: u64,
    last: u64,
    low: u64,
    high: u64,
    max_size: u64,
) -> (n: int)
    requires
        holds_log(records, first as int, last as int),
        first <= low < high <= last + 1,
    ensures
        1 <= n <= high - low,
        ({
            let values = entry_records(records, low, high);
            let start = EntryScanView::at_start(low, high, max_size);
            &&& walked(start, values) matches Some(end) && end.entries.len() == n && forall|i: int|
                0 <= i < n ==> Some(#[trigger] end.entries[i]) == stored_entry(
                    records,
                    (low + i) as u64,
                )
            &&& n < high - low ==> total_len(values.take(n)) >= max_size
            &&& n > 1 ==> total_len(values.take(n - 1)) == 0 || total_len(values.take(n - 1))
                < max_size
        }),
{
    let values = entry_records(records, low, high);
    let start = EntryScanView::at_start(low, high, max_size);
    assert forall|i: int| 0 <= i < values.len() implies (decoded_entry(
        #[trigger] values[i],
    ) matches Some(entry) && entry.index == low + i) && decoded_entry(values[i]) == stored_entry(
        records,
        (low + i) as u64,
    ) by {
        assert(stored_entry(records, (low + i) as u64) is Some);
    }
    assert(values.take(0) =~= Seq::<Seq<u8>>::empty());
    assert(values.skip(0) =~= values);
    let n = lemma_walk(start, values, 0);
    let end = walked(start, values)->0;
    assert forall|i: int| 0 <= i < n implies Some(#[trigger] end.entries[i]) == stored_entry(
        records,
        (low + i) as u64,
    ) by {
        assert(decoded_entry(values[i]) == Some(end.entries[i]));
    }
    n
}

proof fn lemma_total_len_grows(values: Seq<Seq<u8>>, n: int)
    requires
        0 <= n <= values.len(),
    ensures
        total_len(values.take(n)) <= total_len(values),
    decreases values.len() - n,
{
    if n == values.len() {
        assert(values.take(n) =~= values);
    } else {
        lemma_total_len_grows(values, n + 1);
        assert(values.take(n + 1).drop_last() =~= values.take(n));
    }
}

proof fn lemma_total_len_adds_up(front: Seq<Seq<u8>>, back: Seq<Seq<u8>>)
    ensures
        total_len(front + back) == total_len(front) + total_len(back),
    decreases back.len(),
{
    if back.len() == 0 {
        assert(front + back =~= front);
    } else {
        lemma_total_len_adds_up(front, back.drop_last());
        assert((front + back).drop_last() =~= front + back.drop_last());
    }
}

/// Without a limit, a walk over a range of the log gives all its entries: one for each index, in
/// their order.
pub proof fn law_scan_without_limit_gives_the_range(
    records: Records,
    first: u64,
    last: u64,
    low: u64,
    high: u64,
)
    requires
        holds_log(records, first as int, last as int),
        first <= low < high <= last + 1,
        total_len(entry_records(records, low, high)) < u64::MAX,
    ensures
        walked(
            EntryScanView::at_start(low, high, u64::MAX),
            entry_records(records, low, high),
        ) matches Some(end) && {
            &&& end.entries.len() == high - low
            &&& forall|i: int|
                0 <= i < high - low ==> (#[trigger] end.entries[i]).index == low + i && Some(
                    end.entries[i],
                ) == stored_entry(records, (low + i) as u64)
        },
{
    let values = entry_records(records, low, high);
    let n = law_scan_gives_the_start_of_the_range(records, first, last, low, high, u64::MAX);
    lemma_total_len_grows(values, n);
    let end = walked(EntryScanView::at_start(low, high, u64::MAX), values)->0;
    assert forall|i: int| 0 <= i < high - low implies (#[trigger] end.entries[i]).index == low + i
        && Some(end.entries[i]) == stored_entry(records, (low + i) as u64) by {
        assert(stored_entry(records, (low + i) as u64) is Some);
    }
}

/// Without a limit, a range read at once gives what its two parts give, one after the other: the
/// entries of `a..c` are those of `a..b` and then those of `b..c`.
pub proof fn law_adjoining_ranges_concatenate(
    records: Records,
    first: u64,
    last: u64,
    a: u64,
    b: u64,
    c: u64,
)
    requires
        holds_log(records, first as int, last as int),
        first <= a < b < c <= last + 1,
        total_len(entry_records(records, a, c)) < u64::MAX,
    ensures
        ({
            let whole = walked(
                EntryScanView::at_start(a, c, u64::MAX),
                entry_records(records, a, c),
            );
            let front = walked(
                EntryScanView::at_start(a, b, u64::MAX),
                entry_records(records, a, b),
            );
            let back = walked(
                EntryScanView::at_start(b, c, u64::MAX),
                entry_records(records, b, c),
            );
            &&& whole is Some && front is Some && back is Some
            &&& whole->0.entries == front->0.entries + back->0.entries
            &&& whole->0.entries.len() == c - a
            &&& forall|k: int|
                0 <= k < c - a ==> (#[trigger] whole->0.entries[k]).index == a + k
        }),
{
    let all = entry_records(records, a, c);
    let front = entry_records(records, a, b);
    let back = entry_records(records, b, c);
    assert(all =~= front + back);
    lemma_total_len_adds_up(front, back);
    law_scan_without_limit_gives_the_range(records, first, last, a, c);
    law_scan_without_limit_gives_the_range(records, first, last, a, b);
    law_scan_without_limit_gives_the_range(records, first, last, b, c);
    let w = walked(EntryScanView::at_start(a, c, u64::MAX), all)->0.entries;
    let f = walked(EntryScanView::at_start(a, b, u64::MAX), front)->0.entries;
    let t = walked(EntryScanView::at_start(b, c, u64::MAX), back)->0.entries;
    assert forall|k: int| 0 <= k < c - a implies #[trigger] w[k] == (f + t)[k] by {
        assert(Some(w[k]) == stored_entry(records, (a + k) as u64));
        if k < b - a {
            assert(Some(f[k]) == stored_entry(records, (a + k) as u64));
        } else {
            let j = k - (b - a);
            assert(Some(t[j]) == stored_entry(records, (b + j) as u64));
        }
    }
    assert(w =~= f + t);
}

/// A range is served exactly where every index in it is.
pub proof fn law_range_is_checked_index_by_index(storage: StorageView, low: u64, high: u64)
    requires
        low < high,
    ensures
        checked_range(storage, low, high) is Ok <==> forall|idx: u64|
            low <= idx < high ==> #[trigger] checked_index(storage, idx) is Ok,
{
    if forall|idx: u64| low <= idx < high ==> #[trigger] checked_index(storage, idx) is Ok {
        assert(checked_index(storage, low) is Ok);
        assert(checked_index(storage, (high - 1) as u64) is Ok);
    }
}

/// Each index of the log has a term: its record is there and can be read.
pub proof fn law_every_index_of_the_log_has_a_term(
    records: Records,
    storage: StorageView,
    idx: u64,
)
    requires
        holds_log(records, storage.first_index as int, storage.last_index as int),
        checked_index(storage, idx) is Ok,
    ensures
        term_key_for(storage, idx) == Ok::<Seq<u8>, RaftError>(entry_key(idx)),
        record(records, entry_key(idx)) matches Some(bytes) && decoded_entry(bytes) is Some,
{
    assert(stored_entry(records, idx) is Some);
}

/// Of what an applied snapshot covers, the term of the last entry is known, and no other.
pub proof fn law_term_of_the_last_compacted_entry_is_known(
    storage: StorageView,
    snapshot: SnapshotView,
    idx: u64,
)
    requires
        storage.first_index == snapshot.index() + 1,
        idx < storage.first_index,
    ensures
        term_key_for(storage, idx) == Ok::<Seq<u8>, RaftError>(single_key(SNAPSHOT)),
        compacted_term(snapshot, idx) == if idx == snapshot.index() {
            Ok::<u64, RaftError>(snapshot.term())
        } else {
            Err::<u64, RaftError>(RaftError::Store(StorageError::Compacted))
        },
{
}

/// The furthest of the snapshots that were asked for stays owed, whatever the stored one is, until
/// one that reaches as far is applied.
pub proof fn law_furthest_snapshot_request_stays_owed(
    storage: StorageView,
    snapshot: SnapshotView,
    request_index: u64,
    first_index: u64,
    last_index: u64,
    applied: u64,
)
    ensures
        storage.requested_snapshot matches Some(owed) ==> {
            &&& asked_for(storage, snapshot, request_index).requested_snapshot matches Some(now)
                && now >= owed
            &&& committed(storage, first_index, last_index, None).requested_snapshot == Some(owed)
            &&& committed(storage, first_index, last_index, Some(applied)).requested_snapshot
                == if owed <= applied {
                None
            } else {
                Some(owed)
            }
        },
        storage.requested_snapshot is None ==> committed(
            storage,
            first_index,
            last_index,
            Some(applied),
        ).requested_snapshot is None,
        snapshot.index() < request_index ==> (asked_for(
            storage,
            snapshot,
            request_index,
        ).requested_snapshot matches Some(now) && now >= request_index),
{
}

} // verus!
