//! What the storage's decisions come to, told by the fields of the values that go in and come out.
use vstd::prelude::*;

use crate::batch::apply_op;
use crate::batch::apply_ops;
use crate::batch::law_batches_compose;
use crate::batch::Records;
use crate::batch::WriteBatch;
use crate::batch::WriteOp;
use crate::batch::WriteOpView;
use crate::codec::conf_state_fits;
use crate::codec::decoded_conf_state;
use crate::codec::decoded_entry;
use crate::codec::decoded_hard_state;
use crate::codec::decoded_snapshot;
use crate::codec::encoded_conf_state;
use crate::codec::encoded_entry;
use crate::codec::encoded_hard_state;
use crate::codec::encoded_snapshot;
use crate::codec::entry_fits;
use crate::codec::hard_state_fits;
use crate::codec::snapshot_fits;
use crate::codec::unknown_values;
use crate::error::raft_error;
use crate::error::Cause;
use crate::error::Error;
use crate::error::RaftError;
use crate::error::StorageError;
use crate::history::after_steps;
use crate::history::agrees;
use crate::history::are_allowed;
use crate::history::law_calls_keep_the_log_between_its_bounds;
use crate::history::Held;
use crate::history::Step;
use crate::keys::entry_key;
use crate::keys::key_index;
use crate::keys::law_entry_key_holds_its_index;
use crate::keys::single_key;
use crate::keys::CONF_STATE_DISCRIMINATOR;
use crate::keys::HARD_STATE_DISCRIMINATOR;
use crate::keys::NODES_CONFIGURATION;
use crate::keys::RAFT_CONFIGURATION;
use crate::keys::RAFT_ENTRY_DISCRIMINATOR;
use crate::keys::SNAPSHOT;
use crate::keys::STORAGE_MARKER;
use crate::laws::holds_keys;
use crate::laws::in_log;
use crate::laws::law_apply_snapshot_replaces_the_start_of_the_log;
use crate::laws::lemma_deletes;
use crate::laws::lemma_entry_keys_are_in_log;
use crate::laws::lemma_names_its_own_index;
use crate::laws::record;
use crate::laws::recoverable;
use crate::messages::are_field_numbers;
use crate::messages::entry_views;
use crate::messages::lemma_no_unknown_takes_nothing;
use crate::messages::lengths_size;
use crate::messages::unknown_size;
use crate::messages::ConfState;
use crate::messages::ConfStateView;
use crate::messages::Entry;
use crate::messages::EntryView;
use crate::messages::HardState;
use crate::messages::HardStateView;
use crate::messages::Snapshot;
use crate::messages::SnapshotMetadata;
use crate::messages::SnapshotView;
use crate::messages::UnknownValuesView;
use crate::messages::UnknownView;
use crate::read_laws::are_log_ends;
use crate::read_laws::law_bounds_are_recovered;
use crate::reader::compacted_term;
use crate::reader::term_key_for;
use crate::reader::EntryScanView;
use crate::records::advanced_hard_state;
use crate::records::appends;
use crate::records::applies_snapshot;
use crate::records::decoded_record;
use crate::records::entry_deletes;
use crate::records::max_index;
use crate::records::min_index;
use crate::records::put_ops;
use crate::records::puts_conf_state;
use crate::records::puts_entries;
use crate::records::puts_entry;
use crate::records::puts_hard_state;
use crate::records::puts_snapshot;
use crate::records::record_bytes;
use crate::records::stored_conf_state;
use crate::records::stored_hard_state;
use crate::records::stored_snapshot;
use crate::records::stores_conf_state;
use crate::records::stores_entry;
use crate::records::stores_hard_state;
use crate::records::stores_snapshot;
use crate::storage::answers_request;
use crate::storage::asked_for;
use crate::storage::checked_index;
use crate::storage::checked_range;
use crate::storage::committed;
use crate::storage::nothing_stored;
use crate::storage::recovered_bounds;
use crate::storage::stored_snapshot_index;
use crate::storage::well_formed_ends;
use crate::storage::LogEnds;
use crate::storage::StorageView;

verus! {

/// The index that a snapshot's metadata names; 0 without metadata.
pub open spec fn named_index(snapshot: SnapshotView) -> u64 {
    match snapshot.metadata {
        Some(metadata) => metadata.index,
        None => 0,
    }
}

/// The term that a snapshot's metadata names; 0 without metadata.
pub open spec fn named_term(snapshot: SnapshotView) -> u64 {
    match snapshot.metadata {
        Some(metadata) => metadata.term,
        None => 0,
    }
}

/// A snapshot speaks through its metadata: the index, the term and the members are those that it
/// names. Without metadata it covers nothing, and without members there are none.
pub proof fn law_snapshot_speaks_through_its_metadata(snapshot: SnapshotView)
    ensures
        snapshot.metadata matches Some(metadata) ==> {
            &&& snapshot.index() == metadata.index
            &&& snapshot.term() == metadata.term
            &&& metadata.conf_state matches Some(conf_state) ==> snapshot.conf_state()
                == conf_state
        },
        snapshot.metadata is None ==> snapshot.index() == 0 && snapshot.term() == 0,
        snapshot.metadata is None || snapshot.metadata->0.conf_state is None ==> {
            &&& snapshot.conf_state().voters.len() == 0
            &&& snapshot.conf_state().learners.len() == 0
            &&& snapshot.conf_state().voters_outgoing.len() == 0
            &&& snapshot.conf_state().learners_next.len() == 0
            &&& !snapshot.conf_state().auto_leave
            &&& forall|number: u32| !snapshot.conf_state().unknown.contains_key(number)
        },
{
}

/// Applying a snapshot leaves exactly the larger of the two terms and the larger of the two commit
/// indices: each is one of the two, that of the hard state or that of the snapshot's metadata, and
/// falls behind neither. The rest of the hard state stays.
pub proof fn law_hard_state_is_the_larger_of_the_two(
    hard_state: HardStateView,
    snapshot: SnapshotView,
)
    ensures
        ({
            let after = advanced_hard_state(hard_state, snapshot);
            let (index, term) = match snapshot.metadata {
                Some(metadata) => (metadata.index, metadata.term),
                None => (0, 0),
            };
            &&& after.term == hard_state.term || after.term == term
            &&& after.term >= hard_state.term && after.term >= term
            &&& after.commit == hard_state.commit || after.commit == index
            &&& after.commit >= hard_state.commit && after.commit >= index
            &&& after.vote == hard_state.vote
            &&& after.unknown == hard_state.unknown
        }),
{
}

/// What the database holds once a snapshot was applied: a hard state with exactly the larger of the
/// two terms and the larger of the two commit indices, the snapshot itself, and the members that
/// its metadata names. A snapshot that covers nothing yet is never applied.
pub proof fn law_applied_snapshot_is_what_is_stored(
    records: Records,
    batch: Seq<WriteOpView>,
    first: u64,
    last: u64,
    snapshot: SnapshotView,
    hard_state: HardStateView,
    ops: Seq<WriteOpView>,
)
    requires
        holds_keys(apply_ops(records, batch), first as int, last as int),
        first <= snapshot.index(),
        snapshot.reads_back(),
        hard_state.reads_back(),
        applies_snapshot(ops, snapshot, hard_state, first, last),
    ensures
        ({
            let after = apply_ops(records, batch + ops);
            let (index, term) = match snapshot.metadata {
                Some(metadata) => (metadata.index, metadata.term),
                None => (0, 0),
            };
            &&& after.contains_key(seq![2u8])
            &&& decoded_hard_state(after[seq![2u8]]) matches Some(stored) && {
                &&& stored.term == hard_state.term || stored.term == term
                &&& stored.term >= hard_state.term && stored.term >= term
                &&& stored.commit == hard_state.commit || stored.commit == index
                &&& stored.commit >= hard_state.commit && stored.commit >= index
                &&& stored.vote == hard_state.vote
                &&& stored.unknown == hard_state.unknown
            }
            &&& after.contains_key(seq![7u8])
            &&& decoded_snapshot(after[seq![7u8]]) == Some(snapshot)
            &&& after.contains_key(seq![3u8])
            &&& snapshot.metadata matches Some(metadata) ==> (metadata.conf_state matches Some(
                conf_state,
            ) ==> decoded_conf_state(after[seq![3u8]]) == Some(conf_state))
            &&& forall|idx: u64|
                idx <= index ==> !after.contains_key(#[trigger] entry_key(idx))
            &&& forall|idx: u64|
                index < idx <= last ==> after.contains_key(#[trigger] entry_key(idx))
        }),
{
    let after = apply_ops(records, batch + ops);
    law_apply_snapshot_replaces_the_start_of_the_log(
        records,
        batch,
        first,
        last,
        snapshot,
        hard_state,
        ops,
    );
    assert(snapshot.conf_state().reads_back());
    assert(single_key(HARD_STATE_DISCRIMINATOR) =~= seq![2u8]);
    assert(single_key(CONF_STATE_DISCRIMINATOR) =~= seq![3u8]);
    assert(single_key(SNAPSHOT) =~= seq![7u8]);
    lemma_single_records_of_a_snapshot(records, batch, first, last, snapshot, hard_state, ops);
    let index = named_index(snapshot);
    assert forall|idx: u64| idx <= index implies !after.contains_key(
        #[trigger] entry_key(idx),
    ) by {
        lemma_names_its_own_index(
            idx,
            snapshot.index() + 1,
            max_index(last, snapshot.index()) as int,
        );
        assert(in_log(entry_key(idx)));
    }
}

/// What an applied snapshot stores is there.
proof fn lemma_single_records_of_a_snapshot(
    records: Records,
    batch: Seq<WriteOpView>,
    first: u64,
    last: u64,
    snapshot: SnapshotView,
    hard_state: HardStateView,
    ops: Seq<WriteOpView>,
)
    requires
        applies_snapshot(ops, snapshot, hard_state, first, last),
    ensures
        apply_ops(records, batch + ops).contains_key(single_key(HARD_STATE_DISCRIMINATOR)),
        apply_ops(records, batch + ops).contains_key(single_key(CONF_STATE_DISCRIMINATOR)),
        apply_ops(records, batch + ops).contains_key(single_key(SNAPSHOT)),
{
    let before = apply_ops(records, batch);
    law_batches_compose(records, batch, ops);
    let head = ops.take(3);
    let tail = ops.skip(3);
    assert(ops =~= head + tail);
    law_batches_compose(before, head, tail);
    assert(head.drop_last().drop_last().drop_last() =~= Seq::<WriteOpView>::empty());
    let one = head.drop_last().drop_last();
    let two = head.drop_last();
    assert(one.drop_last() =~= Seq::<WriteOpView>::empty());
    assert(one.last() == ops[0] && two.last() == ops[1] && head.last() == ops[2]);
    assert(apply_ops(before, one.drop_last()) == before);
    assert(apply_ops(before, one) == apply_op(before, ops[0]));
    assert(apply_ops(before, two) == apply_op(apply_ops(before, one), ops[1]));
    let stored = apply_ops(before, head);
    assert(stored == apply_op(apply_ops(before, two), ops[2]));
    lemma_deletes(stored, first as int, min_index(snapshot.index(), last) as int);
    let deleted = min_index(snapshot.index(), last) as int;
    assert(single_key(HARD_STATE_DISCRIMINATOR)[0] == HARD_STATE_DISCRIMINATOR);
    assert(single_key(CONF_STATE_DISCRIMINATOR)[0] == CONF_STATE_DISCRIMINATOR);
    assert(single_key(SNAPSHOT)[0] == SNAPSHOT);
    lemma_entry_keys_are_in_log(single_key(HARD_STATE_DISCRIMINATOR), first as int, deleted);
    lemma_entry_keys_are_in_log(single_key(CONF_STATE_DISCRIMINATOR), first as int, deleted);
    lemma_entry_keys_are_in_log(single_key(SNAPSHOT), first as int, deleted);
    let after = apply_ops(records, batch + ops);
    assert(record(after, single_key(HARD_STATE_DISCRIMINATOR)) == record(
        stored,
        single_key(HARD_STATE_DISCRIMINATOR),
    ));
    assert(record(after, single_key(CONF_STATE_DISCRIMINATOR)) == record(
        stored,
        single_key(CONF_STATE_DISCRIMINATOR),
    ));
    assert(record(after, single_key(SNAPSHOT)) == record(stored, single_key(SNAPSHOT)));
}

/// An index is accepted exactly between the bounds of the log, and what is said of another one
/// names the bound that it misses. What snapshot is owed makes no difference.
pub proof fn law_index_is_accepted_between_the_bounds(storage: StorageView, idx: u64)
    ensures
        checked_index(storage, idx) is Ok <==> storage.first_index <= idx <= storage.last_index,
        idx < storage.first_index ==> checked_index(storage, idx) == Err::<(), Error>(
            Error::Compacted(storage.first_index),
        ),
        storage.first_index <= idx && storage.last_index < idx ==> checked_index(storage, idx)
            == Err::<(), Error>(
            Error::IndexOutOfBounds { index: idx, last_index: storage.last_index },
        ),
        forall|other: StorageView|
            other.first_index == storage.first_index && other.last_index == storage.last_index
                ==> #[trigger] checked_index(other, idx) == checked_index(storage, idx),
{
}

/// A range is served exactly where it starts at the first index or behind, and ends at the last
/// one or before. What snapshot is owed makes no difference.
pub proof fn law_range_is_served_between_the_bounds(storage: StorageView, low: u64, high: u64)
    requires
        low < high,
    ensures
        checked_range(storage, low, high) is Ok <==> storage.first_index <= low && high
            <= storage.last_index + 1,
        low < storage.first_index ==> checked_range(storage, low, high) == Err::<(), Error>(
            Error::Compacted(storage.first_index),
        ),
        storage.first_index <= low && storage.last_index + 1 < high ==> checked_range(
            storage,
            low,
            high,
        ) == Err::<(), Error>(
            Error::IndexOutOfBounds { index: high, last_index: storage.last_index },
        ),
        forall|other: StorageView|
            other.first_index == storage.first_index && other.last_index == storage.last_index
                ==> #[trigger] checked_range(other, low, high) == checked_range(
                storage,
                low,
                high,
            ),
{
}

/// On a database that holds the log between the bounds that the storage keeps, an index is accepted
/// exactly where the database has its record. Every range of such indices is served, and each of
/// them has a term, under its own key.
pub proof fn law_what_the_database_holds_is_served(
    records: Records,
    storage: StorageView,
    idx: u64,
    low: u64,
    high: u64,
)
    requires
        holds_keys(records, storage.first_index as int, storage.last_index as int),
        low < high,
    ensures
        checked_index(storage, idx) is Ok <==> records.contains_key(entry_key(idx)),
        term_key_for(storage, idx) == Ok::<Seq<u8>, RaftError>(entry_key(idx))
            <==> records.contains_key(entry_key(idx)),
        checked_range(storage, low, high) is Ok <==> forall|i: u64|
            low <= i < high ==> records.contains_key(#[trigger] entry_key(i)),
{
    let first = storage.first_index as int;
    let last = storage.last_index as int;
    lemma_names_its_own_index(idx, first, last);
    assert(in_log(entry_key(idx)));
    assert(single_key(SNAPSHOT).len() != entry_key(idx).len());
    lemma_names_its_own_index(low, first, last);
    lemma_names_its_own_index((high - 1) as u64, first, last);
    assert(in_log(entry_key(low)));
    assert(in_log(entry_key((high - 1) as u64)));
    if forall|i: u64| low <= i < high ==> records.contains_key(#[trigger] entry_key(i)) {
        assert(records.contains_key(entry_key(low)));
        assert(records.contains_key(entry_key((high - 1) as u64)));
    }
}

/// A commit makes the staged bounds those of the storage, whatever snapshot is owed and whatever
/// one was applied. What is owed goes exactly if a snapshot that reaches as far was applied.
pub proof fn law_commit_takes_over_the_staged_bounds(
    storage: StorageView,
    first_index: u64,
    last_index: u64,
    snapshot_index: Option<u64>,
)
    ensures
        ({
            let after = committed(storage, first_index, last_index, snapshot_index);
            &&& after.first_index == first_index
            &&& after.last_index == last_index
            &&& after.requested_snapshot is Some <==> (storage.requested_snapshot is Some && !(
            snapshot_index is Some && snapshot_index->0 >= storage.requested_snapshot->0))
            &&& after.requested_snapshot is Some ==> after.requested_snapshot
                == storage.requested_snapshot
        }),
{
}

/// A commit leaves the storage with the bounds of the log that the database then holds: where the
/// records fit the staged bounds, they fit those of the storage, and a storage that is created anew
/// has the same.
pub proof fn law_committed_bounds_are_those_of_the_database(
    records: Records,
    storage: StorageView,
    first_index: u64,
    last_index: u64,
    snapshot_index: Option<u64>,
    ends: Option<LogEnds>,
)
    requires
        holds_keys(records, first_index as int, last_index as int),
    ensures
        ({
            let after = committed(storage, first_index, last_index, snapshot_index);
            &&& holds_keys(records, after.first_index as int, after.last_index as int)
            &&& recoverable(records, first_index as int, last_index as int) && last_index
                < u64::MAX && are_log_ends(records, ends) ==> recovered_bounds(
                ends,
                stored_snapshot_index(record(records, single_key(SNAPSHOT))),
            ) == (after.first_index as int, after.last_index as int)
        }),
{
    if recoverable(records, first_index as int, last_index as int) && last_index < u64::MAX
        && are_log_ends(records, ends) {
        law_bounds_are_recovered(records, first_index, last_index, ends);
    }
}

/// A commit after any calls: with the bounds that the calls lead to staged, the storage's bounds
/// are those of the log that the database holds after the calls.
pub proof fn law_commit_keeps_up_with_the_calls(
    held: Held,
    steps: Seq<Step>,
    storage: StorageView,
    snapshot_index: Option<u64>,
)
    requires
        agrees(held),
        are_allowed(held, steps),
    ensures
        ({
            let end = after_steps(held, steps);
            let after = committed(storage, end.first_index, end.last_index, snapshot_index);
            &&& after.first_index == end.first_index
            &&& after.last_index == end.last_index
            &&& forall|idx: u64|
                end.records.contains_key(#[trigger] entry_key(idx)) <==> after.first_index <= idx
                    <= after.last_index
        }),
{
    let end = after_steps(held, steps);
    law_calls_keep_the_log_between_its_bounds(held, steps);
    assert forall|idx: u64|
        end.records.contains_key(#[trigger] entry_key(idx)) <==> end.first_index <= idx
            <= end.last_index by {
        lemma_names_its_own_index(idx, end.first_index as int, end.last_index as int);
        assert(in_log(entry_key(idx)));
    }
}

/// What each call does to the bounds, told by its arguments.
pub proof fn law_calls_move_the_bounds(held: Held, step: Step)
    requires
        held.allows(step),
    ensures
        ({
            let after = held.after(step);
            match step {
                Step::Append { entries, .. } => {
                    &&& after.first_index == held.first_index
                    &&& entries.len() > 0 ==> after.last_index == entries[entries.len()
                        - 1].index
                    &&& entries.len() == 0 ==> after.last_index == held.last_index
                },
                Step::TransactionAppend { entries, .. } => {
                    &&& after.first_index == held.first_index
                    &&& after.last_index == held.last_index + entries.len()
                },
                Step::Trim { trim_point } => {
                    &&& trim_point < held.first_index ==> {
                        &&& after.first_index == held.first_index
                        &&& after.last_index == held.last_index
                    }
                    &&& trim_point >= held.first_index ==> {
                        &&& after.first_index == trim_point + 1
                        &&& after.last_index >= held.last_index && after.last_index >= trim_point
                        &&& after.last_index == held.last_index || after.last_index
                            == trim_point
                    }
                },
                Step::ApplySnapshot { snapshot, .. } => {
                    let index = named_index(snapshot);
                    &&& index < held.first_index ==> after == held
                    &&& index >= held.first_index ==> {
                        &&& after.first_index == index + 1
                        &&& after.last_index >= held.last_index && after.last_index >= index
                        &&& after.last_index == held.last_index || after.last_index == index
                    }
                },
                Step::StoreRecord { .. } => after.first_index == held.first_index
                    && after.last_index == held.last_index,
            }
        }),
{
    if let Step::ApplySnapshot { snapshot, ops, .. } = step {
        if snapshot.index() < held.first_index {
            assert(ops =~= Seq::<WriteOpView>::empty());
            assert(apply_ops(held.records, ops) == held.records);
        }
    }
}

/// A request for a snapshot is answered with the stored one exactly for the indices up to and
/// including that snapshot's own. For those behind it the snapshot is not available yet.
pub proof fn law_request_is_answered_up_to_the_snapshot(
    snapshot: SnapshotView,
    request_index: u64,
    r: Result<Snapshot, RaftError>,
)
    requires
        answers_request(r, snapshot, request_index),
    ensures
        snapshot.metadata matches Some(metadata) ==> (r is Ok <==> request_index
            <= metadata.index),
        snapshot.metadata is None ==> (r is Ok <==> request_index == 0),
        r matches Ok(answer) ==> answer@ == snapshot,
        r matches Err(err) ==> err == RaftError::Store(
            StorageError::SnapshotTemporarilyUnavailable,
        ),
{
}

/// If a request for some index is answered, so is one for any smaller index, with the same
/// snapshot; if one is turned down, so is one for any larger index.
pub proof fn law_nearer_requests_are_answered_too(
    snapshot: SnapshotView,
    near: u64,
    far: u64,
    near_r: Result<Snapshot, RaftError>,
    far_r: Result<Snapshot, RaftError>,
)
    requires
        near <= far,
        answers_request(near_r, snapshot, near),
        answers_request(far_r, snapshot, far),
    ensures
        far_r matches Ok(far_answer) ==> (near_r matches Ok(near_answer) && near_answer@
            == far_answer@),
        near_r is Err ==> far_r is Err,
        near <= named_index(snapshot) ==> near_r is Ok,
{
}

/// Where a request is turned down, a snapshot that reaches it is owed afterwards: the furthest that
/// was asked for. Where it is answered, nothing changes. The bounds of the log stay either way.
pub proof fn law_refused_request_is_owed(
    storage: StorageView,
    snapshot: SnapshotView,
    request_index: u64,
    r: Result<Snapshot, RaftError>,
)
    requires
        answers_request(r, snapshot, request_index),
    ensures
        ({
            let after = asked_for(storage, snapshot, request_index);
            &&& after.first_index == storage.first_index
            &&& after.last_index == storage.last_index
            &&& r is Ok ==> after.requested_snapshot == storage.requested_snapshot
            &&& r is Err ==> (after.requested_snapshot matches Some(owed) && {
                &&& owed >= request_index
                &&& owed == request_index || storage.requested_snapshot == Some(owed)
                &&& storage.requested_snapshot matches Some(before) ==> owed >= before
            })
        }),
{
}

/// Two requests leave what the further of them leaves, in whatever order they come.
pub proof fn law_requests_commute(
    storage: StorageView,
    snapshot: SnapshotView,
    one: u64,
    other: u64,
)
    ensures
        asked_for(asked_for(storage, snapshot, one), snapshot, other) == asked_for(
            asked_for(storage, snapshot, other),
            snapshot,
            one,
        ),
        one <= other ==> asked_for(asked_for(storage, snapshot, one), snapshot, other)
            == asked_for(storage, snapshot, other),
{
}

/// Of what is compacted, the term is known exactly for the index that the snapshot's metadata
/// names, and is the one that it names there.
pub proof fn law_compacted_term_is_the_snapshots(snapshot: SnapshotView, idx: u64)
    ensures
        compacted_term(snapshot, idx) is Ok <==> idx == named_index(snapshot),
        compacted_term(snapshot, idx) matches Ok(term) ==> term == named_term(snapshot),
        compacted_term(snapshot, idx) matches Err(err) ==> err == RaftError::Store(
            StorageError::Compacted,
        ),
{
}

/// The term of an index is looked for in the snapshot before the log, under the index's own key in
/// the log, and nowhere behind it.
pub proof fn law_term_is_looked_for_where_it_is(storage: StorageView, idx: u64)
    ensures
        idx < storage.first_index ==> term_key_for(storage, idx) == Ok::<Seq<u8>, RaftError>(
            seq![7u8],
        ),
        storage.first_index <= idx <= storage.last_index ==> term_key_for(storage, idx) == Ok::<
            Seq<u8>,
            RaftError,
        >(entry_key(idx)),
        storage.first_index <= idx && storage.last_index < idx ==> term_key_for(storage, idx)
            == Err::<Seq<u8>, RaftError>(
            RaftError::Store(
                StorageError::Other(
                    Cause::Storage(
                        Error::IndexOutOfBounds { index: idx, last_index: storage.last_index },
                    ),
                ),
            ),
        ),
{
    assert(single_key(SNAPSHOT) =~= seq![7u8]);
}

/// Raft is told of a codec's error as such, and that something is compacted. Every other error
/// reaches it whole.
pub proof fn law_raft_is_told_the_error(error: Error)
    ensures
        error matches Error::EncodeProto(err) ==> raft_error(error) == RaftError::CodecError(err),
        error is Compacted ==> raft_error(error) == RaftError::Store(StorageError::Compacted),
        !(error is EncodeProto) && !(error is Compacted) ==> raft_error(error)
            == RaftError::Store(StorageError::Other(Cause::Storage(error))),
{
}

/// A walk starts with nothing taken, at the range and the limit that it was given. It wants more
/// until it has taken something and reached the limit. It takes the entry whose index follows the
/// last one, adds the record's length, and keeps everything else.
pub proof fn law_walk_takes_one_entry_after_the_other(
    low: u64,
    high: u64,
    max_size: u64,
    scan: EntryScanView,
    entry: EntryView,
    len: nat,
)
    ensures
        EntryScanView::at_start(low, high, max_size).low == low,
        EntryScanView::at_start(low, high, max_size).high == high,
        EntryScanView::at_start(low, high, max_size).max_size == max_size,
        EntryScanView::at_start(low, high, max_size).size == 0,
        EntryScanView::at_start(low, high, max_size).entries.len() == 0,
        scan.wants_more() <==> !(scan.size > 0 && scan.size >= scan.max_size),
        scan.expected_index() == scan.low + scan.entries.len(),
        scan.taken(entry, len).size == scan.size + len,
        scan.taken(entry, len).entries == scan.entries.push(entry),
        scan.taken(entry, len).low == scan.low,
        scan.taken(entry, len).high == scan.high,
        scan.taken(entry, len).max_size == scan.max_size,
        scan.taken(entry, len).expected_index() == scan.expected_index() + 1,
        scan.entries.len() == 0 ==> scan.gap() is Compacted,
        scan.entries.len() > 0 ==> scan.gap() is Unavailable,
{
}

/// The bounds of the log are the indices in the keys at its ends; without entries it lies right
/// behind the snapshot, or before the first index where there is none.
pub proof fn law_bounds_come_from_the_ends(
    ends: Option<LogEnds>,
    snapshot_index: Option<u64>,
    first: u64,
    last: u64,
)
    ensures
        ends is Some && ends->0.first_key@ == entry_key(first) && ends->0.last_key@ == entry_key(
            last,
        ) ==> recovered_bounds(ends, snapshot_index) == (first as int, last as int),
        ends is None && snapshot_index is Some ==> recovered_bounds(ends, snapshot_index) == (
            snapshot_index->0 + 1,
            snapshot_index->0 as int,
        ),
        ends is None && snapshot_index is None ==> recovered_bounds(ends, snapshot_index) == (
            1int,
            0int,
        ),
{
    law_entry_key_holds_its_index(first);
    law_entry_key_holds_its_index(last);
}

/// The storage is empty exactly if nothing was configured, no snapshot covers anything, nothing was
/// voted or committed, there are no members, and the log has its first bounds.
pub proof fn law_storage_is_empty_if_nothing_is_there(
    storage: StorageView,
    configured: bool,
    snapshot: SnapshotView,
    hard_state: HardStateView,
    conf_state: ConfStateView,
)
    ensures
        nothing_stored(storage, configured, snapshot, hard_state, conf_state) <==> {
            &&& !configured
            &&& named_index(snapshot) == 0
            &&& hard_state.term == 0 && hard_state.vote == 0 && hard_state.commit == 0
            &&& forall|number: u32| !hard_state.unknown.contains_key(number)
            &&& conf_state.voters.len() == 0 && conf_state.learners.len() == 0
            &&& conf_state.voters_outgoing.len() == 0 && conf_state.learners_next.len() == 0
            &&& !conf_state.auto_leave
            &&& forall|number: u32| !conf_state.unknown.contains_key(number)
            &&& storage.first_index == 1 && storage.last_index == 0
        },
{
    if forall|number: u32| !hard_state.unknown.contains_key(number) {
        assert(hard_state.unknown =~= UnknownView::empty());
    }
    if forall|number: u32| !conf_state.unknown.contains_key(number) {
        assert(conf_state.unknown =~= UnknownView::empty());
    }
    if conf_state.voters.len() == 0 && conf_state.learners.len() == 0
        && conf_state.voters_outgoing.len() == 0 && conf_state.learners_next.len() == 0 {
        assert(conf_state.voters =~= Seq::<u64>::empty());
        assert(conf_state.learners =~= Seq::<u64>::empty());
        assert(conf_state.voters_outgoing =~= Seq::<u64>::empty());
        assert(conf_state.learners_next =~= Seq::<u64>::empty());
    }
}

/// What is read from a record is what protobuf reads from its bytes; where there is no record, the
/// value in which everything is zero or empty.
pub proof fn law_records_are_read_as_they_are(bytes: Seq<u8>)
    ensures
        stored_snapshot(Some(bytes)) == decoded_snapshot(bytes),
        stored_hard_state(Some(bytes)) == decoded_hard_state(bytes),
        stored_conf_state(Some(bytes)) == decoded_conf_state(bytes),
        stored_snapshot(None) matches Some(snapshot) && snapshot.data.len() == 0
            && snapshot.metadata is None && forall|number: u32|
            !snapshot.unknown.contains_key(number),
        stored_hard_state(None) matches Some(hard_state) && hard_state.term == 0
            && hard_state.vote == 0 && hard_state.commit == 0 && forall|number: u32|
            !hard_state.unknown.contains_key(number),
        stored_conf_state(None) matches Some(conf_state) && conf_state.voters.len() == 0
            && conf_state.learners.len() == 0 && conf_state.voters_outgoing.len() == 0
            && conf_state.learners_next.len() == 0 && !conf_state.auto_leave && forall|number: u32|
            !conf_state.unknown.contains_key(number),
        decoded_snapshot(bytes) matches Some(snapshot) ==> stored_snapshot_index(Some(bytes))
            == Some(named_index(snapshot)),
        stored_snapshot_index(None) is None,
{
}

/// What was read and decoded is handed out as it is; only errors are told apart.
pub proof fn law_decoded_records_are_handed_out<T>(value: T, err: String)
    ensures
        decoded_record::<T>(Ok(Some(Ok(value)))) == Ok::<Option<T>, Error>(Some(value)),
        decoded_record::<T>(Ok(None)) == Ok::<Option<T>, Error>(None),
        decoded_record::<T>(Ok(Some(Err(err)))) == Err::<Option<T>, Error>(Error::Decode(err)),
        decoded_record::<T>(Err(err)) == Err::<Option<T>, Error>(Error::RocksDbRaw(err)),
{
}

/// A put leaves its value under its key, a delete leaves nothing there, and neither touches another
/// key.
pub proof fn law_changes_touch_their_key(
    records: Records,
    key: Seq<u8>,
    value: Seq<u8>,
    other: Seq<u8>,
)
    ensures
        record(apply_op(records, WriteOpView::Put { key, value }), key) == Some(value),
        record(apply_op(records, WriteOpView::Delete { key }), key) is None,
        other != key ==> {
            &&& record(apply_op(records, WriteOpView::Put { key, value }), other) == record(
                records,
                other,
            )
            &&& record(apply_op(records, WriteOpView::Delete { key }), other) == record(
                records,
                other,
            )
        },
{
}

/// The records that exist once have the keys of one byte that tell them apart.
pub proof fn law_single_keys_differ(a: u8, b: u8)
    ensures
        single_key(a).len() == 1,
        single_key(a)[0] == a,
        single_key(a) == single_key(b) <==> a == b,
{
    if single_key(a) == single_key(b) {
        assert(single_key(a)[0] == single_key(b)[0]);
    }
}

/// The records have these first bytes, of which no two are the same.
pub proof fn law_records_are_told_apart()
    ensures
        RAFT_ENTRY_DISCRIMINATOR == 1,
        HARD_STATE_DISCRIMINATOR == 2,
        CONF_STATE_DISCRIMINATOR == 3,
        STORAGE_MARKER == 4,
        RAFT_CONFIGURATION == 5,
        NODES_CONFIGURATION == 6,
        SNAPSHOT == 7,
        forall|idx: u64| #[trigger] entry_key(idx)[0] == 1,
{
}

/// To store a hard state, members or a snapshot is a put under that record's own key, of bytes that
/// are read as what was stored.
pub proof fn law_messages_are_put_under_their_keys(
    op: WriteOpView,
    hard_state: HardStateView,
    conf_state: ConfStateView,
    snapshot: SnapshotView,
)
    ensures
        puts_hard_state(op, hard_state) ==> (op matches WriteOpView::Put { key, value } && {
            &&& key == seq![2u8]
            &&& hard_state.reads_back() ==> decoded_hard_state(value) == Some(hard_state)
            &&& hard_state.has_one_form() ==> value == encoded_hard_state(hard_state)
        }),
        puts_conf_state(op, conf_state) ==> (op matches WriteOpView::Put { key, value } && {
            &&& key == seq![3u8]
            &&& conf_state.reads_back() ==> decoded_conf_state(value) == Some(conf_state)
            &&& conf_state.has_one_form() ==> value == encoded_conf_state(conf_state)
        }),
        puts_snapshot(op, snapshot) ==> (op matches WriteOpView::Put { key, value } && {
            &&& key == seq![7u8]
            &&& snapshot.reads_back() ==> decoded_snapshot(value) == Some(snapshot)
            &&& snapshot.has_one_form() ==> value == encoded_snapshot(snapshot)
        }),
{
    assert(single_key(HARD_STATE_DISCRIMINATOR) =~= seq![2u8]);
    assert(single_key(CONF_STATE_DISCRIMINATOR) =~= seq![3u8]);
    assert(single_key(SNAPSHOT) =~= seq![7u8]);
}

/// A message without fields that it does not define reads back, and there is one way to write it.
pub proof fn law_plain_messages_read_back(
    entry: EntryView,
    hard_state: HardStateView,
    conf_state: ConfStateView,
    snapshot: SnapshotView,
)
    ensures
        entry.unknown == UnknownView::empty() ==> entry.reads_back() && entry.has_one_form(),
        hard_state.unknown == UnknownView::empty() ==> hard_state.reads_back()
            && hard_state.has_one_form(),
        conf_state.unknown == UnknownView::empty() ==> conf_state.reads_back()
            && conf_state.has_one_form(),
        snapshot.unknown == UnknownView::empty() && (snapshot.metadata matches Some(metadata) ==> {
            &&& metadata.unknown == UnknownView::empty()
            &&& metadata.conf_state matches Some(members) ==> members.unknown
                == UnknownView::empty()
        }) ==> snapshot.reads_back() && snapshot.has_one_form(),
{
}

/// What is stored of a message that reads back is read as that message, and there is one stored
/// form of a message that there is one way to write.
pub proof fn law_stored_forms_are_read_as_the_message(
    a: Seq<u8>,
    b: Seq<u8>,
    entry: EntryView,
    hard_state: HardStateView,
    conf_state: ConfStateView,
    snapshot: SnapshotView,
)
    ensures
        stores_entry(a, entry) && entry.reads_back() ==> decoded_entry(a) == Some(entry),
        stores_entry(a, entry) && stores_entry(b, entry) && entry.has_one_form() ==> a == b,
        stores_hard_state(a, hard_state) && hard_state.reads_back() ==> decoded_hard_state(a)
            == Some(hard_state),
        stores_hard_state(a, hard_state) && stores_hard_state(b, hard_state)
            && hard_state.has_one_form() ==> a == b,
        stores_conf_state(a, conf_state) && conf_state.reads_back() ==> decoded_conf_state(a)
            == Some(conf_state),
        stores_conf_state(a, conf_state) && stores_conf_state(b, conf_state)
            && conf_state.has_one_form() ==> a == b,
        stores_snapshot(a, snapshot) && snapshot.reads_back() ==> decoded_snapshot(a) == Some(
            snapshot,
        ),
        stores_snapshot(a, snapshot) && stores_snapshot(b, snapshot) && snapshot.has_one_form()
            ==> a == b,
{
}

/// A message without fields that it does not define can be written as long as what it carries stays
/// 64 bytes below the size that 32 bits can count. A member takes 11 bytes.
pub proof fn law_small_messages_can_be_written(
    entry: EntryView,
    hard_state: HardStateView,
    conf_state: ConfStateView,
    snapshot: SnapshotView,
)
    ensures
        entry.unknown == UnknownView::empty() ==> (entry_fits(entry) <==> entry.data.len()
            + entry.context.len() <= u32::MAX - 64),
        hard_state.unknown == UnknownView::empty() ==> hard_state_fits(hard_state),
        conf_state.unknown == UnknownView::empty() ==> (conf_state_fits(conf_state) <==> 11 * (
        conf_state.voters.len() + conf_state.learners.len() + conf_state.voters_outgoing.len()
            + conf_state.learners_next.len()) <= u32::MAX - 64),
        snapshot.unknown == UnknownView::empty() && snapshot.metadata is None ==> (snapshot_fits(
            snapshot,
        ) <==> snapshot.data.len() <= u32::MAX - 64),
{
    lemma_no_unknown_takes_nothing();
}

/// The views of messages are their fields.
pub proof fn law_messages_are_seen_by_their_fields(
    entry: Entry,
    hard_state: HardState,
    conf_state: ConfState,
    metadata: SnapshotMetadata,
    snapshot: Snapshot,
)
    ensures
        entry@.entry_type == entry.entry_type && entry@.term == entry.term && entry@.index
            == entry.index && entry@.data == entry.data@ && entry@.context == entry.context@
            && entry@.sync_log == entry.sync_log && entry@.unknown == unknown_values(
            entry.unknown_fields,
        ),
        hard_state@.term == hard_state.term && hard_state@.vote == hard_state.vote
            && hard_state@.commit == hard_state.commit && hard_state@.unknown == unknown_values(
            hard_state.unknown_fields,
        ),
        conf_state@.voters == conf_state.voters@ && conf_state@.learners == conf_state.learners@
            && conf_state@.voters_outgoing == conf_state.voters_outgoing@
            && conf_state@.learners_next == conf_state.learners_next@ && conf_state@.auto_leave
            == conf_state.auto_leave && conf_state@.unknown == unknown_values(
            conf_state.unknown_fields,
        ),
        metadata@.index == metadata.index && metadata@.term == metadata.term && metadata@.unknown
            == unknown_values(metadata.unknown_fields),
        metadata.conf_state is None <==> metadata@.conf_state is None,
        metadata.conf_state matches Some(members) ==> metadata@.conf_state == Some(members@),
        snapshot@.data == snapshot.data@ && snapshot@.unknown == unknown_values(
            snapshot.unknown_fields,
        ),
        snapshot.metadata is None <==> snapshot@.metadata is None,
        snapshot.metadata matches Some(inner) ==> snapshot@.metadata == Some(inner@),
{
}

/// The smaller and the larger of two indices are each one of the two, and lie on either side.
pub proof fn law_smaller_and_larger(a: u64, b: u64)
    ensures
        min_index(a, b) == a || min_index(a, b) == b,
        min_index(a, b) <= a && min_index(a, b) <= b,
        max_index(a, b) == a || max_index(a, b) == b,
        max_index(a, b) >= a && max_index(a, b) >= b,
{
}

/// The entries from `from` to `to` are deleted, each once, in order.
pub proof fn law_deletes_name_each_index(from: u64, to: u64, i: int)
    ensures
        from <= to ==> entry_deletes(from as int, to as int).len() == to - from + 1,
        from > to ==> entry_deletes(from as int, to as int).len() == 0,
        0 <= i && from + i <= to ==> entry_deletes(from as int, to as int)[i]
            == (WriteOpView::Delete { key: entry_key((from + i) as u64) }),
{
}

/// What appending gives out, change by change, whatever the entries are: first deletes, each of an
/// index behind the last entry and up to the old end, each such index once, and then a put for each
/// entry, in their order, under the key of its own index.
pub proof fn law_append_gives_out_deletes_and_then_puts(
    ops: Seq<WriteOpView>,
    entries: Seq<EntryView>,
    last: u64,
    i: int,
)
    requires
        entries.len() > 0,
        appends(ops, entries, last),
    ensures
        ({
            let end = entries[entries.len() - 1].index;
            let deletes = ops.len() - entries.len();
            &&& deletes == if end < last {
                last - end
            } else {
                0
            }
            &&& 0 <= i < deletes ==> ops[i] == (WriteOpView::Delete {
                key: entry_key((end + 1 + i) as u64),
            })
            &&& 0 <= i < entries.len() ==> (ops[deletes + i] matches WriteOpView::Put {
                key,
                value,
            } && {
                &&& key == entry_key(entries[i].index)
                &&& entries[i].reads_back() ==> decoded_entry(value) == Some(entries[i])
                &&& entries[i].has_one_form() ==> value == encoded_entry(entries[i])
            })
        }),
{
    let deletes = entry_deletes(entries.last().index + 1, last as int);
    if 0 <= i < deletes.len() {
        assert(ops.take(deletes.len() as int)[i] == ops[i]);
    }
    if 0 <= i < entries.len() {
        assert(puts_entry(ops.skip(deletes.len() as int)[i], entries[i]));
    }
}

/// What a transaction's append gives out: a put for each entry, in their order, under the key of
/// its own index, and nothing else.
pub proof fn law_transaction_append_gives_out_puts(
    ops: Seq<WriteOpView>,
    entries: Seq<EntryView>,
    i: int,
)
    requires
        puts_entries(ops, entries),
    ensures
        ops.len() == entries.len(),
        0 <= i < entries.len() ==> (ops[i] matches WriteOpView::Put { key, value } && {
            &&& key == entry_key(entries[i].index)
            &&& entries[i].reads_back() ==> decoded_entry(value) == Some(entries[i])
            &&& entries[i].has_one_form() ==> value == encoded_entry(entries[i])
        }),
{
    if 0 <= i < entries.len() {
        assert(puts_entry(ops[i], entries[i]));
    }
}

/// What applying a snapshot gives out, change by change: puts of the members that its metadata
/// names, of a hard state with exactly the larger of the two terms and of the two commit indices,
/// and of the snapshot itself, and then a delete of each index of the log that it covers.
pub proof fn law_apply_snapshot_gives_out_three_puts_and_deletes(
    ops: Seq<WriteOpView>,
    snapshot: SnapshotView,
    hard_state: HardStateView,
    first: u64,
    last: u64,
    i: int,
)
    requires
        applies_snapshot(ops, snapshot, hard_state, first, last),
    ensures
        ({
            let (index, term) = match snapshot.metadata {
                Some(metadata) => (metadata.index, metadata.term),
                None => (0, 0),
            };
            let to = if index <= last {
                index
            } else {
                last
            };
            &&& ops.len() == 3 + if first <= to {
                to - first + 1
            } else {
                0
            }
            &&& ops[0] matches WriteOpView::Put { key, value } && key == seq![3u8] && (
            snapshot.metadata matches Some(metadata) ==> (metadata.conf_state matches Some(
                members,
            ) ==> {
                &&& members.reads_back() ==> decoded_conf_state(value) == Some(members)
                &&& members.has_one_form() ==> value == encoded_conf_state(members)
            }))
            &&& ops[1] matches WriteOpView::Put { key, value } && key == seq![2u8] && exists|
                state: HardStateView,
            | {
                &&& #[trigger] stores_hard_state(value, state)
                &&& state.term == hard_state.term || state.term == term
                &&& state.term >= hard_state.term && state.term >= term
                &&& state.commit == hard_state.commit || state.commit == index
                &&& state.commit >= hard_state.commit && state.commit >= index
                &&& state.vote == hard_state.vote
                &&& state.unknown == hard_state.unknown
            }
            &&& ops[2] matches WriteOpView::Put { key, value } && key == seq![7u8] && (
            snapshot.reads_back() ==> decoded_snapshot(value) == Some(snapshot)) && (
            snapshot.has_one_form() ==> value == encoded_snapshot(snapshot))
            &&& 0 <= i < ops.len() - 3 ==> ops[3 + i] == (WriteOpView::Delete {
                key: entry_key((first + i) as u64),
            })
        }),
{
    assert(single_key(HARD_STATE_DISCRIMINATOR) =~= seq![2u8]);
    assert(single_key(CONF_STATE_DISCRIMINATOR) =~= seq![3u8]);
    assert(single_key(SNAPSHOT) =~= seq![7u8]);
    assert(puts_hard_state(ops[1], advanced_hard_state(hard_state, snapshot)));
    assert(stores_hard_state(ops[1]->value, advanced_hard_state(hard_state, snapshot)));
    assert(ops.skip(3).len() == ops.len() - 3);
    if 0 <= i < ops.len() - 3 {
        assert(ops.skip(3)[i] == ops[3 + i]);
    }
}

/// A put of one record is that one change.
pub proof fn law_put_is_one_change(key: Seq<u8>, value: Seq<u8>)
    ensures
        put_ops(key, value).len() == 1,
        put_ops(key, value)[0] == (WriteOpView::Put { key, value }),
{
}

/// A batch is seen as its changes, in their order, each with the key and the value that it has, and
/// a list of entries as its entries.
pub proof fn law_lists_are_seen_by_their_items(
    batch: WriteBatch,
    entries: Seq<Entry>,
    record: Option<Vec<u8>>,
    i: int,
)
    ensures
        batch@.len() == batch.ops@.len(),
        0 <= i < batch.ops@.len() ==> match batch.ops@[i] {
            WriteOp::Put { key, value } => batch@[i] == (WriteOpView::Put {
                key: key@,
                value: value@,
            }),
            WriteOp::Delete { key } => batch@[i] == (WriteOpView::Delete { key: key@ }),
        },
        entry_views(entries).len() == entries.len(),
        0 <= i < entries.len() ==> entry_views(entries)[i] == entries[i]@,
        record is None <==> record_bytes(record) is None,
        record matches Some(bytes) ==> record_bytes(record) == Some(bytes@),
{
}

proof fn lemma_last_byte(x: int, a: u8, y: int, b: u8)
    requires
        256 * x + a == 256 * y + b,
    ensures
        x == y,
        a == b,
{
}

/// Two keys that hold the same index agree but for the first byte.
proof fn lemma_index_tells_the_bytes(a: Seq<u8>, b: Seq<u8>)
    requires
        key_index(a) == key_index(b),
    ensures
        forall|i: int| 1 <= i < 9 ==> a[i] == b[i],
{
    lemma_last_byte(
        a[1] * 0x1_0000_0000_0000 + a[2] * 0x100_0000_0000 + a[3] * 0x1_0000_0000
            + a[4] * 0x100_0000 + a[5] * 0x1_0000 + a[6] * 0x100 + a[7],
        a[8],
        b[1] * 0x1_0000_0000_0000 + b[2] * 0x100_0000_0000 + b[3] * 0x1_0000_0000
            + b[4] * 0x100_0000 + b[5] * 0x1_0000 + b[6] * 0x100 + b[7],
        b[8],
    );
    lemma_last_byte(
        a[1] * 0x100_0000_0000 + a[2] * 0x1_0000_0000 + a[3] * 0x100_0000 + a[4] * 0x1_0000
            + a[5] * 0x100 + a[6],
        a[7],
        b[1] * 0x100_0000_0000 + b[2] * 0x1_0000_0000 + b[3] * 0x100_0000 + b[4] * 0x1_0000
            + b[5] * 0x100 + b[6],
        b[7],
    );
    lemma_last_byte(
        a[1] * 0x1_0000_0000 + a[2] * 0x100_0000 + a[3] * 0x1_0000 + a[4] * 0x100 + a[5],
        a[6],
        b[1] * 0x1_0000_0000 + b[2] * 0x100_0000 + b[3] * 0x1_0000 + b[4] * 0x100 + b[5],
        b[6],
    );
    lemma_last_byte(
        a[1] * 0x100_0000 + a[2] * 0x1_0000 + a[3] * 0x100 + a[4],
        a[5],
        b[1] * 0x100_0000 + b[2] * 0x1_0000 + b[3] * 0x100 + b[4],
        b[5],
    );
    lemma_last_byte(
        a[1] * 0x1_0000 + a[2] * 0x100 + a[3],
        a[4],
        b[1] * 0x1_0000 + b[2] * 0x100 + b[3],
        b[4],
    );
    lemma_last_byte(a[1] * 0x100 + a[2], a[3], b[1] * 0x100 + b[2], b[3]);
    lemma_last_byte(a[1] as int, a[2], b[1] as int, b[2]);
    assert forall|i: int| 1 <= i < 9 implies a[i] == b[i] by {
        assert(i == 1 || i == 2 || i == 3 || i == 4 || i == 5 || i == 6 || i == 7 || i == 8);
    }
}

/// A key of nine bytes holds the index of the entry whose key it is, or would be with an entry's
/// first byte; the first byte makes no difference. Keys of another length are none of an entry.
pub proof fn law_key_holds_an_index(ends: LogEnds, key: Seq<u8>, byte: u8)
    ensures
        key.len() == 9 ==> {
            &&& 0 <= key_index(key) <= u64::MAX
            &&& entry_key(key_index(key) as u64) == key.update(0, 1)
            &&& key_index(key.update(0, byte)) == key_index(key)
        },
        well_formed_ends(ends) <==> ends.first_key@.len() == 9 && ends.last_key@.len() == 9,
{
    if key.len() == 9 {
        let idx = key_index(key);
        assert(0 <= idx <= u64::MAX);
        law_entry_key_holds_its_index(idx as u64);
        let own = entry_key(idx as u64);
        lemma_index_tells_the_bytes(own, key);
        assert(own =~= key.update(0, 1));
    }
}

/// A message reads back exactly if each field that it does not define is numbered behind its own
/// ones, can be written and has a value. There is one way to write it exactly if there are no two
/// such fields in any of its parts.
pub proof fn law_when_messages_read_back(
    entry: EntryView,
    hard_state: HardStateView,
    conf_state: ConfStateView,
    snapshot: SnapshotView,
)
    ensures
        entry.reads_back() <==> forall|n: u32| #[trigger]
            entry.unknown.contains_key(n) ==> 6 < n <= 0x1fff_ffff && (
            entry.unknown[n].fixed32.len() + entry.unknown[n].fixed64.len()
                + entry.unknown[n].varint.len() + entry.unknown[n].length_delimited.len() > 0),
        hard_state.reads_back() <==> forall|n: u32| #[trigger]
            hard_state.unknown.contains_key(n) ==> 3 < n <= 0x1fff_ffff && (
            hard_state.unknown[n].fixed32.len() + hard_state.unknown[n].fixed64.len()
                + hard_state.unknown[n].varint.len() + hard_state.unknown[n].length_delimited.len()
                > 0),
        conf_state.reads_back() <==> forall|n: u32| #[trigger]
            conf_state.unknown.contains_key(n) ==> 5 < n <= 0x1fff_ffff && (
            conf_state.unknown[n].fixed32.len() + conf_state.unknown[n].fixed64.len()
                + conf_state.unknown[n].varint.len() + conf_state.unknown[n].length_delimited.len()
                > 0),
        snapshot.reads_back() <==> {
            &&& forall|n: u32| #[trigger]
                snapshot.unknown.contains_key(n) ==> 2 < n <= 0x1fff_ffff && (
                snapshot.unknown[n].fixed32.len() + snapshot.unknown[n].fixed64.len()
                    + snapshot.unknown[n].varint.len() + snapshot.unknown[n].length_delimited.len()
                    > 0)
            &&& snapshot.metadata matches Some(metadata) ==> {
                &&& forall|n: u32| #[trigger]
                    metadata.unknown.contains_key(n) ==> 3 < n <= 0x1fff_ffff && (
                    metadata.unknown[n].fixed32.len() + metadata.unknown[n].fixed64.len()
                        + metadata.unknown[n].varint.len()
                        + metadata.unknown[n].length_delimited.len() > 0)
                &&& metadata.conf_state matches Some(members) ==> members.reads_back()
            }
        },
        entry.has_one_form() <==> forall|a: u32, b: u32| #[trigger]
            entry.unknown.contains_key(a) && #[trigger] entry.unknown.contains_key(b) ==> a == b,
        hard_state.has_one_form() <==> forall|a: u32, b: u32| #[trigger]
            hard_state.unknown.contains_key(a) && #[trigger] hard_state.unknown.contains_key(b)
                ==> a == b,
        conf_state.has_one_form() <==> forall|a: u32, b: u32| #[trigger]
            conf_state.unknown.contains_key(a) && #[trigger] conf_state.unknown.contains_key(b)
                ==> a == b,
        snapshot.has_one_form() <==> {
            &&& forall|a: u32, b: u32| #[trigger]
                snapshot.unknown.contains_key(a) && #[trigger] snapshot.unknown.contains_key(b)
                    ==> a == b
            &&& snapshot.metadata matches Some(metadata) ==> {
                &&& forall|a: u32, b: u32| #[trigger]
                    metadata.unknown.contains_key(a) && #[trigger] metadata.unknown.contains_key(b)
                        ==> a == b
                &&& metadata.conf_state matches Some(members) ==> members.has_one_form()
            }
        },
{
}

/// What fields that a message does not define count for: nothing where there are none, and with one
/// more field what its values count for. A value of 32 bits counts for 9 bytes, one of 64 bits for
/// 13, a varint for 15, and another one for 10 more than its length.
pub proof fn law_size_of_fields_that_are_not_defined(
    unknown: UnknownView,
    number: u32,
    values: UnknownValuesView,
    lengths: Seq<Seq<u8>>,
    bytes: Seq<u8>,
)
    requires
        unknown.dom().finite(),
        !unknown.contains_key(number),
    ensures
        unknown_size(UnknownView::empty()) == 0,
        unknown_size(unknown.insert(number, values)) == unknown_size(unknown) + 9
            * values.fixed32.len() + 13 * values.fixed64.len() + 15 * values.varint.len()
            + lengths_size(values.length_delimited),
        lengths_size(Seq::empty()) == 0,
        lengths_size(lengths.push(bytes)) == lengths_size(lengths) + bytes.len() + 10,
        are_field_numbers(unknown) <==> forall|n: u32| #[trigger]
            unknown.contains_key(n) ==> 1 <= n <= 0x1fff_ffff,
{
    lemma_no_unknown_takes_nothing();
    assert(lengths.push(bytes).drop_last() =~= lengths);
    let more = unknown.insert(number, values);
    let add = |size: nat, n: u32| size + unknown[n].size();
    let add_more = |size: nat, n: u32| size + more[n].size();
    assert(more.dom() =~= unknown.dom().insert(number));
    assert(vstd::set::fold::is_fun_commutative(add_more));
    vstd::set::fold::lemma_fold_insert(unknown.dom(), 0nat, add_more, number);
    lemma_fold_agrees(unknown.dom(), unknown, more);
}

/// Fields that two messages share count for the same.
proof fn lemma_fold_agrees(numbers: Set<u32>, a: UnknownView, b: UnknownView)
    requires
        numbers.finite(),
        forall|n: u32| numbers.contains(n) ==> #[trigger] a[n] == b[n],
    ensures
        numbers.fold(0nat, |size: nat, n: u32| size + a[n].size()) == numbers.fold(
            0nat,
            |size: nat, n: u32| size + b[n].size(),
        ),
    decreases numbers.len(),
{
    let add_a = |size: nat, n: u32| size + a[n].size();
    let add_b = |size: nat, n: u32| size + b[n].size();
    if numbers.len() == 0 {
        assert(numbers =~= Set::<u32>::empty());
        vstd::set::fold::lemma_fold_empty(0nat, add_a);
        vstd::set::fold::lemma_fold_empty(0nat, add_b);
    } else {
        let n = numbers.choose();
        let fewer = numbers.remove(n);
        assert(fewer.insert(n) =~= numbers);
        lemma_fold_agrees(fewer, a, b);
        assert(vstd::set::fold::is_fun_commutative(add_a));
        assert(vstd::set::fold::is_fun_commutative(add_b));
        vstd::set::fold::lemma_fold_insert(fewer, 0nat, add_a, n);
        vstd::set::fold::lemma_fold_insert(fewer, 0nat, add_b, n);
        assert(a[n] == b[n]);
    }
}

/// A message can be written exactly if its fields have numbers that fields can have and what it
/// carries, with the fields that it does not define, stays 64 bytes below the size that 32 bits can
/// count.
pub proof fn law_when_messages_can_be_written(
    entry: EntryView,
    hard_state: HardStateView,
    conf_state: ConfStateView,
    snapshot: SnapshotView,
)
    ensures
        entry_fits(entry) <==> are_field_numbers(entry.unknown) && entry.data.len()
            + entry.context.len() + unknown_size(entry.unknown) <= u32::MAX - 64,
        hard_state_fits(hard_state) <==> are_field_numbers(hard_state.unknown) && unknown_size(
            hard_state.unknown,
        ) <= u32::MAX - 64,
        conf_state_fits(conf_state) <==> are_field_numbers(conf_state.unknown) && 11 * (
        conf_state.voters.len() + conf_state.learners.len() + conf_state.voters_outgoing.len()
            + conf_state.learners_next.len()) + unknown_size(conf_state.unknown) <= u32::MAX - 64,
        snapshot.metadata is None ==> (snapshot_fits(snapshot) <==> are_field_numbers(
            snapshot.unknown,
        ) && snapshot.data.len() + unknown_size(snapshot.unknown) <= u32::MAX - 64),
        snapshot.metadata matches Some(metadata) ==> {
            &&& metadata.conf_state is None ==> (snapshot_fits(snapshot) <==> are_field_numbers(
                snapshot.unknown,
            ) && are_field_numbers(metadata.unknown) && snapshot.data.len() + unknown_size(
                snapshot.unknown,
            ) + unknown_size(metadata.unknown) <= u32::MAX - 64)
            &&& metadata.conf_state matches Some(members) ==> (snapshot_fits(snapshot)
                <==> are_field_numbers(snapshot.unknown) && are_field_numbers(metadata.unknown)
                && are_field_numbers(members.unknown) && snapshot.data.len() + unknown_size(
                snapshot.unknown,
            ) + unknown_size(metadata.unknown) + unknown_size(members.unknown) + 11 * (
            members.voters.len() + members.learners.len() + members.voters_outgoing.len()
                + members.learners_next.len()) <= u32::MAX - 64)
        },
{
}

} // verus!
