//! The storage's records: what they hold, and the changes that write them.
use vstd::prelude::*;

use crate::batch::WriteBatch;
use crate::batch::WriteOpView;
use crate::codec::decoded_conf_state;
use crate::codec::decoded_entry;
use crate::codec::decoded_hard_state;
use crate::codec::decoded_snapshot;
use crate::codec::encoded_conf_state;
use crate::codec::encoded_entry;
use crate::codec::encoded_hard_state;
use crate::codec::encoded_snapshot;
use crate::error::Error;
use crate::keys::entry_key;
use crate::keys::single_key;
use crate::keys::CONF_STATE_DISCRIMINATOR;
use crate::keys::HARD_STATE_DISCRIMINATOR;
use crate::keys::SNAPSHOT;
use crate::messages::ConfStateView;
use crate::messages::EntryView;
use crate::messages::HardState;
use crate::messages::HardStateView;
use crate::messages::SnapshotView;

verus! {

/// The outcome of reading the record under one key: its bytes where there is one, or the
/// database's error message.
pub type DbRead = Result<Option<Vec<u8>>, String>;

/// The outcome of reading the record under one key and decoding what was found there: the value
/// or the decoder's error message where there is a record, or the database's error message.
pub type DecodedRead<T> = Result<Option<Result<T, String>>, String>;

/// The snapshot that a record holds; the empty one where there is no record.
pub open spec fn stored_snapshot(record: Option<Seq<u8>>) -> Option<SnapshotView> {
    match record {
        Some(bytes) => decoded_snapshot(bytes),
        None => Some(SnapshotView::initial()),
    }
}

/// The hard state that a record holds; the initial one where there is no record.
pub open spec fn stored_hard_state(record: Option<Seq<u8>>) -> Option<HardStateView> {
    match record {
        Some(bytes) => decoded_hard_state(bytes),
        None => Some(HardStateView::initial()),
    }
}

/// The members that a record holds; none where there is no record.
pub open spec fn stored_conf_state(record: Option<Seq<u8>>) -> Option<ConfStateView> {
    match record {
        Some(bytes) => decoded_conf_state(bytes),
        None => Some(ConfStateView::initial()),
    }
}

/// The bytes of a record that was read.
pub open spec fn record_bytes(record: Option<Vec<u8>>) -> Option<Seq<u8>> {
    match record {
        Some(bytes) => Some(bytes@),
        None => None,
    }
}

/// What the outcome of reading and decoding a record comes to.
pub open spec fn decoded_record<T>(read: DecodedRead<T>) -> Result<Option<T>, Error> {
    match read {
        Ok(Some(Ok(value))) => Ok(Some(value)),
        Ok(Some(Err(err))) => Err(Error::Decode(err)),
        Ok(None) => Ok(None),
        Err(err) => Err(Error::RocksDbRaw(err)),
    }
}

pub(crate) fn take_decoded<T>(read: DecodedRead<T>) -> (r: Result<Option<T>, Error>)
    ensures
        r == decoded_record(read),
{
    match read {
        Ok(Some(Ok(value))) => Ok(Some(value)),
        Ok(Some(Err(err))) => Err(Error::Decode(err)),
        Ok(None) => Ok(None),
        Err(err) => Err(Error::RocksDbRaw(err)),
    }
}

/// The change that writes one record.
pub open spec fn put_ops(key: Seq<u8>, value: Seq<u8>) -> Seq<WriteOpView> {
    seq![WriteOpView::Put { key, value }]
}

pub(crate) fn put_bytes(key: &[u8], value: Vec<u8>) -> (batch: WriteBatch)
    ensures
        batch@ == put_ops(key@, value@),
{
    let mut batch = WriteBatch::new();
    batch.put(key, value);
    assert(batch@ =~= put_ops(key@, value@));
    batch
}

/// The bytes are a stored form of the entry.
pub open spec fn stores_entry(bytes: Seq<u8>, entry: EntryView) -> bool {
    &&& entry.reads_back() ==> decoded_entry(bytes) == Some(entry)
    &&& entry.has_one_form() ==> bytes == encoded_entry(entry)
}

/// The bytes are a stored form of the hard state.
pub open spec fn stores_hard_state(bytes: Seq<u8>, hard_state: HardStateView) -> bool {
    &&& hard_state.reads_back() ==> decoded_hard_state(bytes) == Some(hard_state)
    &&& hard_state.has_one_form() ==> bytes == encoded_hard_state(hard_state)
}

/// The bytes are a stored form of the conf state.
pub open spec fn stores_conf_state(bytes: Seq<u8>, conf_state: ConfStateView) -> bool {
    &&& conf_state.reads_back() ==> decoded_conf_state(bytes) == Some(conf_state)
    &&& conf_state.has_one_form() ==> bytes == encoded_conf_state(conf_state)
}

/// The bytes are a stored form of the snapshot.
pub open spec fn stores_snapshot(bytes: Seq<u8>, snapshot: SnapshotView) -> bool {
    &&& snapshot.reads_back() ==> decoded_snapshot(bytes) == Some(snapshot)
    &&& snapshot.has_one_form() ==> bytes == encoded_snapshot(snapshot)
}

/// The change writes the entry.
pub open spec fn puts_entry(op: WriteOpView, entry: EntryView) -> bool {
    op matches WriteOpView::Put { key, value } && key == entry_key(entry.index) && stores_entry(
        value,
        entry,
    )
}

/// The change writes the hard state.
pub open spec fn puts_hard_state(op: WriteOpView, hard_state: HardStateView) -> bool {
    op matches WriteOpView::Put { key, value } && key == single_key(HARD_STATE_DISCRIMINATOR)
        && stores_hard_state(value, hard_state)
}

/// The change writes the members.
pub open spec fn puts_conf_state(op: WriteOpView, conf_state: ConfStateView) -> bool {
    op matches WriteOpView::Put { key, value } && key == single_key(CONF_STATE_DISCRIMINATOR)
        && stores_conf_state(value, conf_state)
}

/// The change writes the snapshot.
pub open spec fn puts_snapshot(op: WriteOpView, snapshot: SnapshotView) -> bool {
    op matches WriteOpView::Put { key, value } && key == single_key(SNAPSHOT) && stores_snapshot(
        value,
        snapshot,
    )
}

/// The changes write these entries, in order.
pub open spec fn puts_entries(ops: Seq<WriteOpView>, entries: Seq<EntryView>) -> bool {
    &&& ops.len() == entries.len()
    &&& forall|i: int| 0 <= i < entries.len() ==> puts_entry(ops[i], #[trigger] entries[i])
}

/// The changes that delete the entries from `from` up to and including `to`, in order.
pub open spec fn entry_deletes(from: int, to: int) -> Seq<WriteOpView> {
    Seq::new(
        if from <= to {
            (to - from + 1) as nat
        } else {
            0
        },
        |i: int| WriteOpView::Delete { key: entry_key((from + i) as u64) },
    )
}

/// The changes make `entries` the end of a log that ended at `last_index`: whatever lies behind
/// them goes, then they are written.
pub open spec fn appends(
    ops: Seq<WriteOpView>,
    entries: Seq<EntryView>,
    last_index: u64,
) -> bool {
    let deletes = entry_deletes(entries.last().index + 1, last_index as int);
    &&& ops.len() == deletes.len() + entries.len()
    &&& ops.take(deletes.len() as int) == deletes
    &&& puts_entries(ops.skip(deletes.len() as int), entries)
}

/// The smaller of two indices.
pub open spec fn min_index(a: u64, b: u64) -> u64 {
    if a <= b {
        a
    } else {
        b
    }
}

/// The larger of two indices.
pub open spec fn max_index(a: u64, b: u64) -> u64 {
    if a <= b {
        b
    } else {
        a
    }
}

/// The hard state once a snapshot is applied: neither the term nor the commit index goes back.
pub open spec fn advanced_hard_state(
    hard_state: HardStateView,
    snapshot: SnapshotView,
) -> HardStateView {
    HardStateView {
        term: max_index(hard_state.term, snapshot.term()),
        commit: max_index(hard_state.commit, snapshot.index()),
        ..hard_state
    }
}

/// The hard state once a snapshot with this term and index is applied.
pub fn advance_hard_state(hard_state: HardState, term: u64, index: u64) -> (advanced: HardState)
    ensures
        advanced@ == (HardStateView {
            term: max_index(hard_state.term, term),
            commit: max_index(hard_state.commit, index),
            ..hard_state@
        }),
{
    HardState {
        term: if hard_state.term <= term {
            term
        } else {
            hard_state.term
        },
        commit: if hard_state.commit <= index {
            index
        } else {
            hard_state.commit
        },
        vote: hard_state.vote,
        unknown_fields: hard_state.unknown_fields,
    }
}

/// The changes apply a snapshot to a log that spans `first_index` to `last_index`: the members,
/// the hard state and the snapshot are written, then every entry that the snapshot covers goes.
pub open spec fn applies_snapshot(
    ops: Seq<WriteOpView>,
    snapshot: SnapshotView,
    hard_state: HardStateView,
    first_index: u64,
    last_index: u64,
) -> bool {
    &&& ops.len() >= 3
    &&& puts_conf_state(ops[0], snapshot.conf_state())
    &&& puts_hard_state(ops[1], advanced_hard_state(hard_state, snapshot))
    &&& puts_snapshot(ops[2], snapshot)
    &&& ops.skip(3) == entry_deletes(
        first_index as int,
        min_index(snapshot.index(), last_index) as int,
    )
}

} // verus!
