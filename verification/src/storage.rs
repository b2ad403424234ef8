//! The raft log and the records around it, kept in one column family of a key-value database.
//!
//! The storage itself keeps only the bounds of the log and the snapshot that was asked for. What
//! it reads from the database it is handed as the outcome of the read; what is to be written it
//! gives out as a [`WriteBatch`].
use vstd::prelude::*;

use crate::batch::WriteBatch;
use crate::batch::WriteOpView;
use crate::codec::buffer_clear;
use crate::codec::buffer_to_vec;
use crate::codec::buffer_with_capacity;
use crate::codec::conf_state_fits;
use crate::codec::decoded_entry;
use crate::codec::decoded_snapshot;
use crate::codec::entry_fits;
use crate::codec::hard_state_fits;
use crate::codec::read_conf_state;
use crate::codec::read_entry;
use crate::codec::read_hard_state;
use crate::codec::read_snapshot;
use crate::codec::snapshot_fits;
use crate::codec::write_conf_state;
use crate::codec::write_entry;
use crate::codec::write_hard_state;
use crate::codec::write_snapshot;
use crate::error::Error;
use crate::error::RaftError;
use crate::error::StorageError;
use crate::history::is_allowed;
use crate::history::moved_bounds;
use crate::history::Step;
use crate::keys::hard_state_key;
use crate::keys::key_index;
use crate::keys::log_index_from_key;
use crate::keys::nodes_configuration_key;
use crate::keys::raft_configuration_key;
use crate::keys::raft_entry_key;
use crate::keys::single_key;
use crate::keys::storage_marker_key;
use crate::keys::NODES_CONFIGURATION;
use crate::keys::RAFT_CONFIGURATION;
use crate::keys::RAFT_ENTRY_KEY_LENGTH;
use crate::keys::STORAGE_MARKER;
use crate::laws::contiguous;
use crate::messages::entry_views;
use crate::messages::ConfState;
use crate::messages::ConfStateView;
use crate::messages::Entry;
use crate::messages::HardState;
use crate::messages::HardStateView;
use crate::messages::Snapshot;
use crate::messages::SnapshotView;
use crate::records::appends;
use crate::records::applies_snapshot;
use crate::records::decoded_record;
use crate::records::entry_deletes;
use crate::records::max_index;
use crate::records::put_bytes;
use crate::records::put_ops;
use crate::records::puts_entry;
use crate::records::puts_hard_state;
use crate::records::record_bytes;
use crate::records::stored_conf_state;
use crate::records::stored_hard_state;
use crate::records::stored_snapshot;
use crate::records::stores_conf_state;
use crate::records::stores_entry;
use crate::records::stores_hard_state;
use crate::records::stores_snapshot;
use crate::records::take_decoded;
use crate::records::DbRead;
use crate::records::DecodedRead;
use crate::transaction::Transaction;

verus! {

/// The bounds of the log and the snapshot that was asked for.
pub struct StorageView {
    /// The first index that is not compacted.
    pub first_index: u64,
    /// The last index of the log.
    pub last_index: u64,
    /// Some index if a snapshot up to that index was asked for and is still owed.
    pub requested_snapshot: Option<u64>,
}

pub struct RocksDbStorage {
    first_index: u64,
    last_index: u64,
    requested_snapshot: Option<u64>,
    buffer: bytes::BytesMut,
}

impl View for RocksDbStorage {
    type V = StorageView;

    closed spec fn view(&self) -> StorageView {
        StorageView {
            first_index: self.first_index,
            last_index: self.last_index,
            requested_snapshot: self.requested_snapshot,
        }
    }
}

/// The keys of the first and the last entry that the database holds.
pub struct LogEnds {
    pub first_key: Vec<u8>,
    pub last_key: Vec<u8>,
}

/// Why the records of the database are not those of a storage.
#[derive(Debug)]
pub enum RecoveryError {
    /// The key of an entry does not have the length of one.
    MalformedEntryKey,
    /// The snapshot is no valid message.
    MalformedSnapshot(protobuf::ProtobufError),
    /// The snapshot covers every index that there is.
    ExhaustedIndices,
}

/// The first index of a log that nothing was ever written to.
pub const FIRST_RAFT_INDEX: u64 = 1;

/// Nothing was stored: no raft configuration, no snapshot, no hard state, no members and no log.
pub open spec fn nothing_stored(
    storage: StorageView,
    configured: bool,
    snapshot: SnapshotView,
    hard_state: HardStateView,
    conf_state: ConfStateView,
) -> bool {
    &&& !configured
    &&& snapshot.index() == 0
    &&& hard_state == HardStateView::initial()
    &&& conf_state == ConfStateView::initial()
    &&& storage.first_index == FIRST_RAFT_INDEX
    &&& storage.last_index == 0
}

/// Whether both keys have the length of an entry's key.
pub open spec fn well_formed_ends(ends: LogEnds) -> bool {
    &&& ends.first_key@.len() == RAFT_ENTRY_KEY_LENGTH
    &&& ends.last_key@.len() == RAFT_ENTRY_KEY_LENGTH
}

/// The index of the snapshot that a record holds, if there is one.
pub open spec fn stored_snapshot_index(record: Option<Seq<u8>>) -> Option<u64> {
    match record {
        Some(bytes) => Some(decoded_snapshot(bytes)->0.index()),
        None => None,
    }
}

/// The bounds of the log, from the ends of what the database holds or, where it holds no entry,
/// from the snapshot.
pub open spec fn recovered_bounds(ends: Option<LogEnds>, snapshot_index: Option<u64>) -> (
    int,
    int,
) {
    match ends {
        Some(ends) => (key_index(ends.first_key@), key_index(ends.last_key@)),
        None => match snapshot_index {
            Some(index) => (index + 1, index as int),
            None => (FIRST_RAFT_INDEX as int, 0),
        },
    }
}

/// An index is fine between the bounds of the log.
pub open spec fn checked_index(storage: StorageView, idx: u64) -> Result<(), Error> {
    if idx < storage.first_index {
        Err(Error::Compacted(storage.first_index))
    } else if idx > storage.last_index {
        Err(Error::IndexOutOfBounds { index: idx, last_index: storage.last_index })
    } else {
        Ok(())
    }
}

/// A range without its end is fine when it lies between the bounds of the log.
pub open spec fn checked_range(storage: StorageView, low: u64, high: u64) -> Result<(), Error> {
    if low < storage.first_index {
        Err(Error::Compacted(storage.first_index))
    } else if high > storage.last_index + 1 {
        Err(Error::IndexOutOfBounds { index: high, last_index: storage.last_index })
    } else {
        Ok(())
    }
}

/// The storage once a transaction with these bounds is committed. A snapshot that was asked for
/// is no longer owed when one that reaches as far was applied.
pub open spec fn committed(
    storage: StorageView,
    first_index: u64,
    last_index: u64,
    snapshot_index: Option<u64>,
) -> StorageView {
    StorageView {
        first_index,
        last_index,
        requested_snapshot: match (storage.requested_snapshot, snapshot_index) {
            (Some(requested), Some(applied)) if requested <= applied => None,
            _ => storage.requested_snapshot,
        },
    }
}

/// The stored snapshot is handed out where it reaches `request_index`.
pub open spec fn answers_request(
    r: Result<Snapshot, RaftError>,
    snapshot: SnapshotView,
    request_index: u64,
) -> bool {
    if snapshot.index() >= request_index {
        r matches Ok(value) && value@ == snapshot
    } else {
        r matches Err(RaftError::Store(StorageError::SnapshotTemporarilyUnavailable))
    }
}

/// The storage after a snapshot up to `request_index` was asked for: what the stored one does
/// not cover is owed, and of several requests the furthest.
pub open spec fn asked_for(
    storage: StorageView,
    snapshot: SnapshotView,
    request_index: u64,
) -> StorageView {
    let owed: u64 = match storage.requested_snapshot {
        Some(index) => index,
        None => 0,
    };
    if snapshot.index() < request_index && owed < request_index {
        StorageView { requested_snapshot: Some(request_index), ..storage }
    } else {
        storage
    }
}

impl RocksDbStorage {
    /// Finds the bounds of the log, given the ends of what the database holds and, for where it
    /// holds no entry, the index of the stored snapshot.
    pub fn find_indices(ends: &Option<LogEnds>, snapshot_index: Option<u64>) -> (bounds: (u64, u64))
        requires
            match *ends {
                Some(ends) => well_formed_ends(ends),
                None => snapshot_index != Some(u64::MAX),
            },
        ensures
            (bounds.0 as int, bounds.1 as int) == recovered_bounds(*ends, snapshot_index),
    {
        match ends {
            Some(ends) => {
                let first_index = log_index_from_key(ends.first_key.as_slice());
                let last_index = log_index_from_key(ends.last_key.as_slice());
                (first_index, last_index)
            },
            None => match snapshot_index {
                Some(index) => (index + 1, index),
                // the first valid raft index starts at 1, so 0 means there are no replicated raft
                // entries
                None => (FIRST_RAFT_INDEX, 0),
            },
        }
    }

    /// The storage on a database with these records: the ends of the log and, where it holds no
    /// entry, the record of the snapshot.
    pub fn create(ends: &Option<LogEnds>, snapshot: &Option<Vec<u8>>) -> (r: Result<
        Self,
        RecoveryError,
    >)
        ensures
            match (*ends, *snapshot) {
                (Some(ends), _) if !well_formed_ends(ends) => r matches Err(
                    RecoveryError::MalformedEntryKey,
                ),
                (None, Some(bytes)) if decoded_snapshot(bytes@) is None => r matches Err(
                    RecoveryError::MalformedSnapshot(_),
                ),
                (None, Some(bytes)) if decoded_snapshot(bytes@)->0.index() == u64::MAX => {
                    r matches Err(RecoveryError::ExhaustedIndices)
                },
                _ => {
                    &&& r matches Ok(storage)
                    &&& (storage@.first_index as int, storage@.last_index as int)
                        == recovered_bounds(
                        *ends,
                        stored_snapshot_index(record_bytes(*snapshot)),
                    )
                    &&& storage@.requested_snapshot is None
                },
            },
    {
        let mut snapshot_index: Option<u64> = None;
        match ends {
            Some(ends) => {
                if ends.first_key.len() != RAFT_ENTRY_KEY_LENGTH || ends.last_key.len()
                    != RAFT_ENTRY_KEY_LENGTH {
                    return Err(RecoveryError::MalformedEntryKey);
                }
            },
            None => {
                if let Some(bytes) = snapshot {
                    match read_snapshot(bytes.as_slice()) {
                        Ok(snapshot) => {
                            if snapshot.index() == u64::MAX {
                                return Err(RecoveryError::ExhaustedIndices);
                            }
                            snapshot_index = Some(snapshot.index());
                        },
                        Err(err) => {
                            return Err(RecoveryError::MalformedSnapshot(err));
                        },
                    }
                }
            },
        }
        let (first_index, last_index) = Self::find_indices(ends, snapshot_index);
        Ok(
            RocksDbStorage {
                first_index,
                last_index,
                requested_snapshot: None,
                buffer: buffer_with_capacity(1024),
            },
        )
    }

    /// Whether nothing was ever stored, given what was read.
    pub fn is_empty<T>(
        &self,
        raft_configuration: Result<Option<T>, Error>,
        snapshot: Result<Snapshot, Error>,
        hard_state: Result<HardState, Error>,
        conf_state: Result<ConfState, Error>,
    ) -> (r: Result<bool, Error>)
        ensures
            match raft_configuration {
                Err(err) => r == Err::<bool, Error>(err),
                Ok(Some(_)) => r == Ok::<bool, Error>(false),
                Ok(None) => match snapshot {
                    Err(err) => r == Err::<bool, Error>(err),
                    Ok(snapshot) if snapshot@.index() != 0 => r == Ok::<bool, Error>(false),
                    Ok(_) => match hard_state {
                        Err(err) => r == Err::<bool, Error>(err),
                        Ok(hard_state) if hard_state@ != HardStateView::initial() => r == Ok::<
                            bool,
                            Error,
                        >(false),
                        Ok(_) => match conf_state {
                            Err(err) => r == Err::<bool, Error>(err),
                            Ok(conf_state) => r == Ok::<bool, Error>(
                                conf_state@ == ConfStateView::initial() && self@.first_index == 1
                                    && self@.last_index == 0,
                            ),
                        },
                    },
                },
            },
            (raft_configuration, snapshot, hard_state, conf_state) matches (
                Ok(configuration),
                Ok(snapshot),
                Ok(hard_state),
                Ok(conf_state),
            ) ==> r == Ok::<bool, Error>(
                nothing_stored(
                    self@,
                    configuration is Some,
                    snapshot@,
                    hard_state@,
                    conf_state@,
                ),
            ),
    {
        match raft_configuration {
            Ok(None) => {},
            Ok(Some(_)) => {
                return Ok(false);
            },
            Err(err) => {
                return Err(err);
            },
        }
        match snapshot {
            Ok(snapshot) => {
                if !snapshot.is_empty() {
                    return Ok(false);
                }
            },
            Err(err) => {
                return Err(err);
            },
        }
        match hard_state {
            Ok(hard_state) => {
                if !hard_state.is_default() {
                    return Ok(false);
                }
            },
            Err(err) => {
                return Err(err);
            },
        }
        match conf_state {
            Ok(conf_state) => Ok(
                conf_state.is_default() && self.get_first_index() == 1 && self.get_last_index()
                    == 0,
            ),
            Err(err) => Err(err),
        }
    }

    /// The index up to which a snapshot was asked for and is still owed.
    pub fn requested_snapshot(&self) -> (index: Option<u64>)
        ensures
            index == self@.requested_snapshot,
    {
        self.requested_snapshot
    }

    /// Answers a request for a snapshot up to `request_index` with the stored one, if it reaches
    /// that far.
    pub fn answer_snapshot_request(&mut self, request_index: u64, snapshot: Snapshot) -> (r: Result<
        Snapshot,
        RaftError,
    >)
        ensures
            answers_request(r, snapshot@, request_index),
            r is Ok <==> request_index <= snapshot@.index(),
            final(self)@ == asked_for(old(self)@, snapshot@, request_index),
            final(self)@.first_index == old(self)@.first_index,
            final(self)@.last_index == old(self)@.last_index,
            r is Err ==> (final(self)@.requested_snapshot matches Some(owed) && owed
                >= request_index),
    {
        if snapshot.index() >= request_index {
            return Ok(snapshot);
        }
        let owed: u64 = match self.requested_snapshot {
            Some(index) => index,
            None => 0,
        };
        if request_index > owed {
            self.requested_snapshot = Some(request_index);
        }
        Err(RaftError::Store(StorageError::SnapshotTemporarilyUnavailable))
    }

    /// The hard state, from what was read under its key.
    pub fn get_hard_state(&self, read: DbRead) -> (r: Result<HardState, Error>)
        ensures
            match read {
                Ok(record) => match stored_hard_state(record_bytes(record)) {
                    Some(hard_state) => r matches Ok(value) && value@ == hard_state
                        && value@.reads_back(),
                    None => r matches Err(Error::EncodeProto(_)),
                },
                Err(err) => r == Err::<HardState, Error>(Error::RocksDbRaw(err)),
            },
    {
        match read {
            Ok(Some(bytes)) => match read_hard_state(bytes.as_slice()) {
                Ok(hard_state) => Ok(hard_state),
                Err(err) => Err(Error::EncodeProto(err)),
            },
            Ok(None) => Ok(HardState::default()),
            Err(err) => Err(Error::RocksDbRaw(err)),
        }
    }

    /// The members of the raft group, from what was read under their key.
    pub fn get_conf_state(&self, read: DbRead) -> (r: Result<ConfState, Error>)
        ensures
            match read {
                Ok(record) => match stored_conf_state(record_bytes(record)) {
                    Some(conf_state) => r matches Ok(value) && value@ == conf_state
                        && value@.reads_back(),
                    None => r matches Err(Error::EncodeProto(_)),
                },
                Err(err) => r == Err::<ConfState, Error>(Error::RocksDbRaw(err)),
            },
    {
        match read {
            Ok(Some(bytes)) => match read_conf_state(bytes.as_slice()) {
                Ok(conf_state) => Ok(conf_state),
                Err(err) => Err(Error::EncodeProto(err)),
            },
            Ok(None) => Ok(ConfState::default()),
            Err(err) => Err(Error::RocksDbRaw(err)),
        }
    }

    /// The snapshot, from what was read under its key.
    pub fn get_snapshot(&self, read: DbRead) -> (r: Result<Snapshot, Error>)
        ensures
            match read {
                Ok(record) => match stored_snapshot(record_bytes(record)) {
                    Some(snapshot) => r matches Ok(value) && value@ == snapshot
                        && value@.reads_back(),
                    None => r matches Err(Error::EncodeProto(_)),
                },
                Err(err) => r == Err::<Snapshot, Error>(Error::RocksDbRaw(err)),
            },
    {
        match read {
            Ok(Some(bytes)) => match read_snapshot(bytes.as_slice()) {
                Ok(snapshot) => Ok(snapshot),
                Err(err) => Err(Error::EncodeProto(err)),
            },
            Ok(None) => Ok(Snapshot::default()),
            Err(err) => Err(Error::RocksDbRaw(err)),
        }
    }

    /// An entry of the log, from what was read under its key.
    pub fn get_entry(&self, read: DbRead) -> (r: Result<Option<Entry>, Error>)
        ensures
            match read {
                Ok(Some(bytes)) => match decoded_entry(bytes@) {
                    Some(entry) => r matches Ok(Some(value)) && value@ == entry
                        && value@.reads_back(),
                    None => r matches Err(Error::EncodeProto(_)),
                },
                Ok(None) => r matches Ok(None),
                Err(err) => r == Err::<Option<Entry>, Error>(Error::RocksDbRaw(err)),
            },
    {
        match read {
            Ok(Some(bytes)) => match read_entry(bytes.as_slice()) {
                Ok(entry) => Ok(Some(entry)),
                Err(err) => Err(Error::EncodeProto(err)),
            },
            Ok(None) => Ok(None),
            Err(err) => Err(Error::RocksDbRaw(err)),
        }
    }

    /// The storage marker, from what was read and decoded under its key.
    pub fn get_marker<T>(&self, read: DecodedRead<T>) -> (r: Result<Option<T>, Error>)
        ensures
            r == decoded_record(read),
    {
        take_decoded(read)
    }

    /// The raft configuration, from what was read and decoded under its key.
    pub fn get_raft_configuration<T>(&self, read: DecodedRead<T>) -> (r: Result<Option<T>, Error>)
        ensures
            r == decoded_record(read),
    {
        take_decoded(read)
    }

    /// The nodes configuration, from what was read and decoded under its key.
    pub fn get_nodes_configuration<T>(&self, read: DecodedRead<T>) -> (r: Result<Option<T>, Error>)
        ensures
            r == decoded_record(read),
    {
        take_decoded(read)
    }

    /// The batch that stores the hard state.
    pub fn store_hard_state(&mut self, hard_state: HardState) -> (r: Result<WriteBatch, Error>)
        requires
            hard_state_fits(hard_state@),
        ensures
            r matches Ok(batch) && batch@.len() == 1 && puts_hard_state(batch@[0], hard_state@),
            final(self)@ == old(self)@,
    {
        match self.encode_hard_state(&hard_state) {
            Ok(bytes) => Ok(put_bytes(hard_state_key().as_slice(), bytes)),
            Err(err) => Err(err),
        }
    }

    /// The batch that stores the storage marker.
    pub fn store_marker(&mut self, marker: Vec<u8>) -> (batch: WriteBatch)
        ensures
            batch@ == put_ops(single_key(STORAGE_MARKER), marker@),
            final(self)@ == old(self)@,
    {
        put_bytes(storage_marker_key().as_slice(), marker)
    }

    /// The batch that stores a raft configuration, given the outcome of encoding it.
    pub fn store_raft_configuration(&mut self, encoded: Result<Vec<u8>, String>) -> (r: Result<
        WriteBatch,
        Error,
    >)
        ensures
            match encoded {
                Ok(bytes) => r matches Ok(batch) && batch@ == put_ops(
                    single_key(RAFT_CONFIGURATION),
                    bytes@,
                ),
                Err(err) => r == Err::<WriteBatch, Error>(Error::Encode(err)),
            },
            final(self)@ == old(self)@,
    {
        match encoded {
            Ok(bytes) => Ok(put_bytes(raft_configuration_key().as_slice(), bytes)),
            Err(err) => Err(Error::Encode(err)),
        }
    }

    /// The batch that stores a nodes configuration, given the outcome of encoding it.
    pub fn store_nodes_configuration(&mut self, encoded: Result<Vec<u8>, String>) -> (r: Result<
        WriteBatch,
        Error,
    >)
        ensures
            match encoded {
                Ok(bytes) => r matches Ok(batch) && batch@ == put_ops(
                    single_key(NODES_CONFIGURATION),
                    bytes@,
                ),
                Err(err) => r == Err::<WriteBatch, Error>(Error::Encode(err)),
            },
            final(self)@ == old(self)@,
    {
        match encoded {
            Ok(bytes) => Ok(put_bytes(nodes_configuration_key().as_slice(), bytes)),
            Err(err) => Err(Error::Encode(err)),
        }
    }

    /// Starts a transaction that applies a snapshot; see [`Transaction::apply_snapshot`].
    pub fn apply_snapshot(
        &mut self,
        snapshot: &Snapshot,
        hard_state: Result<HardState, Error>,
    ) -> (r: Result<Transaction<'_>, Error>)
        requires
            old(self)@.first_index <= snapshot@.index() ==> {
                &&& snapshot_fits(snapshot@)
                &&& snapshot@.index() < u64::MAX
                &&& hard_state matches Ok(hard_state) ==> hard_state_fits(hard_state@)
            },
        ensures
            match hard_state {
                Err(err) if snapshot@.index() >= old(self)@.first_index => {
                    &&& r == Err::<Transaction<'_>, Error>(err)
                    &&& final(self)@ == old(self)@
                },
                _ => {
                    &&& r matches Ok(txn)
                    &&& (*txn.storage)@ == old(self)@
                    &&& *final(txn.storage) == *final(self)
                    &&& snapshot@.index() < old(self)@.first_index ==> {
                        &&& txn.staged@.batch == Seq::<WriteOpView>::empty()
                        &&& txn.staged@.first_index == old(self)@.first_index
                        &&& txn.staged@.last_index == old(self)@.last_index
                        &&& txn.staged@.snapshot_index is None
                    }
                    &&& snapshot@.index() >= old(self)@.first_index ==> {
                        &&& applies_snapshot(
                            txn.staged@.batch,
                            snapshot@,
                            hard_state->Ok_0@,
                            old(self)@.first_index,
                            old(self)@.last_index,
                        )
                        &&& txn.staged@.first_index == snapshot@.index() + 1
                        &&& txn.staged@.last_index == max_index(
                            old(self)@.last_index,
                            snapshot@.index(),
                        )
                        &&& txn.staged@.snapshot_index == Some(snapshot@.index())
                    }
                },
            },
    {
        let mut txn = self.txn();
        match txn.apply_snapshot(snapshot, hard_state) {
            Ok(()) => {
                assert(txn.staged@.batch.skip(0) =~= txn.staged@.batch);
                Ok(txn)
            },
            Err(err) => Err(err),
        }
    }

    /// Whether the log holds the entry at `idx`.
    pub fn check_index(&self, idx: u64) -> (r: Result<(), Error>)
        ensures
            r == checked_index(self@, idx),
            r is Ok <==> self@.first_index <= idx <= self@.last_index,
    {
        if idx < self.get_first_index() {
            return Err(Error::Compacted(self.get_first_index()));
        } else if idx > self.get_last_index() {
            return Err(
                Error::IndexOutOfBounds { index: idx, last_index: self.get_last_index() },
            );
        }
        Ok(())
    }

    /// Whether the log holds the entries from `low` up to but not including `high`.
    pub fn check_range(&self, low: u64, high: u64) -> (r: Result<(), Error>)
        requires
            low < high,
        ensures
            r == checked_range(self@, low, high),
            r is Ok <==> self@.first_index <= low && high <= self@.last_index + 1,
    {
        if low < self.get_first_index() {
            return Err(Error::Compacted(self.get_first_index()));
        }
        // high is exclusive
        if high - 1 > self.get_last_index() {
            return Err(
                Error::IndexOutOfBounds { index: high, last_index: self.get_last_index() },
            );
        }
        Ok(())
    }

    /// Makes `entries` the end of the log: they overwrite what the log holds from the first of
    /// them on. The batch is to be written; the end of the log moves whether or not that succeeds.
    /// Without entries there is nothing to write.
    pub fn append(&mut self, entries: &Vec<Entry>) -> (r: Result<Option<WriteBatch>, Error>)
        requires
            entries@.len() > 0 ==> {
                &&& old(self)@.first_index <= entries@[0].index <= old(self)@.last_index + 1
                &&& entries@.last().index < u64::MAX
            },
            forall|i: int| 0 <= i < entries@.len() ==> entry_fits(#[trigger] entries@[i]@),
        ensures
            entries@.len() == 0 ==> {
                &&& r matches Ok(None)
                &&& final(self)@ == old(self)@
            },
            entries@.len() > 0 ==> {
                &&& r matches Ok(Some(batch))
                &&& appends(batch@, entry_views(entries@), old(self)@.last_index)
                &&& contiguous(entry_views(entries@), entries@[0].index as int) ==> {
                    let step = Step::Append { entries: entry_views(entries@), ops: batch@ };
                    &&& is_allowed(old(self)@.first_index, old(self)@.last_index, step)
                    &&& (final(self)@.first_index, final(self)@.last_index) == moved_bounds(
                        old(self)@.first_index,
                        old(self)@.last_index,
                        step,
                    )
                }
                &&& final(self)@ == (StorageView {
                    last_index: entries@.last().index,
                    ..old(self)@
                })
            },
    {
        if entries.len() == 0 {
            return Ok(None);
        }
        let last_entry_index: u64 = entries[entries.len() - 1].index;
        let previous_last_index: u64 = self.last_index;
        let ghost deletes = entry_deletes(last_entry_index + 1, previous_last_index as int);
        let mut write_batch = WriteBatch::new();

        // delete all entries that are not being overwritten but have a higher index
        let mut deleted: u64 = last_entry_index;
        assert(write_batch@ =~= deletes.take(0));
        while deleted < previous_last_index
            invariant
                last_entry_index <= deleted,
                deleted <= previous_last_index || deleted == last_entry_index,
                deletes == entry_deletes(last_entry_index + 1, previous_last_index as int),
                write_batch@ == deletes.take(deleted - last_entry_index),
            decreases previous_last_index - deleted,
        {
            deleted = deleted + 1;
            write_batch.delete(raft_entry_key(deleted).as_slice());
            assert(write_batch@ =~= deletes.take(deleted - last_entry_index));
        }
        assert(write_batch@ =~= deletes);

        let mut i: usize = 0;
        while i < entries.len()
            invariant
                i <= entries@.len(),
                forall|j: int| 0 <= j < entries@.len() ==> entry_fits(#[trigger] entries@[j]@),
                write_batch@.len() == deletes.len() + i,
                write_batch@.take(deletes.len() as int) == deletes,
                forall|j: int|
                    0 <= j < i ==> puts_entry(
                        write_batch@[deletes.len() + j],
                        #[trigger] entry_views(entries@)[j],
                    ),
                self@ == old(self)@,
            decreases entries@.len() - i,
        {
            let entry = &entries[i];
            let ghost before = write_batch@;
            assert(entry_views(entries@)[i as int] == entry@);
            match self.encode_entry(entry) {
                Ok(bytes) => {
                    write_batch.put(raft_entry_key(entry.index).as_slice(), bytes);
                },
                Err(err) => {
                    return Err(err);
                },
            }
            i = i + 1;
            assert(write_batch@.take(deletes.len() as int) =~= before.take(deletes.len() as int));
        }
        self.last_index = last_entry_index;
        Ok(Some(write_batch))
    }

    /// How the outcome of writing a batch is reported.
    pub fn commit_write_batch(written: Result<(), String>) -> (r: Result<(), Error>)
        ensures
            r == match written {
                Ok(()) => Ok::<(), Error>(()),
                Err(err) => Err::<(), Error>(Error::RocksDb(err)),
            },
    {
        match written {
            Ok(()) => Ok(()),
            Err(err) => Err(Error::RocksDb(err)),
        }
    }

    /// The last index of the log.
    pub fn get_last_index(&self) -> (index: u64)
        ensures
            index == self@.last_index,
    {
        self.last_index
    }

    /// The first index that is not compacted.
    pub fn get_first_index(&self) -> (index: u64)
        ensures
            index == self@.first_index,
    {
        self.first_index
    }

    /// Takes over the bounds of a transaction whose changes were written.
    pub(crate) fn take_over(
        &mut self,
        first_index: u64,
        last_index: u64,
        snapshot_index: Option<u64>,
    )
        ensures
            final(self)@ == committed(old(self)@, first_index, last_index, snapshot_index),
            final(self)@.first_index == first_index,
            final(self)@.last_index == last_index,
    {
        self.first_index = first_index;
        self.last_index = last_index;
        if let Some(snapshot_index) = snapshot_index {
            if let Some(requested_snapshot) = self.requested_snapshot {
                if requested_snapshot <= snapshot_index {
                    self.requested_snapshot = None;
                }
            }
        }
    }

    /// Starts a transaction.
    pub fn txn(&mut self) -> (txn: Transaction<'_>)
        ensures
            (*txn.storage)@ == old(self)@,
            *final(txn.storage) == *final(self),
            txn.staged@.batch == Seq::<WriteOpView>::empty(),
            txn.staged@.first_index == old(self)@.first_index,
            txn.staged@.last_index == old(self)@.last_index,
            txn.staged@.snapshot_index is None,
    {
        Transaction::new(self)
    }

    /// The stored form of an entry.
    pub(crate) fn encode_entry(&mut self, entry: &Entry) -> (r: Result<Vec<u8>, Error>)
        requires
            entry_fits(entry@),
        ensures
            r matches Ok(bytes) && stores_entry(bytes@, entry@),
            final(self)@ == old(self)@,
    {
        buffer_clear(&mut self.buffer);
        match write_entry(entry, &mut self.buffer) {
            Ok(()) => Ok(buffer_to_vec(&self.buffer)),
            Err(err) => Err(Error::EncodeProto(err)),
        }
    }

    /// The stored form of a hard state.
    pub(crate) fn encode_hard_state(&mut self, hard_state: &HardState) -> (r: Result<
        Vec<u8>,
        Error,
    >)
        requires
            hard_state_fits(hard_state@),
        ensures
            r matches Ok(bytes) && stores_hard_state(bytes@, hard_state@),
            final(self)@ == old(self)@,
    {
        buffer_clear(&mut self.buffer);
        match write_hard_state(hard_state, &mut self.buffer) {
            Ok(()) => Ok(buffer_to_vec(&self.buffer)),
            Err(err) => Err(Error::EncodeProto(err)),
        }
    }

    /// The stored form of a conf state.
    pub(crate) fn encode_conf_state(&mut self, conf_state: &ConfState) -> (r: Result<
        Vec<u8>,
        Error,
    >)
        requires
            conf_state_fits(conf_state@),
        ensures
            r matches Ok(bytes) && stores_conf_state(bytes@, conf_state@),
            final(self)@ == old(self)@,
    {
        buffer_clear(&mut self.buffer);
        match write_conf_state(conf_state, &mut self.buffer) {
            Ok(()) => Ok(buffer_to_vec(&self.buffer)),
            Err(err) => Err(Error::EncodeProto(err)),
        }
    }

    /// The stored form of a snapshot.
    pub(crate) fn encode_snapshot(&mut self, snapshot: &Snapshot) -> (r: Result<
        Vec<u8>,
        Error,
    >)
        requires
            snapshot_fits(snapshot@),
        ensures
            r matches Ok(bytes) && stores_snapshot(bytes@, snapshot@),
            final(self)@ == old(self)@,
    {
        buffer_clear(&mut self.buffer);
        match write_snapshot(snapshot, &mut self.buffer) {
            Ok(()) => Ok(buffer_to_vec(&self.buffer)),
            Err(err) => Err(Error::EncodeProto(err)),
        }
    }
}

} // verus!
