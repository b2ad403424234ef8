//! What raft asks of the storage: its state, its entries, their terms and its snapshot.
use vstd::prelude::*;

use crate::codec::decoded_entry;
use crate::codec::read_entry;
use crate::error::raft_error;
use crate::error::Cause;
use crate::error::Error;
use crate::error::RaftError;
use crate::error::StorageError;
use crate::keys::entry_key;
use crate::keys::raft_entry_key;
use crate::keys::single_key;
use crate::keys::snapshot_key;
use crate::keys::RAFT_ENTRY_KEY_LENGTH;
use crate::keys::SNAPSHOT;
use crate::messages::entry_views;
use crate::messages::ConfState;
use crate::messages::Entry;
use crate::messages::EntryView;
use crate::messages::HardState;
use crate::messages::Snapshot;
use crate::messages::SnapshotView;
use crate::records::record_bytes;
use crate::records::stored_snapshot;
use crate::records::DbRead;
use crate::storage::answers_request;
use crate::storage::asked_for;
use crate::storage::checked_index;
use crate::storage::checked_range;
use crate::storage::RocksDbStorage;
use crate::storage::StorageView;

verus! {

/// What raft needs to start with.
#[derive(Debug)]
pub struct RaftState {
    pub hard_state: HardState,
    pub conf_state: ConfState,
}

/// How far a walk over the records of a range of entries has come.
pub struct EntryScanView {
    /// The first index of the range.
    pub low: u64,
    /// The index behind the range.
    pub high: u64,
    /// Once the records that were taken are this long together, no more are taken.
    pub max_size: u64,
    /// The length of the records that were taken.
    pub size: nat,
    /// The entries that were taken.
    pub entries: Seq<EntryView>,
}

impl EntryScanView {
    /// A walk that has taken nothing yet.
    pub open spec fn at_start(low: u64, high: u64, max_size: u64) -> EntryScanView {
        EntryScanView { low, high, max_size, size: 0, entries: Seq::empty() }
    }

    /// A record is taken while none was, whatever its length, and then while the limit is not
    /// reached.
    pub open spec fn wants_more(self) -> bool {
        self.size == 0 || self.size < self.max_size
    }

    /// The index that the next record must have.
    pub open spec fn expected_index(self) -> int {
        self.low + self.entries.len()
    }

    /// The walk after one more entry, whose record has this length.
    pub open spec fn taken(self, entry: EntryView, len: nat) -> EntryScanView {
        EntryScanView { size: self.size + len, entries: self.entries.push(entry), ..self }
    }

    /// What raft is told where the next record has another index than the expected one: the
    /// start of the range is gone, or there is a hole in the log.
    pub open spec fn gap(self) -> StorageError {
        if self.entries.len() == 0 {
            StorageError::Compacted
        } else {
            StorageError::Unavailable
        }
    }
}

/// A walk over the records of a range of entries, in the order of their keys.
///
/// While [`EntryScan::wants_more`] and there is a further record in the range, the record is
/// handed to [`EntryScan::on_value`]. [`EntryScan::finish`] gives the entries.
pub struct EntryScan {
    low: u64,
    high: u64,
    max_size: u64,
    size: u128,
    entries: Vec<Entry>,
}

impl View for EntryScan {
    type V = EntryScanView;

    closed spec fn view(&self) -> EntryScanView {
        EntryScanView {
            low: self.low,
            high: self.high,
            max_size: self.max_size,
            size: self.size as nat,
            entries: entry_views(self.entries@),
        }
    }
}

impl EntryScan {
    /// The key at which the range starts.
    pub fn start_key(&self) -> (key: [u8; RAFT_ENTRY_KEY_LENGTH])
        ensures
            key@ == entry_key(self@.low),
    {
        raft_entry_key(self.low)
    }

    /// The key before which the range ends.
    pub fn end_key(&self) -> (key: [u8; RAFT_ENTRY_KEY_LENGTH])
        ensures
            key@ == entry_key(self@.high),
    {
        raft_entry_key(self.high)
    }

    /// Whether a further record is to be taken.
    pub fn wants_more(&self) -> (b: bool)
        ensures
            b == self@.wants_more(),
    {
        !(self.size > 0 && self.size >= self.max_size as u128)
    }

    /// Takes the next record of the range.
    pub fn on_value(&mut self, value: &[u8]) -> (r: Result<(), RaftError>)
        requires
            old(self)@.wants_more(),
        ensures
            match decoded_entry(value@) {
                Some(entry) if entry.index == old(self)@.expected_index() => {
                    &&& r is Ok
                    &&& final(self)@ == old(self)@.taken(entry, value@.len())
                },
                Some(_) => {
                    &&& r == Err::<(), RaftError>(RaftError::Store(old(self)@.gap()))
                    &&& final(self)@ == old(self)@
                },
                None => {
                    &&& r matches Err(RaftError::CodecError(_))
                    &&& final(self)@ == old(self)@
                },
            },
    {
        match read_entry(value) {
            Ok(entry) => self.on_entry(entry, value.len()),
            Err(err) => Err(RaftError::CodecError(err)),
        }
    }

    /// Takes the next entry of the range, whose record is `len` bytes long.
    pub fn on_entry(&mut self, entry: Entry, len: usize) -> (r: Result<(), RaftError>)
        requires
            old(self)@.wants_more(),
        ensures
            entry@.index == old(self)@.expected_index() ==> {
                &&& r is Ok
                &&& final(self)@ == old(self)@.taken(entry@, len as nat)
            },
            entry@.index != old(self)@.expected_index() ==> {
                &&& r == Err::<(), RaftError>(RaftError::Store(old(self)@.gap()))
                &&& final(self)@ == old(self)@
            },
    {
        if self.low as u128 + self.entries.len() as u128 != entry.index as u128 {
            if self.entries.len() == 0 {
                return Err(RaftError::Store(StorageError::Compacted));
            } else {
                // missing raft entries :-(
                return Err(RaftError::Store(StorageError::Unavailable));
            }
        }
        self.entries.push(entry);
        self.size = self.size + len as u128;
        assert(self@.entries =~= old(self)@.entries.push(entry@));
        Ok(())
    }

    /// The entries, given whether the database met an error on the way.
    pub fn finish(self, status: Result<(), String>) -> (r: Result<Vec<Entry>, RaftError>)
        ensures
            match status {
                Ok(()) => r matches Ok(entries) && entry_views(entries@) == self@.entries,
                Err(err) => r == Err::<Vec<Entry>, RaftError>(
                    RaftError::Store(StorageError::Other(Cause::Database(err))),
                ),
            },
    {
        match status {
            Ok(()) => Ok(self.entries),
            Err(err) => Err(RaftError::Store(StorageError::Other(Cause::Database(err)))),
        }
    }
}

/// The key under which the term of the entry at `idx` is found, or what raft is told where the
/// log ends before it: the snapshot's key for what is compacted, else the entry's own.
pub open spec fn term_key_for(storage: StorageView, idx: u64) -> Result<Seq<u8>, RaftError> {
    if idx < storage.first_index {
        Ok(single_key(SNAPSHOT))
    } else {
        match checked_index(storage, idx) {
            Ok(()) => Ok(entry_key(idx)),
            Err(err) => Err(raft_error(err)),
        }
    }
}

/// Of what is compacted, only the term of the last entry is known.
pub open spec fn compacted_term(snapshot: SnapshotView, idx: u64) -> Result<u64, RaftError> {
    if snapshot.index() == idx {
        Ok(snapshot.term())
    } else {
        Err(RaftError::Store(StorageError::Compacted))
    }
}

impl RocksDbStorage {
    /// What raft starts with, given what was read.
    pub fn initial_state(
        &self,
        hard_state: Result<HardState, Error>,
        conf_state: Result<ConfState, Error>,
    ) -> (r: Result<RaftState, RaftError>)
        ensures
            r == match (hard_state, conf_state) {
                (Err(err), _) => Err::<RaftState, RaftError>(raft_error(err)),
                (Ok(_), Err(err)) => Err::<RaftState, RaftError>(raft_error(err)),
                (Ok(hard_state), Ok(conf_state)) => Ok::<RaftState, RaftError>(
                    RaftState { hard_state, conf_state },
                ),
            },
    {
        let hard_state = match hard_state {
            Ok(hard_state) => hard_state,
            Err(err) => {
                return Err(RaftError::from(err));
            },
        };
        match conf_state {
            Ok(conf_state) => Ok(RaftState { hard_state, conf_state }),
            Err(err) => Err(RaftError::from(err)),
        }
    }

    /// Starts reading the entries from `low` up to but not including `high`, until they take
    /// `max_size` bytes.
    pub fn entries(&self, low: u64, high: u64, max_size: Option<u64>) -> (r: Result<
        EntryScan,
        RaftError,
    >)
        requires
            low < high,
        ensures
            match checked_range(self@, low, high) {
                Ok(()) => r matches Ok(scan) && scan@ == EntryScanView::at_start(
                    low,
                    high,
                    match max_size {
                        Some(max_size) => max_size,
                        None => u64::MAX,
                    },
                ),
                Err(err) => r == Err::<EntryScan, RaftError>(raft_error(err)),
            },
    {
        match self.check_range(low, high) {
            Ok(()) => {},
            Err(err) => {
                return Err(RaftError::from(err));
            },
        }
        let max_size: u64 = match max_size {
            Some(max_size) => max_size,
            None => u64::MAX,
        };
        let scan = EntryScan { low, high, max_size, size: 0, entries: Vec::new() };
        assert(scan@.entries =~= Seq::<EntryView>::empty());
        Ok(scan)
    }

    /// The key under which the term of the entry at `idx` is found.
    pub fn term_key(&self, idx: u64) -> (r: Result<Vec<u8>, RaftError>)
        ensures
            match term_key_for(self@, idx) {
                Ok(key) => r matches Ok(bytes) && bytes@ == key,
                Err(err) => r == Err::<Vec<u8>, RaftError>(err),
            },
    {
        let mut key: Vec<u8> = Vec::new();
        if idx < self.get_first_index() {
            key.extend_from_slice(snapshot_key().as_slice());
            assert(key@ =~= single_key(SNAPSHOT));
            return Ok(key);
        }
        match self.check_index(idx) {
            Ok(()) => {
                key.extend_from_slice(raft_entry_key(idx).as_slice());
                assert(key@ =~= entry_key(idx));
                Ok(key)
            },
            Err(err) => Err(RaftError::from(err)),
        }
    }

    /// The term of the entry at `idx`, from what was read under [`RocksDbStorage::term_key`].
    pub fn term(&self, idx: u64, read: DbRead) -> (r: Result<u64, RaftError>)
        requires
            checked_index(self@, idx) is Ok ==> read != Ok::<Option<Vec<u8>>, String>(None),
        ensures
            idx < self@.first_index ==> match read {
                Ok(record) => match stored_snapshot(record_bytes(record)) {
                    Some(snapshot) => r == compacted_term(snapshot, idx),
                    None => r matches Err(RaftError::CodecError(_)),
                },
                Err(err) => r == Err::<u64, RaftError>(raft_error(Error::RocksDbRaw(err))),
            },
            idx >= self@.first_index ==> match checked_index(self@, idx) {
                Ok(()) => match read {
                    Ok(record) => match decoded_entry(record->0@) {
                        Some(entry) => r == Ok::<u64, RaftError>(entry.term),
                        None => r matches Err(RaftError::CodecError(_)),
                    },
                    Err(err) => r == Err::<u64, RaftError>(raft_error(Error::RocksDbRaw(err))),
                },
                Err(err) => r == Err::<u64, RaftError>(raft_error(err)),
            },
    {
        if idx < self.get_first_index() {
            return match self.get_snapshot(read) {
                Ok(snapshot) => Self::compacted_term(&snapshot, idx),
                Err(err) => Err(RaftError::from(err)),
            };
        }
        match self.check_index(idx) {
            Ok(()) => {},
            Err(err) => {
                return Err(RaftError::from(err));
            },
        }
        match self.get_entry(read) {
            Ok(entry) => Ok(entry.unwrap().term),
            Err(err) => Err(RaftError::from(err)),
        }
    }

    /// The term of a compacted entry, as far as the snapshot tells it.
    pub fn compacted_term(snapshot: &Snapshot, idx: u64) -> (r: Result<u64, RaftError>)
        ensures
            r == compacted_term(snapshot@, idx),
            r is Ok <==> snapshot@.index() == idx,
    {
        if snapshot.index() == idx {
            Ok(snapshot.term())
        } else {
            Err(RaftError::from(Error::Compacted(idx)))
        }
    }

    /// The first index that is not compacted.
    pub fn first_index(&self) -> (r: Result<u64, RaftError>)
        ensures
            r == Ok::<u64, RaftError>(self@.first_index),
    {
        Ok(self.get_first_index())
    }

    /// The last index of the log.
    pub fn last_index(&self) -> (r: Result<u64, RaftError>)
        ensures
            r == Ok::<u64, RaftError>(self@.last_index),
    {
        Ok(self.get_last_index())
    }

    /// A snapshot up to `request_index` at least, from what was read under the snapshot's key.
    /// Where there is none yet, the storage remembers that it was asked for.
    pub fn snapshot(&mut self, request_index: u64, read: DbRead) -> (r: Result<Snapshot, RaftError>)
        ensures
            match read {
                Ok(record) => match stored_snapshot(record_bytes(record)) {
                    Some(snapshot) => {
                        &&& answers_request(r, snapshot, request_index)
                        &&& final(self)@ == asked_for(old(self)@, snapshot, request_index)
                    },
                    None => {
                        &&& r matches Err(RaftError::CodecError(_))
                        &&& final(self)@ == old(self)@
                    },
                },
                Err(err) => {
                    &&& r == Err::<Snapshot, RaftError>(raft_error(Error::RocksDbRaw(err)))
                    &&& final(self)@ == old(self)@
                },
            },
    {
        match self.get_snapshot(read) {
            Ok(snapshot) => self.answer_snapshot_request(request_index, snapshot),
            Err(err) => Err(RaftError::from(err)),
        }
    }
}

} // verus!
