//! Changes to the storage that take effect together.
use vstd::prelude::*;

use crate::batch::WriteBatch;
use crate::batch::WriteOpView;
use crate::codec::conf_state_fits;
use crate::codec::entry_fits;
use crate::codec::hard_state_fits;
use crate::codec::snapshot_fits;
use crate::error::Error;
use crate::history::is_allowed;
use crate::history::moved_bounds;
use crate::history::step_ops;
use crate::history::Step;
use crate::keys::conf_state_key;
use crate::keys::hard_state_key;
use crate::keys::nodes_configuration_key;
use crate::keys::raft_configuration_key;
use crate::keys::raft_entry_key;
use crate::keys::single_key;
use crate::keys::snapshot_key;
use crate::keys::NODES_CONFIGURATION;
use crate::keys::RAFT_CONFIGURATION;
use crate::messages::entry_views;
use crate::messages::lemma_no_unknown_takes_nothing;
use crate::messages::ConfState;
use crate::messages::Entry;
use crate::messages::HardState;
use crate::messages::Snapshot;
use crate::records::advance_hard_state;
use crate::records::applies_snapshot;
use crate::records::entry_deletes;
use crate::records::max_index;
use crate::records::min_index;
use crate::records::puts_conf_state;
use crate::records::puts_entries;
use crate::records::puts_entry;
use crate::records::puts_hard_state;
use crate::records::puts_snapshot;
use crate::storage::committed;
use crate::storage::RocksDbStorage;

verus! {

/// What a transaction has gathered.
pub struct StagedView {
    pub batch: Seq<WriteOpView>,
    pub first_index: u64,
    pub last_index: u64,
    pub snapshot_index: Option<u64>,
}

/// What a transaction has gathered: the changes to write, the bounds that the log then has, and
/// the index of the snapshot that was applied, if one was.
pub struct Staged {
    write_batch: WriteBatch,
    first_index: u64,
    last_index: u64,
    snapshot_index: Option<u64>,
}

impl View for Staged {
    type V = StagedView;

    closed spec fn view(&self) -> StagedView {
        StagedView {
            batch: self.write_batch@,
            first_index: self.first_index,
            last_index: self.last_index,
            snapshot_index: self.snapshot_index,
        }
    }
}

/// Changes to the storage that take effect together once they are committed.
#[must_use]
pub struct Transaction<'a> {
    pub storage: &'a mut RocksDbStorage,
    pub staged: Staged,
}

impl<'a> Transaction<'a> {
    pub(crate) fn new(storage: &'a mut RocksDbStorage) -> (txn: Self)
        ensures
            (*txn.storage)@ == old(storage)@,
            *final(txn.storage) == *final(storage),
            txn.staged@.batch == Seq::<WriteOpView>::empty(),
            txn.staged@.first_index == old(storage)@.first_index,
            txn.staged@.last_index == old(storage)@.last_index,
            txn.staged@.snapshot_index is None,
    {
        let first_index = storage.get_first_index();
        let last_index = storage.get_last_index();
        Transaction {
            storage,
            staged: Staged {
                write_batch: WriteBatch::new(),
                first_index,
                last_index,
                snapshot_index: None,
            },
        }
    }

    /// The changes that are to be written before the transaction is committed.
    pub fn write_batch(&self) -> (batch: &WriteBatch)
        ensures
            batch@ == self.staged@.batch,
    {
        &self.staged.write_batch
    }

    /// The first index that is not compacted once the transaction is committed.
    pub fn get_first_index(&self) -> (index: u64)
        ensures
            index == self.staged@.first_index,
    {
        self.staged.first_index
    }

    /// The last index of the log once the transaction is committed.
    pub fn get_last_index(&self) -> (index: u64)
        ensures
            index == self.staged@.last_index,
    {
        self.staged.last_index
    }

    /// Appends entries that follow the log without a gap.
    pub fn append(&mut self, entries: &Vec<Entry>) -> (r: Result<(), Error>)
        requires
            forall|i: int|
                0 <= i < entries@.len() ==> {
                    &&& (#[trigger] entries@[i]).index == old(self).staged@.last_index + 1 + i
                    &&& entry_fits(entries@[i]@)
                },
        ensures
            r is Ok,
            final(self).staged@.batch.len() == old(self).staged@.batch.len() + entries@.len(),
            final(self).staged@.batch.take(old(self).staged@.batch.len() as int)
                == old(self).staged@.batch,
            puts_entries(
                final(self).staged@.batch.skip(old(self).staged@.batch.len() as int),
                entry_views(entries@),
            ),
            final(self).staged@.last_index == old(self).staged@.last_index + entries@.len(),
            ({
                let first = old(self).staged@.first_index;
                let last = old(self).staged@.last_index;
                let step = Step::TransactionAppend {
                    entries: entry_views(entries@),
                    ops: final(self).staged@.batch.skip(old(self).staged@.batch.len() as int),
                };
                &&& is_allowed(first, last, step)
                &&& (final(self).staged@.first_index, final(self).staged@.last_index)
                    == moved_bounds(first, last, step)
            }),
            final(self).staged@.first_index == old(self).staged@.first_index,
            final(self).staged@.snapshot_index == old(self).staged@.snapshot_index,
            (*final(self).storage)@ == (*old(self).storage)@,
            *final(final(self).storage) == *final(old(self).storage),
    {
        let ghost len = self.staged@.batch.len();
        let mut i: usize = 0;
        assert(self.staged@.batch.take(len as int) =~= old(self).staged@.batch);
        while i < entries.len()
            invariant
                i <= entries@.len(),
                forall|j: int|
                    0 <= j < entries@.len() ==> {
                        &&& (#[trigger] entries@[j]).index == old(self).staged@.last_index + 1 + j
                        &&& entry_fits(entries@[j]@)
                    },
                len == old(self).staged@.batch.len(),
                self.staged@.batch.len() == len + i,
                self.staged@.batch.take(len as int) == old(self).staged@.batch,
                forall|j: int|
                    0 <= j < i ==> puts_entry(
                        self.staged@.batch[len + j],
                        #[trigger] entry_views(entries@)[j],
                    ),
                self.staged.last_index == old(self).staged@.last_index + i,
                self.staged.first_index == old(self).staged@.first_index,
                self.staged.snapshot_index == old(self).staged@.snapshot_index,
                (*self.storage)@ == (*old(self).storage)@,
                *final(self.storage) == *final(old(self).storage),
            decreases entries@.len() - i,
        {
            let entry = &entries[i];
            let ghost before = self.staged@.batch;
            assert(entry_views(entries@)[i as int] == entry@);
            match self.storage.encode_entry(entry) {
                Ok(bytes) => {
                    self.staged.write_batch.put(raft_entry_key(entry.index).as_slice(), bytes);
                },
                Err(err) => {
                    return Err(err);
                },
            }
            self.staged.last_index = entry.index;
            i = i + 1;
            assert(self.staged@.batch.take(len as int) =~= before.take(len as int));
        }
        Ok(())
    }

    /// Removes the entries up to and including `trim_point`.
    pub fn trim(&mut self, trim_point: u64)
        requires
            old(self).staged@.first_index <= trim_point ==> trim_point < u64::MAX,
        ensures
            ({
                let first = old(self).staged@.first_index;
                let last = old(self).staged@.last_index;
                let step = Step::Trim { trim_point };
                &&& is_allowed(first, last, step)
                &&& final(self).staged@.batch == old(self).staged@.batch + step_ops(
                    first,
                    last,
                    step,
                )
                &&& (final(self).staged@.first_index, final(self).staged@.last_index)
                    == moved_bounds(first, last, step)
            }),
            trim_point < old(self).staged@.first_index ==> *final(self) == *old(self),
            trim_point >= old(self).staged@.first_index ==> {
                &&& final(self).staged@.batch == old(self).staged@.batch + entry_deletes(
                    old(self).staged@.first_index as int,
                    min_index(trim_point, old(self).staged@.last_index) as int,
                )
                &&& final(self).staged@.first_index == trim_point + 1
                &&& final(self).staged@.last_index == max_index(
                    old(self).staged@.last_index,
                    trim_point,
                )
                &&& final(self).staged@.snapshot_index == old(self).staged@.snapshot_index
            },
            (*final(self).storage)@ == (*old(self).storage)@,
            *final(final(self).storage) == *final(old(self).storage),
    {
        if trim_point < self.staged.first_index {
            return;
        }
        let effective_trim_point: u64 = if trim_point <= self.staged.last_index {
            trim_point
        } else {
            self.staged.last_index
        };
        let ghost deletes = entry_deletes(
            self.staged.first_index as int,
            effective_trim_point as int,
        );
        assert(self.staged@.batch =~= old(self).staged@.batch + deletes.take(0));
        let mut index: u64 = self.staged.first_index;
        while index <= effective_trim_point
            invariant
                self.staged.first_index == old(self).staged@.first_index,
                self.staged.first_index <= index,
                effective_trim_point <= trim_point < u64::MAX,
                index <= effective_trim_point + 1 || index == self.staged.first_index,
                deletes == entry_deletes(
                    self.staged.first_index as int,
                    effective_trim_point as int,
                ),
                self.staged@.batch == old(self).staged@.batch + deletes.take(
                    index - self.staged.first_index,
                ),
                self.staged.last_index == old(self).staged@.last_index,
                self.staged.snapshot_index == old(self).staged@.snapshot_index,
                (*self.storage)@ == (*old(self).storage)@,
                *final(self.storage) == *final(old(self).storage),
            decreases effective_trim_point + 1 - index,
        {
            self.staged.write_batch.delete(raft_entry_key(index).as_slice());
            index = index + 1;
            assert(self.staged@.batch =~= old(self).staged@.batch + deletes.take(
                index - self.staged.first_index,
            ));
        }
        assert(self.staged@.batch =~= old(self).staged@.batch + deletes);
        self.staged.first_index = trim_point + 1;
        if self.staged.last_index < trim_point {
            self.staged.last_index = trim_point;
        }
    }

    /// Applies a snapshot: stores it with its members and the hard state that follows from
    /// `hard_state`, the outcome of reading the stored one, and removes the entries that it
    /// covers. A snapshot that the log has already moved past is ignored.
    pub fn apply_snapshot(
        &mut self,
        snapshot: &Snapshot,
        hard_state: Result<HardState, Error>,
    ) -> (r: Result<(), Error>)
        requires
            old(self).staged@.first_index <= snapshot@.index() ==> {
                &&& snapshot_fits(snapshot@)
                &&& snapshot@.index() < u64::MAX
                &&& hard_state matches Ok(hard_state) ==> hard_state_fits(hard_state@)
            },
        ensures
            hard_state matches Ok(state) ==> {
                let first = old(self).staged@.first_index;
                let last = old(self).staged@.last_index;
                let step = Step::ApplySnapshot {
                    snapshot: snapshot@,
                    hard_state: state@,
                    ops: final(self).staged@.batch.skip(old(self).staged@.batch.len() as int),
                };
                &&& is_allowed(first, last, step)
                &&& (final(self).staged@.first_index, final(self).staged@.last_index)
                    == moved_bounds(first, last, step)
            },
            snapshot@.index() < old(self).staged@.first_index ==> {
                &&& r is Ok
                &&& *final(self) == *old(self)
            },
            snapshot@.index() >= old(self).staged@.first_index ==> match hard_state {
                Ok(hard_state) => {
                    &&& r is Ok
                    &&& final(self).staged@.batch.take(old(self).staged@.batch.len() as int)
                        == old(self).staged@.batch
                    &&& applies_snapshot(
                        final(self).staged@.batch.skip(old(self).staged@.batch.len() as int),
                        snapshot@,
                        hard_state@,
                        old(self).staged@.first_index,
                        old(self).staged@.last_index,
                    )
                    &&& final(self).staged@.first_index == snapshot@.index() + 1
                    &&& final(self).staged@.last_index == max_index(
                        old(self).staged@.last_index,
                        snapshot@.index(),
                    )
                    &&& final(self).staged@.snapshot_index == Some(snapshot@.index())
                },
                Err(err) => {
                    &&& r == Err::<(), Error>(err)
                    &&& *final(self) == *old(self)
                },
            },
            (*final(self).storage)@ == (*old(self).storage)@,
            *final(final(self).storage) == *final(old(self).storage),
    {
        let snapshot_index: u64 = snapshot.index();
        if snapshot_index < self.staged.first_index {
            // snapshot is outdated; ignore it
            return Ok(());
        }
        let hard_state = match hard_state {
            Ok(hard_state) => advance_hard_state(hard_state, snapshot.term(), snapshot_index),
            Err(err) => {
                return Err(err);
            },
        };
        let no_members = ConfState::default();
        let ghost len = self.staged@.batch.len() as int;
        proof {
            lemma_no_unknown_takes_nothing();
        }
        match self.store_conf_state(snapshot.conf_state_or(&no_members)) {
            Ok(()) => {},
            Err(err) => {
                return Err(err);
            },
        }
        let ghost with_members = self.staged@.batch;
        match self.store_hard_state(&hard_state) {
            Ok(()) => {},
            Err(err) => {
                return Err(err);
            },
        }
        let ghost with_state = self.staged@.batch;
        match self.store_snapshot(snapshot) {
            Ok(()) => {},
            Err(err) => {
                return Err(err);
            },
        }
        let ghost with_snapshot = self.staged@.batch;
        // trim all entries up to the snapshot index
        self.trim(snapshot_index);
        proof {
            let added = self.staged@.batch.skip(len);
            assert(with_members[len] == with_members.last());
            assert(with_state[len] == with_state.drop_last()[len]);
            assert(with_snapshot[len] == with_snapshot.drop_last()[len]);
            assert(with_state[len + 1] == with_state.last());
            assert(with_snapshot[len + 1] == with_snapshot.drop_last()[len + 1]);
            assert(self.staged@.batch.take(len) =~= with_snapshot.take(len));
            assert(with_snapshot.take(len) =~= with_snapshot.drop_last().take(len));
            assert(with_state.take(len) =~= with_state.drop_last().take(len));
            assert(with_members.take(len) =~= with_members.drop_last());
            assert(added.skip(3) =~= entry_deletes(
                old(self).staged@.first_index as int,
                min_index(snapshot_index, old(self).staged@.last_index) as int,
            ));
        }
        self.staged.snapshot_index = Some(snapshot_index);
        Ok(())
    }

    /// Stores a raft configuration, given the outcome of encoding it.
    pub fn store_raft_configuration(&mut self, encoded: Result<Vec<u8>, String>) -> (r: Result<
        (),
        Error,
    >)
        ensures
            match encoded {
                Ok(bytes) => {
                    &&& r is Ok
                    &&& final(self).staged@.batch == old(self).staged@.batch.push(
                        WriteOpView::Put { key: single_key(RAFT_CONFIGURATION), value: bytes@ },
                    )
                },
                Err(err) => {
                    &&& r == Err::<(), Error>(Error::Encode(err))
                    &&& final(self).staged@.batch == old(self).staged@.batch
                },
            },
            final(self).staged@.first_index == old(self).staged@.first_index,
            final(self).staged@.last_index == old(self).staged@.last_index,
            final(self).staged@.snapshot_index == old(self).staged@.snapshot_index,
            (*final(self).storage)@ == (*old(self).storage)@,
            *final(final(self).storage) == *final(old(self).storage),
    {
        match encoded {
            Ok(bytes) => {
                self.staged.write_batch.put(raft_configuration_key().as_slice(), bytes);
                Ok(())
            },
            Err(err) => Err(Error::Encode(err)),
        }
    }

    /// Stores a nodes configuration, given the outcome of encoding it.
    pub fn store_nodes_configuration(&mut self, encoded: Result<Vec<u8>, String>) -> (r: Result<
        (),
        Error,
    >)
        ensures
            match encoded {
                Ok(bytes) => {
                    &&& r is Ok
                    &&& final(self).staged@.batch == old(self).staged@.batch.push(
                        WriteOpView::Put { key: single_key(NODES_CONFIGURATION), value: bytes@ },
                    )
                },
                Err(err) => {
                    &&& r == Err::<(), Error>(Error::Encode(err))
                    &&& final(self).staged@.batch == old(self).staged@.batch
                },
            },
            final(self).staged@.first_index == old(self).staged@.first_index,
            final(self).staged@.last_index == old(self).staged@.last_index,
            final(self).staged@.snapshot_index == old(self).staged@.snapshot_index,
            (*final(self).storage)@ == (*old(self).storage)@,
            *final(final(self).storage) == *final(old(self).storage),
    {
        match encoded {
            Ok(bytes) => {
                self.staged.write_batch.put(nodes_configuration_key().as_slice(), bytes);
                Ok(())
            },
            Err(err) => Err(Error::Encode(err)),
        }
    }

    /// Stores a snapshot and nothing else.
    pub fn store_snapshot(&mut self, snapshot: &Snapshot) -> (r: Result<(), Error>)
        requires
            snapshot_fits(snapshot@),
        ensures
            r is Ok,
            final(self).staged@.batch.len() == old(self).staged@.batch.len() + 1,
            final(self).staged@.batch.drop_last() == old(self).staged@.batch,
            puts_snapshot(final(self).staged@.batch.last(), snapshot@),
            final(self).staged@.first_index == old(self).staged@.first_index,
            final(self).staged@.last_index == old(self).staged@.last_index,
            final(self).staged@.snapshot_index == old(self).staged@.snapshot_index,
            (*final(self).storage)@ == (*old(self).storage)@,
            *final(final(self).storage) == *final(old(self).storage),
    {
        match self.storage.encode_snapshot(snapshot) {
            Ok(bytes) => {
                self.staged.write_batch.put(snapshot_key().as_slice(), bytes);
                Ok(())
            },
            Err(err) => Err(err),
        }
    }

    /// Stores the members of the raft group.
    pub fn store_conf_state(&mut self, conf_state: &ConfState) -> (r: Result<(), Error>)
        requires
            conf_state_fits(conf_state@),
        ensures
            r is Ok,
            final(self).staged@.batch.len() == old(self).staged@.batch.len() + 1,
            final(self).staged@.batch.drop_last() == old(self).staged@.batch,
            puts_conf_state(final(self).staged@.batch.last(), conf_state@),
            final(self).staged@.first_index == old(self).staged@.first_index,
            final(self).staged@.last_index == old(self).staged@.last_index,
            final(self).staged@.snapshot_index == old(self).staged@.snapshot_index,
            (*final(self).storage)@ == (*old(self).storage)@,
            *final(final(self).storage) == *final(old(self).storage),
    {
        match self.storage.encode_conf_state(conf_state) {
            Ok(bytes) => {
                self.staged.write_batch.put(conf_state_key().as_slice(), bytes);
                Ok(())
            },
            Err(err) => Err(err),
        }
    }

    /// Stores the hard state.
    pub fn store_hard_state(&mut self, hard_state: &HardState) -> (r: Result<(), Error>)
        requires
            hard_state_fits(hard_state@),
        ensures
            r is Ok,
            final(self).staged@.batch.len() == old(self).staged@.batch.len() + 1,
            final(self).staged@.batch.drop_last() == old(self).staged@.batch,
            puts_hard_state(final(self).staged@.batch.last(), hard_state@),
            final(self).staged@.first_index == old(self).staged@.first_index,
            final(self).staged@.last_index == old(self).staged@.last_index,
            final(self).staged@.snapshot_index == old(self).staged@.snapshot_index,
            (*final(self).storage)@ == (*old(self).storage)@,
            *final(final(self).storage) == *final(old(self).storage),
    {
        match self.storage.encode_hard_state(hard_state) {
            Ok(bytes) => {
                self.staged.write_batch.put(hard_state_key().as_slice(), bytes);
                Ok(())
            },
            Err(err) => Err(err),
        }
    }

    /// Ends the transaction, given the outcome of writing its batch. An empty batch is not
    /// written, so the outcome does not matter then. Where the write failed, the storage stays
    /// as it was.
    pub fn commit(self, written: Result<(), String>) -> (r: Result<(), Error>)
        ensures
            match written {
                Err(err) if self.staged@.batch.len() > 0 => {
                    &&& r == Err::<(), Error>(Error::RocksDb(err))
                    &&& (*final(self.storage))@ == (*old(self.storage))@
                },
                _ => {
                    &&& r is Ok
                    &&& (*final(self.storage))@.first_index == self.staged@.first_index
                    &&& (*final(self.storage))@.last_index == self.staged@.last_index
                    &&& (*final(self.storage))@ == committed(
                        (*old(self.storage))@,
                        self.staged@.first_index,
                        self.staged@.last_index,
                        self.staged@.snapshot_index,
                    )
                },
            },
    {
        if !self.staged.write_batch.is_empty() {
            match RocksDbStorage::commit_write_batch(written) {
                Ok(()) => {},
                Err(err) => {
                    return Err(err);
                },
            }
        }
        self.storage.take_over(
            self.staged.first_index,
            self.staged.last_index,
            self.staged.snapshot_index,
        );
        Ok(())
    }
}

} // verus!
