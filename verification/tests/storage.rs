use std::collections::BTreeMap;

use protobuf::UnknownFields;
use server_core::batch::WriteBatch;
use server_core::batch::WriteOp;
use server_core::error::Cause;
use server_core::error::Error;
use server_core::error::RaftError;
use server_core::error::StorageError;
use server_core::keys::conf_state_key;
use server_core::keys::hard_state_key;
use server_core::keys::nodes_configuration_key;
use server_core::keys::raft_configuration_key;
use server_core::keys::raft_entry_key;
use server_core::keys::snapshot_key;
use server_core::keys::storage_marker_key;
use server_core::messages::ConfState;
use server_core::messages::Entry;
use server_core::messages::EntryType;
use server_core::messages::HardState;
use server_core::messages::Snapshot;
use server_core::messages::SnapshotMetadata;
use server_core::records::advance_hard_state;
use server_core::records::DbRead;
use server_core::storage::LogEnds;
use server_core::storage::RecoveryError;
use server_core::storage::RocksDbStorage;

/// A database in memory.
#[derive(Default)]
struct Database {
    records: BTreeMap<Vec<u8>, Vec<u8>>,
}

impl Database {
    fn write(&mut self, batch: &WriteBatch) {
        for op in &batch.ops {
            match op {
                WriteOp::Put { key, value } => {
                    self.records.insert(key.clone(), value.clone());
                }
                WriteOp::Delete { key } => {
                    self.records.remove(key);
                }
            }
        }
    }

    fn read(&self, key: &[u8]) -> DbRead {
        Ok(self.records.get(key).cloned())
    }

    fn open(&self) -> RocksDbStorage {
        let mut keys = self
            .records
            .range(raft_entry_key(0).to_vec()..raft_entry_key(u64::MAX).to_vec())
            .map(|(key, _)| key.clone());
        let ends = keys.next().map(|first_key| {
            let last_key = keys.last().unwrap_or(first_key.clone());
            LogEnds { first_key, last_key }
        });
        let snapshot = self.records.get(snapshot_key().as_slice()).cloned();
        RocksDbStorage::create(&ends, &snapshot).unwrap()
    }

    fn append(&mut self, storage: &mut RocksDbStorage, entries: &Vec<Entry>) {
        if let Some(batch) = storage.append(entries).unwrap() {
            self.write(&batch);
        }
    }

    fn apply_snapshot(&mut self, storage: &mut RocksDbStorage, snapshot: &Snapshot) {
        let hard_state = self.hard_state(storage);
        let txn = storage.apply_snapshot(snapshot, Ok(hard_state)).unwrap();
        self.write(txn.write_batch());
        txn.commit(Ok(())).unwrap();
    }

    fn entry(&self, storage: &RocksDbStorage, index: u64) -> Option<Entry> {
        storage.get_entry(self.read(&raft_entry_key(index))).unwrap()
    }

    fn hard_state(&self, storage: &RocksDbStorage) -> HardState {
        storage.get_hard_state(self.read(&hard_state_key())).unwrap()
    }

    fn conf_state(&self, storage: &RocksDbStorage) -> ConfState {
        storage.get_conf_state(self.read(&conf_state_key())).unwrap()
    }

    fn snapshot(&self, storage: &RocksDbStorage) -> Snapshot {
        storage.get_snapshot(self.read(&snapshot_key())).unwrap()
    }

    fn entries(
        &self,
        storage: &RocksDbStorage,
        low: u64,
        high: u64,
        max_size: Option<u64>,
    ) -> Result<Vec<Entry>, RaftError> {
        let mut scan = storage.entries(low, high, max_size)?;
        let range = scan.start_key().to_vec()..scan.end_key().to_vec();
        for (_, value) in self.records.range(range) {
            if !scan.wants_more() {
                break;
            }
            scan.on_value(value)?;
        }
        scan.finish(Ok(()))
    }

    fn term(&self, storage: &RocksDbStorage, index: u64) -> Result<u64, RaftError> {
        let key = storage.term_key(index)?;
        storage.term(index, self.read(&key))
    }

    fn is_empty(&self, storage: &RocksDbStorage) -> Result<bool, Error> {
        let configuration = self
            .records
            .get(raft_configuration_key().as_slice())
            .cloned();
        storage.is_empty(
            storage.get_raft_configuration(Ok(configuration.map(Ok))),
            storage.get_snapshot(self.read(&snapshot_key())),
            storage.get_hard_state(self.read(&hard_state_key())),
            storage.get_conf_state(self.read(&conf_state_key())),
        )
    }
}

fn entry(index: u64, term: u64, data: u64) -> Entry {
    Entry {
        index,
        term,
        data: data.to_be_bytes().to_vec(),
        ..Entry::default()
    }
}

fn snapshot_at(index: u64, term: u64, conf_state: ConfState) -> Snapshot {
    Snapshot {
        data: vec![4, 5, 6],
        metadata: Some(SnapshotMetadata {
            conf_state: Some(conf_state),
            index,
            term,
            unknown_fields: UnknownFields::new(),
        }),
        unknown_fields: UnknownFields::new(),
    }
}

fn hard_state(term: u64, vote: u64, commit: u64) -> HardState {
    HardState {
        term,
        vote,
        commit,
        unknown_fields: UnknownFields::new(),
    }
}

/// Fields of every form, under several numbers.
fn some_unknown_fields() -> UnknownFields {
    let mut fields = UnknownFields::new();
    fields.add_varint(100, u64::MAX);
    fields.add_fixed32(100, 7);
    fields.add_length_delimited(100, vec![1, 2, 3]);
    fields.add_length_delimited(100, Vec::new());
    fields.add_fixed64(0x1fff_ffff, 8);
    fields.add_varint(7, 2);
    fields.add_varint(7, 1);
    fields
}

fn three_voters() -> ConfState {
    ConfState {
        voters: vec![1, 2, 3],
        ..ConfState::default()
    }
}

#[test]
fn initial_values() {
    let database = Database::default();
    let storage = database.open();

    assert_eq!(storage.get_last_index(), 0);
    assert_eq!(storage.get_first_index(), 1);
    assert_eq!(database.snapshot(&storage), Snapshot::default());
}

#[test]
fn append_entries() {
    let mut database = Database::default();
    let mut storage = database.open();

    let last_index = 10;
    let entries: Vec<Entry> = (1..=last_index).map(|index| entry(index, 1, index)).collect();

    database.append(&mut storage, &entries);

    assert_eq!(storage.get_last_index(), last_index);
    assert_eq!(storage.get_first_index(), 1);

    for index in 1..=last_index {
        assert_eq!(
            database.entry(&storage, index).unwrap(),
            entries[index as usize - 1]
        );
    }
}

#[test]
fn apply_snapshot() {
    let mut database = Database::default();
    let mut storage = database.open();

    let last_index = 10;
    let snapshot_index = 5;
    let entries: Vec<Entry> = (1..=last_index)
        .map(|index| entry(index, index, index))
        .collect();

    database.append(&mut storage, &entries);

    let conf_state = three_voters();
    let snapshot = snapshot_at(snapshot_index, snapshot_index, conf_state.clone());

    database.apply_snapshot(&mut storage, &snapshot);

    assert_eq!(storage.get_last_index(), last_index);
    assert_eq!(storage.get_first_index(), snapshot_index + 1);
    // check that we remember the term of the last compacted entry
    assert_eq!(database.term(&storage, snapshot_index).unwrap(), snapshot_index);
    assert_eq!(database.snapshot(&storage), snapshot);
    assert_eq!(database.conf_state(&storage), conf_state);
    let hard_state = database.hard_state(&storage);
    assert_eq!(hard_state.commit, snapshot_index);
    assert_eq!(hard_state.term, snapshot_index);

    for index in (snapshot_index + 1)..=last_index {
        assert_eq!(
            database.entry(&storage, index).unwrap(),
            entries[index as usize - 1]
        );
    }

    drop(storage);

    // re-create storage to check that the information is persisted
    let storage = database.open();

    assert_eq!(storage.get_last_index(), last_index);
    assert_eq!(storage.get_first_index(), snapshot_index + 1);
    // check that we remember the term of the last compacted entry
    assert_eq!(database.term(&storage, snapshot_index).unwrap(), snapshot_index);
    assert_eq!(database.snapshot(&storage), snapshot);
    assert_eq!(database.conf_state(&storage), conf_state);
    let hard_state = database.hard_state(&storage);
    assert_eq!(hard_state.commit, snapshot_index);
    assert_eq!(hard_state.term, snapshot_index);

    for index in (snapshot_index + 1)..=last_index {
        assert_eq!(
            database.entry(&storage, index).unwrap(),
            entries[index as usize - 1]
        );
    }
}

#[test]
fn trim() {
    let mut database = Database::default();
    let mut storage = database.open();

    let last_index = 10;
    let entries: Vec<Entry> = (1..=last_index)
        .map(|index| entry(index, index, index))
        .collect();

    database.append(&mut storage, &entries);

    let trim_point = 5;
    let mut txn = storage.txn();
    txn.trim(trim_point);
    database.write(txn.write_batch());
    txn.commit(Ok(())).unwrap();

    assert_eq!(storage.get_first_index(), trim_point + 1);
    assert_eq!(storage.get_last_index(), last_index);

    let stored_entries = database
        .entries(&storage, trim_point + 1, last_index + 1, None)
        .unwrap();
    assert_eq!(stored_entries.len(), 5);

    for (index, entry) in stored_entries.iter().enumerate() {
        assert_eq!(entry, &entries[index + trim_point as usize]);
    }

    // trying to access entries which are out of bounds
    assert!(matches!(
        database.entries(&storage, trim_point, trim_point + 1, None),
        Err(RaftError::Store(StorageError::Compacted))
    ));
    assert!(database
        .entries(&storage, last_index + 1, last_index + 2, None)
        .is_err());
}

#[test]
fn overwrite_entries() {
    let mut database = Database::default();
    let mut storage = database.open();

    let last_index = 10;
    let entries: Vec<Entry> = (1..=last_index)
        .map(|index| entry(index, index, index))
        .collect();

    database.append(&mut storage, &entries);

    let new_last_index = 8;
    let new_entries: Vec<Entry> = (5..=new_last_index)
        .map(|index| entry(index, index + 1, index + 1))
        .collect();

    database.append(&mut storage, &new_entries);

    assert_eq!(storage.get_last_index(), new_last_index);
    let stored_entries = database
        .entries(&storage, 1, new_last_index + 1, None)
        .unwrap();

    for index in 1..5 {
        assert_eq!(stored_entries[index - 1], entries[index - 1]);
    }

    for index in 5..=(new_last_index as usize) {
        assert_eq!(stored_entries[index - 1], new_entries[index - 5]);
    }

    // nothing is left behind the new end
    assert!(database.entry(&storage, 9).is_none());
    assert!(database.entry(&storage, 10).is_none());
}

#[test]
fn appending_nothing_writes_nothing() {
    let mut storage = Database::default().open();
    assert!(matches!(storage.append(&Vec::new()), Ok(None)));
    assert_eq!(storage.get_last_index(), 0);
}

#[test]
fn append_batch_deletes_before_it_writes() {
    let mut database = Database::default();
    let mut storage = database.open();
    database.append(&mut storage, &(1..=4).map(|i| entry(i, 1, i)).collect());

    let batch = storage.append(&vec![entry(2, 2, 7)]).unwrap().unwrap();
    assert_eq!(batch.ops.len(), 3);
    assert_eq!(
        batch.ops[0],
        WriteOp::Delete { key: raft_entry_key(3).to_vec() }
    );
    assert_eq!(
        batch.ops[1],
        WriteOp::Delete { key: raft_entry_key(4).to_vec() }
    );
    assert!(matches!(&batch.ops[2], WriteOp::Put { key, .. } if *key == raft_entry_key(2).to_vec()));
    assert_eq!(storage.get_last_index(), 2);
}

#[test]
fn stored_entry_is_its_protobuf_message() {
    let mut storage = Database::default().open();
    let batch = storage
        .append(&vec![Entry {
            entry_type: EntryType::EntryConfChange,
            term: 2,
            index: 1,
            data: vec![9],
            context: vec![8],
            sync_log: true,
            unknown_fields: UnknownFields::new(),
        }])
        .unwrap()
        .unwrap();
    assert_eq!(
        batch.ops,
        vec![WriteOp::Put {
            key: vec![1, 0, 0, 0, 0, 0, 0, 0, 1],
            value: vec![8, 1, 16, 2, 24, 1, 34, 1, 9, 50, 1, 8, 40, 1],
        }]
    );
}

#[test]
fn every_field_reads_back() {
    let mut database = Database::default();
    let mut storage = database.open();
    let stored = Entry {
        entry_type: EntryType::EntryConfChangeV2,
        term: 3,
        index: 1,
        data: vec![0, 255],
        context: vec![7, 7],
        sync_log: true,
        unknown_fields: UnknownFields::new(),
    };
    database.append(&mut storage, &vec![stored.clone()]);
    assert_eq!(database.entry(&storage, 1).unwrap(), stored);

    let conf_state = ConfState {
        voters: vec![1, u64::MAX],
        learners: vec![3],
        voters_outgoing: vec![4],
        learners_next: vec![5],
        auto_leave: true,
        unknown_fields: UnknownFields::new(),
    };
    let stored_state = hard_state(4, 5, 6);
    let snapshot = snapshot_at(1, 2, conf_state.clone());
    let mut txn = storage.txn();
    txn.store_conf_state(&conf_state).unwrap();
    txn.store_hard_state(&stored_state).unwrap();
    txn.store_snapshot(&snapshot).unwrap();
    database.write(txn.write_batch());
    txn.commit(Ok(())).unwrap();
    assert_eq!(database.conf_state(&storage), conf_state);
    assert_eq!(database.hard_state(&storage), stored_state);
    assert_eq!(database.snapshot(&storage), snapshot);
    // storing a snapshot does not apply it
    assert_eq!(storage.get_first_index(), 1);
    assert_eq!(storage.get_last_index(), 1);

    let other = hard_state(7, 8, 9);
    let batch = storage.store_hard_state(other.clone()).unwrap();
    database.write(&batch);
    assert_eq!(database.hard_state(&storage), other);
}

#[test]
fn snapshot_without_metadata_reads_back() {
    let mut database = Database::default();
    let mut storage = database.open();
    for snapshot in [
        Snapshot { data: vec![1], ..Snapshot::default() },
        Snapshot {
            metadata: Some(SnapshotMetadata {
                conf_state: None,
                index: 0,
                term: 0,
                unknown_fields: UnknownFields::new(),
            }),
            ..Snapshot::default()
        },
        snapshot_at(0, 0, ConfState::default()),
    ] {
        let mut txn = storage.txn();
        txn.store_snapshot(&snapshot).unwrap();
        database.write(txn.write_batch());
        txn.commit(Ok(())).unwrap();
        assert_eq!(database.snapshot(&storage), snapshot);
        assert!(snapshot.is_empty());
    }
}

#[test]
fn malformed_records_are_refused() {
    let storage = Database::default().open();
    let garbage = || -> DbRead { Ok(Some(vec![0xff])) };
    assert!(matches!(storage.get_entry(garbage()), Err(Error::EncodeProto(_))));
    assert!(matches!(storage.get_hard_state(garbage()), Err(Error::EncodeProto(_))));
    assert!(matches!(storage.get_conf_state(garbage()), Err(Error::EncodeProto(_))));
    assert!(matches!(storage.get_snapshot(garbage()), Err(Error::EncodeProto(_))));
    assert!(matches!(storage.term(0, garbage()), Err(RaftError::CodecError(_))));
}

#[test]
fn failed_reads_are_reported() {
    let mut storage = Database::default().open();
    let failed = || -> DbRead { Err("disk".to_string()) };
    assert!(matches!(storage.get_entry(failed()), Err(Error::RocksDbRaw(m)) if m == "disk"));
    assert!(matches!(storage.get_hard_state(failed()), Err(Error::RocksDbRaw(m)) if m == "disk"));
    assert!(matches!(storage.get_conf_state(failed()), Err(Error::RocksDbRaw(m)) if m == "disk"));
    assert!(matches!(storage.get_snapshot(failed()), Err(Error::RocksDbRaw(m)) if m == "disk"));
    assert!(matches!(
        storage.snapshot(1, failed()),
        Err(RaftError::Store(StorageError::Other(Cause::Storage(Error::RocksDbRaw(_)))))
    ));
    assert_eq!(storage.requested_snapshot(), None);
    assert!(matches!(
        storage.get_marker::<u8>(Err("disk".to_string())),
        Err(Error::RocksDbRaw(_))
    ));
}

#[test]
fn decoded_records() {
    let storage = Database::default().open();
    assert!(matches!(storage.get_marker(Ok(Some(Ok(7u8)))), Ok(Some(7))));
    assert!(matches!(storage.get_raft_configuration::<u8>(Ok(None)), Ok(None)));
    assert!(matches!(
        storage.get_nodes_configuration::<u8>(Ok(Some(Err("bad".to_string())))),
        Err(Error::Decode(m)) if m == "bad"
    ));
}

#[test]
fn configurations_and_marker_are_stored_under_their_keys() {
    let mut database = Database::default();
    let mut storage = database.open();
    let batch = storage.store_marker(vec![1]);
    database.write(&batch);
    let batch = storage.store_raft_configuration(Ok(vec![2])).unwrap();
    database.write(&batch);
    let batch = storage.store_nodes_configuration(Ok(vec![3])).unwrap();
    database.write(&batch);
    assert_eq!(database.read(&storage_marker_key()), Ok(Some(vec![1])));
    assert_eq!(database.read(&raft_configuration_key()), Ok(Some(vec![2])));
    assert_eq!(database.read(&nodes_configuration_key()), Ok(Some(vec![3])));

    let mut txn = storage.txn();
    txn.store_raft_configuration(Ok(vec![4])).unwrap();
    txn.store_nodes_configuration(Ok(vec![5])).unwrap();
    assert!(matches!(
        txn.store_nodes_configuration(Err("no".to_string())),
        Err(Error::Encode(m)) if m == "no"
    ));
    database.write(txn.write_batch());
    txn.commit(Ok(())).unwrap();
    assert_eq!(database.read(&raft_configuration_key()), Ok(Some(vec![4])));
    assert_eq!(database.read(&nodes_configuration_key()), Ok(Some(vec![5])));
    assert!(matches!(
        storage.store_raft_configuration(Err("no".to_string())),
        Err(Error::Encode(m)) if m == "no"
    ));
}

#[test]
fn new_storage_is_empty_until_something_is_stored() {
    let mut database = Database::default();
    let mut storage = database.open();
    assert!(database.is_empty(&storage).unwrap());

    database.append(&mut storage, &vec![entry(1, 1, 1)]);
    assert!(!database.is_empty(&storage).unwrap());

    let mut database = Database::default();
    let mut storage = database.open();
    let batch = storage.store_raft_configuration(Ok(vec![1])).unwrap();
    database.write(&batch);
    assert!(!database.is_empty(&storage).unwrap());

    let mut database = Database::default();
    let mut storage = database.open();
    let batch = storage
        .store_hard_state(hard_state(0, 1, 0))
        .unwrap();
    database.write(&batch);
    assert!(!database.is_empty(&storage).unwrap());

    let mut database = Database::default();
    let mut storage = database.open();
    let mut txn = storage.txn();
    txn.store_conf_state(&three_voters()).unwrap();
    database.write(txn.write_batch());
    txn.commit(Ok(())).unwrap();
    assert!(!database.is_empty(&storage).unwrap());

    let mut database = Database::default();
    let mut storage = database.open();
    database.apply_snapshot(&mut storage, &snapshot_at(3, 1, ConfState::default()));
    assert!(!database.is_empty(&storage).unwrap());
}

#[test]
fn emptiness_is_decided_by_the_first_record_that_tells() {
    let storage = Database::default().open();
    let broken = || Error::RocksDbRaw("disk".to_string());
    assert!(matches!(
        storage.is_empty(
            Ok(Some(1u8)),
            Err(broken()),
            Err(broken()),
            Err(broken()),
        ),
        Ok(false)
    ));
    assert!(matches!(
        storage.is_empty::<u8>(
            Ok(None),
            Err(broken()),
            Ok(HardState::default()),
            Ok(ConfState::default()),
        ),
        Err(Error::RocksDbRaw(_))
    ));
}

#[test]
fn snapshot_behind_the_log_empties_it() {
    let mut database = Database::default();
    let mut storage = database.open();
    database.append(&mut storage, &(1..=3).map(|i| entry(i, 1, i)).collect());
    database.apply_snapshot(&mut storage, &snapshot_at(7, 4, three_voters()));
    assert_eq!(storage.get_first_index(), 8);
    assert_eq!(storage.get_last_index(), 7);
    for index in 1..=7 {
        assert!(database.entry(&storage, index).is_none());
    }
    assert_eq!(database.term(&storage, 7).unwrap(), 4);
    assert!(matches!(
        database.term(&storage, 6),
        Err(RaftError::Store(StorageError::Compacted))
    ));
    assert!(matches!(
        database.term(&storage, 8),
        Err(RaftError::Store(StorageError::Other(Cause::Storage(
            Error::IndexOutOfBounds { index: 8, last_index: 7 }
        ))))
    ));

    // the bounds of the empty log are found again
    let mut storage = database.open();
    assert_eq!(storage.get_first_index(), 8);
    assert_eq!(storage.get_last_index(), 7);
    database.append(&mut storage, &vec![entry(8, 5, 8)]);
    assert_eq!(database.term(&storage, 8).unwrap(), 5);
}

#[test]
fn outdated_snapshot_is_ignored() {
    let mut database = Database::default();
    let mut storage = database.open();
    database.append(&mut storage, &(1..=3).map(|i| entry(i, 1, i)).collect());
    database.apply_snapshot(&mut storage, &snapshot_at(2, 1, three_voters()));
    let stored = database.snapshot(&storage);
    let older = snapshot_at(1, 1, ConfState::default());
    let txn = storage.apply_snapshot(&older, Err(Error::Compacted(0))).unwrap();
    assert!(txn.write_batch().is_empty());
    txn.commit(Err("never written".to_string())).unwrap();
    assert_eq!(database.snapshot(&storage), stored);
    assert_eq!(storage.get_first_index(), 3);
}

#[test]
fn snapshot_needs_the_hard_state() {
    let mut storage = Database::default().open();
    let snapshot = snapshot_at(2, 1, three_voters());
    assert!(matches!(
        storage.apply_snapshot(&snapshot, Err(Error::RocksDbRaw("disk".to_string()))),
        Err(Error::RocksDbRaw(_))
    ));
    assert_eq!(storage.get_first_index(), 1);
}

#[test]
fn hard_state_never_goes_back() {
    let state = HardState {
        unknown_fields: some_unknown_fields(),
        ..hard_state(5, 2, 3)
    };
    let advanced = advance_hard_state(state.clone(), 4, 9);
    assert_eq!(advanced.unknown_fields, state.unknown_fields);
    assert_eq!(
        advance_hard_state(hard_state(5, 2, 3), 4, 9),
        hard_state(5, 2, 9)
    );
    assert_eq!(
        advance_hard_state(hard_state(5, 2, 3), 6, 1),
        hard_state(6, 2, 3)
    );
}

#[test]
fn transaction_takes_effect_when_it_is_committed() {
    let mut database = Database::default();
    let mut storage = database.open();
    let mut txn = storage.txn();
    txn.append(&(1..=3).map(|i| entry(i, 1, i)).collect()).unwrap();
    txn.append(&vec![entry(4, 1, 4)]).unwrap();
    txn.trim(1);
    drop(txn);
    assert_eq!(storage.get_first_index(), 1);
    assert_eq!(storage.get_last_index(), 0);

    let mut txn = storage.txn();
    txn.append(&(1..=3).map(|i| entry(i, 1, i)).collect()).unwrap();
    txn.trim(1);
    assert!(matches!(
        txn.commit(Err("disk full".to_string())),
        Err(Error::RocksDb(m)) if m == "disk full"
    ));
    assert_eq!(storage.get_first_index(), 1);
    assert_eq!(storage.get_last_index(), 0);

    let mut txn = storage.txn();
    txn.append(&(1..=3).map(|i| entry(i, 1, i)).collect()).unwrap();
    txn.trim(1);
    database.write(txn.write_batch());
    txn.commit(Ok(())).unwrap();
    assert_eq!(storage.get_first_index(), 2);
    assert_eq!(storage.get_last_index(), 3);
    assert!(database.entry(&storage, 1).is_none());
    assert_eq!(database.entry(&storage, 2).unwrap(), entry(2, 1, 2));
}

#[test]
fn trim_before_the_log_does_nothing() {
    let mut database = Database::default();
    let mut storage = database.open();
    database.append(&mut storage, &(1..=3).map(|i| entry(i, 1, i)).collect());
    let mut txn = storage.txn();
    txn.trim(2);
    txn.trim(1);
    assert_eq!(txn.write_batch().ops.len(), 2);
    database.write(txn.write_batch());
    txn.commit(Ok(())).unwrap();
    assert_eq!(storage.get_first_index(), 3);
}

#[test]
fn write_outcome_is_reported() {
    assert!(RocksDbStorage::commit_write_batch(Ok(())).is_ok());
    assert!(matches!(
        RocksDbStorage::commit_write_batch(Err("x".to_string())),
        Err(Error::RocksDb(m)) if m == "x"
    ));
}

#[test]
fn entries_stop_at_the_limit() {
    let mut database = Database::default();
    let mut storage = database.open();
    database.append(&mut storage, &(1..=5).map(|i| entry(i, 1, i)).collect());
    let len = database.records[raft_entry_key(1).as_slice()].len() as u64;
    let count = |max_size: Option<u64>| {
        database
            .entries(&storage, 2, 6, max_size)
            .unwrap()
            .len()
    };
    assert_eq!(count(None), 4);
    // the first entry is given in any case
    assert_eq!(count(Some(0)), 1);
    assert_eq!(count(Some(len)), 1);
    assert_eq!(count(Some(len + 1)), 2);
    assert_eq!(count(Some(2 * len)), 2);
    assert_eq!(count(Some(100 * len)), 4);
}

#[test]
fn entries_report_what_is_missing() {
    let mut database = Database::default();
    let mut storage = database.open();
    database.append(&mut storage, &(1..=5).map(|i| entry(i, 1, i)).collect());

    let mut broken = Database { records: database.records.clone() };
    broken.records.remove(raft_entry_key(2).as_slice());
    assert!(matches!(
        broken.entries(&storage, 2, 6, None),
        Err(RaftError::Store(StorageError::Compacted))
    ));
    assert!(matches!(
        broken.entries(&storage, 1, 6, None),
        Err(RaftError::Store(StorageError::Unavailable))
    ));
    broken.records.insert(raft_entry_key(2).to_vec(), vec![0xff]);
    assert!(matches!(
        broken.entries(&storage, 1, 6, None),
        Err(RaftError::CodecError(_))
    ));
    assert!(matches!(
        storage.entries(1, 6, None).unwrap().finish(Err("io".to_string())),
        Err(RaftError::Store(StorageError::Other(Cause::Database(m)))) if m == "io"
    ));
}

#[test]
fn walk_takes_decoded_entries() {
    let mut database = Database::default();
    let mut storage = database.open();
    database.append(&mut storage, &(1..=5).map(|i| entry(i, 1, i)).collect());
    let mut scan = storage.entries(2, 5, Some(10)).unwrap();
    assert_eq!(scan.start_key(), raft_entry_key(2));
    assert_eq!(scan.end_key(), raft_entry_key(5));
    assert!(scan.wants_more());
    scan.on_entry(entry(2, 1, 2), 9).unwrap();
    assert!(scan.wants_more());
    assert!(matches!(
        scan.on_entry(entry(4, 1, 4), 9),
        Err(RaftError::Store(StorageError::Unavailable))
    ));
    scan.on_entry(entry(3, 1, 3), 1).unwrap();
    assert!(!scan.wants_more());
    assert_eq!(
        scan.finish(Ok(())).unwrap(),
        vec![entry(2, 1, 2), entry(3, 1, 3)]
    );
}

#[test]
fn bounds_are_checked() {
    let mut database = Database::default();
    let mut storage = database.open();
    database.append(&mut storage, &(1..=5).map(|i| entry(i, 1, i)).collect());
    let mut txn = storage.txn();
    txn.trim(2);
    database.write(txn.write_batch());
    txn.commit(Ok(())).unwrap();

    assert!(matches!(storage.check_index(2), Err(Error::Compacted(3))));
    assert!(storage.check_index(3).is_ok());
    assert!(storage.check_index(5).is_ok());
    assert!(matches!(
        storage.check_index(6),
        Err(Error::IndexOutOfBounds { index: 6, last_index: 5 })
    ));
    assert!(matches!(storage.check_range(2, 4), Err(Error::Compacted(3))));
    assert!(storage.check_range(3, 6).is_ok());
    assert!(matches!(
        storage.check_range(3, 7),
        Err(Error::IndexOutOfBounds { index: 7, last_index: 5 })
    ));
    assert_eq!(storage.first_index().unwrap(), 3);
    assert_eq!(storage.last_index().unwrap(), 5);
}

#[test]
fn snapshot_requests_are_remembered() {
    let mut database = Database::default();
    let mut storage = database.open();
    database.append(&mut storage, &(1..=9).map(|i| entry(i, 1, i)).collect());
    let ask = |storage: &mut RocksDbStorage, database: &Database, index: u64| {
        storage.snapshot(index, database.read(&snapshot_key()))
    };
    // what is stored covers index 0
    assert_eq!(ask(&mut storage, &database, 0).unwrap(), Snapshot::default());
    assert_eq!(storage.requested_snapshot(), None);
    assert!(matches!(
        ask(&mut storage, &database, 5),
        Err(RaftError::Store(StorageError::SnapshotTemporarilyUnavailable))
    ));
    assert_eq!(storage.requested_snapshot(), Some(5));
    // an earlier one does not replace it, a later one does
    assert!(ask(&mut storage, &database, 3).is_err());
    assert_eq!(storage.requested_snapshot(), Some(5));
    assert!(ask(&mut storage, &database, 6).is_err());
    assert_eq!(storage.requested_snapshot(), Some(6));

    // a snapshot that does not reach as far leaves it owed
    database.apply_snapshot(&mut storage, &snapshot_at(4, 1, three_voters()));
    assert_eq!(storage.requested_snapshot(), Some(6));
    database.apply_snapshot(&mut storage, &snapshot_at(6, 1, three_voters()));
    assert_eq!(storage.requested_snapshot(), None);
    assert_eq!(
        ask(&mut storage, &database, 6).unwrap(),
        snapshot_at(6, 1, three_voters())
    );
    assert!(matches!(
        storage.answer_snapshot_request(8, snapshot_at(7, 1, three_voters())),
        Err(RaftError::Store(StorageError::SnapshotTemporarilyUnavailable))
    ));
    assert_eq!(storage.requested_snapshot(), Some(8));
}

#[test]
fn term_of_what_a_snapshot_covers() {
    let snapshot = snapshot_at(4, 9, ConfState::default());
    assert_eq!(RocksDbStorage::compacted_term(&snapshot, 4).unwrap(), 9);
    assert!(matches!(
        RocksDbStorage::compacted_term(&snapshot, 3),
        Err(RaftError::Store(StorageError::Compacted))
    ));
    // the entry before the first one has term 0
    let database = Database::default();
    assert_eq!(database.term(&database.open(), 0).unwrap(), 0);
}

#[test]
fn initial_state() {
    let storage = Database::default().open();
    let state = storage
        .initial_state(Ok(hard_state(1, 2, 3)), Ok(three_voters()))
        .unwrap();
    assert_eq!(state.hard_state, hard_state(1, 2, 3));
    assert_eq!(state.conf_state, three_voters());
    assert!(matches!(
        storage.initial_state(Ok(hard_state(1, 2, 3)), Err(Error::Decode("bad".to_string()))),
        Err(RaftError::Store(StorageError::Other(Cause::Storage(Error::Decode(_)))))
    ));
    assert!(matches!(
        storage.initial_state(Err(Error::Encode("bad".to_string())), Ok(three_voters())),
        Err(RaftError::Store(StorageError::Other(Cause::Storage(Error::Encode(_)))))
    ));
}

#[test]
fn bounds_are_found_again() {
    let mut database = Database::default();
    let mut storage = database.open();
    database.append(&mut storage, &(1..=300).map(|i| entry(i, 1, i)).collect());
    let mut txn = storage.txn();
    txn.trim(255);
    database.write(txn.write_batch());
    txn.commit(Ok(())).unwrap();
    let storage = database.open();
    assert_eq!(storage.get_first_index(), 256);
    assert_eq!(storage.get_last_index(), 300);
    assert_eq!(storage.requested_snapshot(), None);

    assert_eq!(RocksDbStorage::find_indices(&None, None), (1, 0));
    assert_eq!(RocksDbStorage::find_indices(&None, Some(7)), (8, 7));
    let ends = Some(LogEnds {
        first_key: raft_entry_key(3).to_vec(),
        last_key: raft_entry_key(9).to_vec(),
    });
    assert_eq!(RocksDbStorage::find_indices(&ends, Some(1)), (3, 9));
}

#[test]
fn foreign_records_are_not_taken_for_a_log() {
    let ends = Some(LogEnds {
        first_key: vec![1],
        last_key: raft_entry_key(9).to_vec(),
    });
    assert!(matches!(
        RocksDbStorage::create(&ends, &None),
        Err(RecoveryError::MalformedEntryKey)
    ));
    assert!(matches!(
        RocksDbStorage::create(&None, &Some(vec![0xff])),
        Err(RecoveryError::MalformedSnapshot(_))
    ));
    let mut database = Database::default();
    let mut storage = database.open();
    let mut txn = storage.txn();
    txn.store_snapshot(&snapshot_at(u64::MAX, 1, ConfState::default()))
        .unwrap();
    database.write(txn.write_batch());
    let record = database.records.get(snapshot_key().as_slice()).cloned();
    assert!(matches!(
        RocksDbStorage::create(&None, &record),
        Err(RecoveryError::ExhaustedIndices)
    ));
}

#[test]
fn raft_is_told_of_errors() {
    assert!(matches!(
        RaftError::from(Error::Compacted(3)),
        RaftError::Store(StorageError::Compacted)
    ));
    assert!(matches!(
        RaftError::from(Error::EncodeProto(protobuf::ProtobufError::Utf8(
            String::from_utf8(vec![0xff]).unwrap_err().utf8_error()
        ))),
        RaftError::CodecError(_)
    ));
    assert!(matches!(
        RaftError::from(Error::RocksDb("x".to_string())),
        RaftError::Store(StorageError::Other(Cause::Storage(Error::RocksDb(_))))
    ));
    assert!(matches!(
        RaftError::from(Error::IndexOutOfBounds { index: 2, last_index: 1 }),
        RaftError::Store(StorageError::Other(Cause::Storage(Error::IndexOutOfBounds {
            index: 2,
            last_index: 1
        })))
    ));
}

#[test]
fn fields_that_are_not_defined_are_kept() {
    let mut database = Database::default();
    let mut storage = database.open();
    let stored = Entry {
        unknown_fields: some_unknown_fields(),
        ..entry(1, 1, 1)
    };
    database.append(&mut storage, &vec![stored.clone()]);
    assert_eq!(database.entry(&storage, 1).unwrap(), stored);
    assert_eq!(
        database.entries(&storage, 1, 2, None).unwrap(),
        vec![stored.clone()]
    );

    let mut snapshot = snapshot_at(1, 1, three_voters());
    snapshot.unknown_fields = some_unknown_fields();
    let metadata = snapshot.metadata.as_mut().unwrap();
    metadata.unknown_fields.add_varint(9, 1);
    let conf_state = metadata.conf_state.as_mut().unwrap();
    conf_state.unknown_fields = some_unknown_fields();
    let conf_state = conf_state.clone();
    let mut state = hard_state(0, 4, 0);
    state.unknown_fields.add_fixed32(12, 5);
    let batch = storage.store_hard_state(state.clone()).unwrap();
    database.write(&batch);
    database.apply_snapshot(&mut storage, &snapshot);
    assert_eq!(database.snapshot(&storage), snapshot);
    assert_eq!(database.conf_state(&storage), conf_state);
    assert_eq!(
        database.hard_state(&storage),
        HardState { term: 1, commit: 1, ..state }
    );
}

#[test]
fn one_field_that_is_not_defined_has_one_form() {
    let mut storage = Database::default().open();
    let mut stored = Entry { index: 1, ..Entry::default() };
    stored.unknown_fields.add_varint(7, 2);
    stored.unknown_fields.add_fixed32(7, 1);
    let batch = storage.append(&vec![stored]).unwrap().unwrap();
    assert_eq!(
        batch.ops,
        vec![WriteOp::Put {
            key: raft_entry_key(1).to_vec(),
            value: vec![24, 1, 61, 1, 0, 0, 0, 56, 2],
        }]
    );
}

#[test]
fn entry_types_that_are_not_known_are_refused() {
    let storage = Database::default().open();
    // entry type 7, index 1
    assert!(matches!(
        storage.get_entry(Ok(Some(vec![8, 7, 24, 1]))),
        Err(Error::EncodeProto(_))
    ));
}

#[test]
fn fields_that_are_not_defined_are_read() {
    let storage = Database::default().open();
    // index 1, and a varint under number 7
    let read = storage.get_entry(Ok(Some(vec![56, 2, 24, 1]))).unwrap().unwrap();
    let mut expected = Entry { index: 1, ..Entry::default() };
    expected.unknown_fields.add_varint(7, 2);
    assert_eq!(read, expected);
}

#[test]
fn fields_that_are_not_defined_count_as_stored() {
    let mut unknown_fields = UnknownFields::new();
    unknown_fields.add_varint(20, 0);
    let state = HardState { unknown_fields: unknown_fields.clone(), ..HardState::default() };
    let members = ConfState { unknown_fields, ..ConfState::default() };
    assert!(!state.is_default());
    assert!(!members.is_default());
    assert!(HardState::default().is_default());
    assert!(ConfState::default().is_default());

    let mut database = Database::default();
    let mut storage = database.open();
    let batch = storage.store_hard_state(state).unwrap();
    database.write(&batch);
    assert!(!database.is_empty(&storage).unwrap());

    let mut database = Database::default();
    let mut storage = database.open();
    let mut txn = storage.txn();
    txn.store_conf_state(&members).unwrap();
    database.write(txn.write_batch());
    txn.commit(Ok(())).unwrap();
    assert!(!database.is_empty(&storage).unwrap());
}

#[test]
fn messages_with_impossible_field_numbers_do_not_fit() {
    let with = |number: u32| {
        let mut fields = UnknownFields::new();
        fields.add_varint(number, 1);
        fields
    };
    for (number, fits) in [(0, false), (1, true), (0x1fff_ffff, true), (0x2000_0000, false)] {
        let members = ConfState { unknown_fields: with(number), ..ConfState::default() };
        let of_members = snapshot_at(1, 1, members.clone());
        let mut of_metadata = snapshot_at(1, 1, ConfState::default());
        of_metadata.metadata.as_mut().unwrap().unknown_fields = with(number);
        let of_snapshot = Snapshot { unknown_fields: with(number), ..Snapshot::default() };
        assert_eq!(Entry { unknown_fields: with(number), ..entry(1, 1, 1) }.fits(), fits);
        assert_eq!(HardState { unknown_fields: with(number), ..hard_state(1, 1, 1) }.fits(), fits);
        assert_eq!(members.fits(), fits);
        assert_eq!(of_members.fits(), fits);
        assert_eq!(of_metadata.fits(), fits);
        assert_eq!(of_snapshot.fits(), fits);
    }
    assert!(Entry { unknown_fields: some_unknown_fields(), ..Entry::default() }.fits());
}

#[test]
fn adjoining_ranges_concatenate() {
    let mut database = Database::default();
    let mut storage = database.open();
    database.append(&mut storage, &(1..=9).map(|i| entry(i, 1, i)).collect());
    let read = |low: u64, high: u64| database.entries(&storage, low, high, None).unwrap();
    let whole = read(2, 9);
    assert_eq!(whole.len(), 7);
    for (k, entry) in whole.iter().enumerate() {
        assert_eq!(entry.index, 2 + k as u64);
    }
    let mut parts = read(2, 5);
    parts.extend(read(5, 9));
    assert_eq!(whole, parts);
}

#[test]
fn appends_concatenate() {
    let x: Vec<Entry> = (3..=5).map(|i| entry(i, 2, i)).collect();
    let y: Vec<Entry> = (6..=7).map(|i| entry(i, 3, i)).collect();
    let mut joined = x.clone();
    joined.extend(y.clone());
    for old_end in [2, 4, 6, 9] {
        let mut one_by_one = Database::default();
        let mut storage = one_by_one.open();
        one_by_one.append(&mut storage, &(1..=old_end).map(|i| entry(i, 1, i)).collect());
        one_by_one.append(&mut storage, &x);
        one_by_one.append(&mut storage, &y);

        let mut at_once = Database::default();
        let mut other = at_once.open();
        at_once.append(&mut other, &(1..=old_end).map(|i| entry(i, 1, i)).collect());
        at_once.append(&mut other, &joined);

        assert_eq!(storage.get_first_index(), other.get_first_index());
        assert_eq!(storage.get_last_index(), 7);
        assert_eq!(other.get_last_index(), 7);
        assert_eq!(one_by_one.records, at_once.records);
    }
}

#[test]
fn append_is_idempotent() {
    let mut database = Database::default();
    let mut storage = database.open();
    database.append(&mut storage, &(1..=9).map(|i| entry(i, 1, i)).collect());
    let x: Vec<Entry> = (3..=5).map(|i| entry(i, 2, i)).collect();
    database.append(&mut storage, &x);
    let once = database.records.clone();
    database.append(&mut storage, &x);
    assert_eq!(database.records, once);
    assert_eq!(storage.get_last_index(), 5);
}

#[test]
fn bounds_do_not_depend_on_what_entries_hold() {
    let mut database = Database::default();
    let mut storage = database.open();
    // what is stored of the second entry reads back with another index
    let mut odd = entry(2, 1, 2);
    odd.unknown_fields.add_varint(3, 77);
    database.append(&mut storage, &vec![entry(1, 1, 1), odd, entry(3, 1, 3)]);
    assert_eq!(database.entry(&storage, 2).unwrap().index, 77);
    let storage = database.open();
    assert_eq!(storage.get_first_index(), 1);
    assert_eq!(storage.get_last_index(), 3);
}

#[test]
fn bounds_survive_any_calls() {
    let mut database = Database::default();
    let mut storage = database.open();
    let check = |database: &Database, storage: &RocksDbStorage, first: u64, last: u64| {
        assert_eq!((storage.get_first_index(), storage.get_last_index()), (first, last));
        let anew = database.open();
        assert_eq!((anew.get_first_index(), anew.get_last_index()), (first, last));
    };
    check(&database, &storage, 1, 0);
    database.append(&mut storage, &(1..=6).map(|i| entry(i, 1, i)).collect());
    check(&database, &storage, 1, 6);
    database.append(&mut storage, &(3..=4).map(|i| entry(i, 2, i)).collect());
    check(&database, &storage, 1, 4);
    database.apply_snapshot(&mut storage, &snapshot_at(2, 1, three_voters()));
    check(&database, &storage, 3, 4);
    let mut txn = storage.txn();
    txn.append(&vec![entry(5, 3, 5)]).unwrap();
    assert_eq!(txn.get_first_index(), 3);
    assert_eq!(txn.get_last_index(), 5);
    txn.store_raft_configuration(Ok(vec![1])).unwrap();
    database.write(txn.write_batch());
    txn.commit(Ok(())).unwrap();
    check(&database, &storage, 3, 5);
    database.apply_snapshot(&mut storage, &snapshot_at(9, 4, three_voters()));
    check(&database, &storage, 10, 9);
    database.append(&mut storage, &vec![entry(10, 4, 10)]);
    check(&database, &storage, 10, 10);
}
