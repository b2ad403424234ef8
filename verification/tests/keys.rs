use std::collections::BTreeMap;

use server_core::batch::WriteBatch;
use server_core::batch::WriteOp;
use server_core::keys::conf_state_key;
use server_core::keys::hard_state_key;
use server_core::keys::log_index_from_key;
use server_core::keys::nodes_configuration_key;
use server_core::keys::raft_configuration_key;
use server_core::keys::raft_entry_key;
use server_core::keys::snapshot_key;
use server_core::keys::storage_marker_key;

#[test]
fn entry_keys_hold_their_index() {
    assert_eq!(raft_entry_key(0), [1, 0, 0, 0, 0, 0, 0, 0, 0]);
    assert_eq!(
        raft_entry_key(0x0102030405060708),
        [1, 1, 2, 3, 4, 5, 6, 7, 8]
    );
    assert_eq!(
        raft_entry_key(u64::MAX),
        [1, 255, 255, 255, 255, 255, 255, 255, 255]
    );
    for index in [0, 1, 255, 256, 65535, 1 << 40, u64::MAX - 1, u64::MAX] {
        let key = raft_entry_key(index);
        assert_eq!(key[1..9], index.to_be_bytes());
        assert_eq!(log_index_from_key(&key), index);
    }
}

#[test]
fn entry_keys_are_ordered() {
    let indices = [0, 1, 255, 256, 257, 65536, 1 << 32, 1 << 56, u64::MAX];
    for pair in indices.windows(2) {
        assert!(raft_entry_key(pair[0]) < raft_entry_key(pair[1]));
    }
}

#[test]
fn single_keys_lie_behind_the_log() {
    let keys = [
        hard_state_key(),
        conf_state_key(),
        storage_marker_key(),
        raft_configuration_key(),
        nodes_configuration_key(),
        snapshot_key(),
    ];
    assert_eq!(keys, [[2], [3], [4], [5], [6], [7]]);
    for key in keys {
        assert!(raft_entry_key(u64::MAX).as_slice() < key.as_slice());
    }
}

#[test]
fn batch_keeps_its_changes_in_order() {
    let mut batch = WriteBatch::new();
    assert!(batch.is_empty());
    batch.put(&[1, 2], vec![3]);
    batch.delete(&[1, 2]);
    assert!(!batch.is_empty());
    assert_eq!(
        batch.ops,
        vec![
            WriteOp::Put { key: vec![1, 2], value: vec![3] },
            WriteOp::Delete { key: vec![1, 2] },
        ]
    );
}

fn write(records: &mut BTreeMap<Vec<u8>, Vec<u8>>, batch: &WriteBatch) {
    for op in &batch.ops {
        match op {
            WriteOp::Put { key, value } => records.insert(key.clone(), value.clone()),
            WriteOp::Delete { key } => records.remove(key),
        };
    }
}

#[test]
fn batches_compose() {
    let mut first = WriteBatch::new();
    first.put(&[1], vec![1]);
    first.put(&[2], vec![2]);
    let mut second = WriteBatch::new();
    second.delete(&[1]);
    second.put(&[2], vec![3]);
    let mut both = WriteBatch::new();
    both.put(&[1], vec![1]);
    both.put(&[2], vec![2]);
    both.delete(&[1]);
    both.put(&[2], vec![3]);

    let mut one_by_one = BTreeMap::new();
    write(&mut one_by_one, &first);
    write(&mut one_by_one, &second);
    let mut at_once = BTreeMap::new();
    write(&mut at_once, &both);
    assert_eq!(one_by_one, at_once);
    assert_eq!(at_once, BTreeMap::from([(vec![2], vec![3])]));
}
