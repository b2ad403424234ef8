//! The keys under which the storage keeps its records.
//!
//! A log entry's key is a discriminator byte and the entry's index, big-endian, so that the
//! bytewise order of the keys is the order of the indices. Every other record has a key of one
//! byte.
use vstd::prelude::*;

verus! {

pub const RAFT_ENTRY_DISCRIMINATOR: u8 = 0x01;

pub const HARD_STATE_DISCRIMINATOR: u8 = 0x02;

pub const CONF_STATE_DISCRIMINATOR: u8 = 0x03;

pub const STORAGE_MARKER: u8 = 0x04;

pub const RAFT_CONFIGURATION: u8 = 0x05;

pub const NODES_CONFIGURATION: u8 = 0x06;

pub const SNAPSHOT: u8 = 0x07;

pub const RAFT_ENTRY_KEY_LENGTH: usize = 9;

/// The key of the log entry at `idx`.
pub open spec fn entry_key(idx: u64) -> Seq<u8> {
    seq![
        RAFT_ENTRY_DISCRIMINATOR,
        (idx / 0x100_0000_0000_0000) as u8,
        (idx / 0x1_0000_0000_0000 % 256) as u8,
        (idx / 0x100_0000_0000 % 256) as u8,
        (idx / 0x1_0000_0000 % 256) as u8,
        (idx / 0x100_0000 % 256) as u8,
        (idx / 0x1_0000 % 256) as u8,
        (idx / 0x100 % 256) as u8,
        (idx % 256) as u8,
    ]
}

/// The number whose eight big-endian bytes follow the first byte of `key`.
pub open spec fn key_index(key: Seq<u8>) -> int {
    key[1] * 0x100_0000_0000_0000 + key[2] * 0x1_0000_0000_0000 + key[3] * 0x100_0000_0000 + key[4]
        * 0x1_0000_0000 + key[5] * 0x100_0000 + key[6] * 0x1_0000 + key[7] * 0x100 + key[8]
}

/// The key of a record of which there is only one.
pub open spec fn single_key(discriminator: u8) -> Seq<u8> {
    seq![discriminator]
}

/// Bytewise order: `a` is a proper prefix of `b`, or has the smaller byte where they first differ.
pub open spec fn key_before(a: Seq<u8>, b: Seq<u8>) -> bool {
    exists|at: int| #[trigger] first_difference(a, b, at)
}

/// `a` and `b` agree before `at`, where `a` ends or has the smaller byte.
pub open spec fn first_difference(a: Seq<u8>, b: Seq<u8>, at: int) -> bool {
    &&& 0 <= at <= a.len()
    &&& at < b.len()
    &&& forall|i: int| 0 <= i < at ==> a[i] == b[i]
    &&& at == a.len() || a[at] < b[at]
}

/// The index in the key of a log entry.
pub fn log_index_from_key(key_bytes: &[u8]) -> (index: u64)
    requires
        key_bytes@.len() == RAFT_ENTRY_KEY_LENGTH,
    ensures
        index == key_index(key_bytes@),
{
    key_bytes[1] as u64 * 0x100_0000_0000_0000 + key_bytes[2] as u64 * 0x1_0000_0000_0000
        + key_bytes[3] as u64 * 0x100_0000_0000 + key_bytes[4] as u64 * 0x1_0000_0000 + key_bytes[5]
        as u64 * 0x100_0000 + key_bytes[6] as u64 * 0x1_0000 + key_bytes[7] as u64 * 0x100
        + key_bytes[8] as u64
}

/// The key of the log entry at `idx`.
pub fn raft_entry_key(idx: u64) -> (key: [u8; RAFT_ENTRY_KEY_LENGTH])
    ensures
        key@ == entry_key(idx),
{
    [
        RAFT_ENTRY_DISCRIMINATOR,
        (idx / 0x100_0000_0000_0000) as u8,
        (idx / 0x1_0000_0000_0000 % 256) as u8,
        (idx / 0x100_0000_0000 % 256) as u8,
        (idx / 0x1_0000_0000 % 256) as u8,
        (idx / 0x100_0000 % 256) as u8,
        (idx / 0x1_0000 % 256) as u8,
        (idx / 0x100 % 256) as u8,
        (idx % 256) as u8,
    ]
}

pub fn hard_state_key() -> (key: [u8; 1])
    ensures
        key@ == single_key(HARD_STATE_DISCRIMINATOR),
{
    [HARD_STATE_DISCRIMINATOR]
}

pub fn conf_state_key() -> (key: [u8; 1])
    ensures
        key@ == single_key(CONF_STATE_DISCRIMINATOR),
{
    [CONF_STATE_DISCRIMINATOR]
}

pub fn storage_marker_key() -> (key: [u8; 1])
    ensures
        key@ == single_key(STORAGE_MARKER),
{
    [STORAGE_MARKER]
}

pub fn raft_configuration_key() -> (key: [u8; 1])
    ensures
        key@ == single_key(RAFT_CONFIGURATION),
{
    [RAFT_CONFIGURATION]
}

pub fn nodes_configuration_key() -> (key: [u8; 1])
    ensures
        key@ == single_key(NODES_CONFIGURATION),
{
    [NODES_CONFIGURATION]
}

pub fn snapshot_key() -> (key: [u8; 1])
    ensures
        key@ == single_key(SNAPSHOT),
{
    [SNAPSHOT]
}

/// The index of an entry's key is the entry's index, so different entries have different keys.
pub proof fn law_entry_key_holds_its_index(idx: u64)
    ensures
        entry_key(idx).len() == RAFT_ENTRY_KEY_LENGTH,
        key_index(entry_key(idx)) == idx,
{
    let key = entry_key(idx);
    let q1 = idx / 0x100;
    let q2 = idx / 0x1_0000;
    let q3 = idx / 0x100_0000;
    let q4 = idx / 0x1_0000_0000;
    let q5 = idx / 0x100_0000_0000;
    let q6 = idx / 0x1_0000_0000_0000;
    let q7 = idx / 0x100_0000_0000_0000;
    assert(q2 == q1 / 256 && q3 == q2 / 256 && q4 == q3 / 256);
    assert(q5 == q4 / 256 && q6 == q5 / 256 && q7 == q6 / 256);
    assert(key[8] == idx - 256 * q1);
    assert(key[7] == q1 - 256 * q2);
    assert(key[6] == q2 - 256 * q3);
    assert(key[5] == q3 - 256 * q4);
    assert(key[4] == q4 - 256 * q5);
    assert(key[3] == q5 - 256 * q6);
    assert(key[2] == q6 - 256 * q7);
    assert(key[1] == q7);
}

/// The bytewise order of the keys is the order of the indices.
pub proof fn law_entry_keys_are_ordered(low: u64, high: u64)
    ensures
        low < high <==> key_before(entry_key(low), entry_key(high)),
{
    law_entry_key_holds_its_index(low);
    law_entry_key_holds_its_index(high);
    let a = entry_key(low);
    let b = entry_key(high);
    if low < high {
        let at: int = if a[1] != b[1] {
            1
        } else if a[2] != b[2] {
            2
        } else if a[3] != b[3] {
            3
        } else if a[4] != b[4] {
            4
        } else if a[5] != b[5] {
            5
        } else if a[6] != b[6] {
            6
        } else if a[7] != b[7] {
            7
        } else {
            8
        };
        assert(first_difference(a, b, at));
    }
    if key_before(a, b) {
        let at = choose|at: int| #[trigger] first_difference(a, b, at);
        assert(at != 0 && at != 9);
        assert(at == 1 || at == 2 || at == 3 || at == 4 || at == 5 || at == 6 || at == 7 || at
            == 8);
    }
}

/// The records that exist once are kept apart from the log: their keys are no entry's key, and
/// lie behind all entries' keys.
pub proof fn law_single_keys_lie_behind_the_log(discriminator: u8, idx: u64)
    requires
        discriminator > RAFT_ENTRY_DISCRIMINATOR,
    ensures
        single_key(discriminator) != entry_key(idx),
        key_before(entry_key(idx), single_key(discriminator)),
{
    assert(entry_key(idx).len() != single_key(discriminator).len());
    assert(first_difference(entry_key(idx), single_key(discriminator), 0));
}

} // verus!
