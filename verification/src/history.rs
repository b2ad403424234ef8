//! What holds after any sequence of calls whose changes were written.
//!
//! A step is one call that changes the storage, with the changes that it gave out. The steps of a
//! transaction are written together; that makes no difference, as batches compose. A transaction
//! that was dropped, or whose batch could not be written, is no step: it changes nothing. An append
//! to the storage itself is a step only if its batch was written: it moves the end of the log even
//! if that fails.
use vstd::prelude::*;

use crate::batch::apply_ops;
use crate::batch::Records;
use crate::batch::WriteOpView;
use crate::codec::decoded_snapshot;
use crate::keys::single_key;
use crate::keys::RAFT_ENTRY_DISCRIMINATOR;
use crate::keys::SNAPSHOT;
use crate::laws::all_read_back;
use crate::laws::contiguous;
use crate::laws::holds_keys;
use crate::laws::holds_log;
use crate::laws::law_append_makes_the_end_of_the_log;
use crate::laws::law_apply_snapshot_replaces_the_start_of_the_log;
use crate::laws::law_empty_database_is_recoverable;
use crate::laws::law_single_record_reads_back;
use crate::laws::law_transaction_append_extends_the_log;
use crate::laws::law_trim_removes_the_start_of_the_log;
use crate::laws::record;
use crate::laws::recoverable;
use crate::laws::valid_bounds;
use crate::messages::EntryView;
use crate::messages::HardStateView;
use crate::messages::SnapshotView;
use crate::read_laws::are_log_ends;
use crate::read_laws::law_bounds_are_recovered;
use crate::records::appends;
use crate::records::applies_snapshot;
use crate::records::entry_deletes;
use crate::records::max_index;
use crate::records::min_index;
use crate::records::put_ops;
use crate::records::puts_entries;
use crate::storage::recovered_bounds;
use crate::storage::stored_snapshot_index;
use crate::storage::well_formed_ends;
use crate::storage::LogEnds;
use crate::storage::FIRST_RAFT_INDEX;

verus! {

/// One call that changes the storage.
pub enum Step {
    /// `RocksDbStorage::append`.
    Append { entries: Seq<EntryView>, ops: Seq<WriteOpView> },
    /// `Transaction::append`.
    TransactionAppend { entries: Seq<EntryView>, ops: Seq<WriteOpView> },
    /// `Transaction::trim`.
    Trim { trim_point: u64 },
    /// `Transaction::apply_snapshot`.
    ApplySnapshot { snapshot: SnapshotView, hard_state: HardStateView, ops: Seq<WriteOpView> },
    /// One of the calls that store a record of which there is only one.
    StoreRecord { discriminator: u8, value: Seq<u8> },
}

/// The call may be made, and these are changes that it gives out. Entries follow each other
/// without a gap.
pub open spec fn is_allowed(first_index: u64, last_index: u64, step: Step) -> bool {
    match step {
        Step::Append { entries, ops } => if entries.len() == 0 {
            ops.len() == 0
        } else {
            &&& first_index <= entries[0].index <= last_index + 1
            &&& contiguous(entries, entries[0].index as int)
            &&& appends(ops, entries, last_index)
        },
        Step::TransactionAppend { entries, ops } => {
            &&& contiguous(entries, last_index + 1)
            &&& last_index + entries.len() <= u64::MAX
            &&& puts_entries(ops, entries)
        },
        Step::Trim { trim_point } => trim_point >= first_index ==> trim_point < u64::MAX,
        Step::ApplySnapshot { snapshot, hard_state, ops } => if snapshot.index() < first_index {
            ops.len() == 0
        } else {
            &&& snapshot.index() < u64::MAX
            &&& applies_snapshot(ops, snapshot, hard_state, first_index, last_index)
        },
        Step::StoreRecord { discriminator, .. } => discriminator > RAFT_ENTRY_DISCRIMINATOR,
    }
}

/// The changes that a call gives out.
pub open spec fn step_ops(first_index: u64, last_index: u64, step: Step) -> Seq<WriteOpView> {
    match step {
        Step::Append { ops, .. } => ops,
        Step::TransactionAppend { ops, .. } => ops,
        Step::Trim { trim_point } => entry_deletes(
            first_index as int,
            if trim_point >= first_index {
                min_index(trim_point, last_index) as int
            } else {
                first_index - 1
            },
        ),
        Step::ApplySnapshot { ops, .. } => ops,
        Step::StoreRecord { discriminator, value } => put_ops(single_key(discriminator), value),
    }
}

/// The bounds that the storage keeps after a call.
pub open spec fn moved_bounds(first_index: u64, last_index: u64, step: Step) -> (u64, u64) {
    match step {
        Step::Append { entries, .. } if entries.len() > 0 => (first_index, entries.last().index),
        Step::TransactionAppend { entries, .. } => (
            first_index,
            (last_index + entries.len()) as u64,
        ),
        Step::Trim { trim_point } if trim_point >= first_index => (
            (trim_point + 1) as u64,
            max_index(last_index, trim_point),
        ),
        Step::ApplySnapshot { snapshot, .. } if snapshot.index() >= first_index => (
            (snapshot.index() + 1) as u64,
            max_index(last_index, snapshot.index()),
        ),
        _ => (first_index, last_index),
    }
}

/// The records of the database, and the bounds that the storage keeps.
pub struct Held {
    pub records: Records,
    pub first_index: u64,
    pub last_index: u64,
}

impl Held {
    /// A storage on a database that nothing was written to.
    pub open spec fn initial() -> Held {
        Held { records: Map::empty(), first_index: FIRST_RAFT_INDEX, last_index: 0 }
    }

    /// The call may be made, and these are changes that it gives out.
    pub open spec fn allows(self, step: Step) -> bool {
        is_allowed(self.first_index, self.last_index, step)
    }

    /// The changes that a call gives out.
    pub open spec fn ops(self, step: Step) -> Seq<WriteOpView> {
        step_ops(self.first_index, self.last_index, step)
    }

    /// The bounds that the storage keeps after a call.
    pub open spec fn bounds_after(self, step: Step) -> (u64, u64) {
        moved_bounds(self.first_index, self.last_index, step)
    }

    /// What is held once a call was made and its changes were written.
    pub open spec fn after(self, step: Step) -> Held {
        Held {
            records: apply_ops(self.records, self.ops(step)),
            first_index: self.bounds_after(step).0,
            last_index: self.bounds_after(step).1,
        }
    }

    /// If the call leaves the log empty, the stored snapshot tells where it is. That is not so
    /// where everything is trimmed without a snapshot, where a snapshot is stored beside an empty
    /// log that it does not end, or where one is applied that does not read back.
    pub open spec fn stays_anchored(self, step: Step) -> bool {
        match step {
            Step::Append { .. } => true,
            Step::TransactionAppend { .. } => true,
            Step::Trim { trim_point } => trim_point < self.first_index || trim_point
                < self.last_index,
            Step::ApplySnapshot { snapshot, .. } => {
                ||| snapshot.index() < self.first_index
                ||| snapshot.index() < self.last_index
                ||| snapshot.reads_back()
            },
            Step::StoreRecord { discriminator, value } => {
                ||| discriminator != SNAPSHOT
                ||| self.first_index <= self.last_index
                ||| decoded_snapshot(value) matches Some(snapshot) && snapshot.index()
                    == self.last_index
            },
        }
    }
}

/// The entries that a call appends read back.
pub open spec fn appended_read_back(step: Step) -> bool {
    match step {
        Step::Append { entries, .. } => all_read_back(entries),
        Step::TransactionAppend { entries, .. } => all_read_back(entries),
        _ => true,
    }
}

/// What is held after these calls.
pub open spec fn after_steps(held: Held, steps: Seq<Step>) -> Held
    decreases steps.len(),
{
    if steps.len() == 0 {
        held
    } else {
        after_steps(held, steps.drop_last()).after(steps.last())
    }
}

/// Each of the calls may be made once those before it were.
pub open spec fn are_allowed(held: Held, steps: Seq<Step>) -> bool {
    forall|i: int|
        0 <= i < steps.len() ==> after_steps(held, #[trigger] steps.take(i)).allows(steps[i])
}

/// Each of the calls leaves the log anchored.
pub open spec fn stay_anchored(held: Held, steps: Seq<Step>) -> bool {
    forall|i: int|
        0 <= i < steps.len() ==> after_steps(held, #[trigger] steps.take(i)).stays_anchored(
            steps[i],
        )
}

/// All entries that the calls append read back.
pub open spec fn all_appended_read_back(steps: Seq<Step>) -> bool {
    forall|i: int| 0 <= i < steps.len() ==> appended_read_back(#[trigger] steps[i])
}

/// What is held agrees: where the log lies, the database has the records of the indices between
/// the bounds, and nothing else.
pub open spec fn agrees(held: Held) -> bool {
    &&& valid_bounds(held.first_index as int, held.last_index as int)
    &&& holds_keys(held.records, held.first_index as int, held.last_index as int)
}

proof fn lemma_step(held: Held, step: Step)
    requires
        agrees(held),
        held.allows(step),
    ensures
        agrees(held.after(step)),
        recoverable(held.records, held.first_index as int, held.last_index as int)
            && held.stays_anchored(step) ==> recoverable(
            held.after(step).records,
            held.after(step).first_index as int,
            held.after(step).last_index as int,
        ),
        holds_log(held.records, held.first_index as int, held.last_index as int)
            && appended_read_back(step) ==> holds_log(
            held.after(step).records,
            held.after(step).first_index as int,
            held.after(step).last_index as int,
        ),
{
    let records = held.records;
    let first = held.first_index;
    let last = held.last_index;
    let nothing = Seq::<WriteOpView>::empty();
    assert(apply_ops(records, nothing) == records);
    match step {
        Step::Append { entries, ops } => {
            if entries.len() == 0 {
                assert(ops =~= nothing);
            } else {
                law_append_makes_the_end_of_the_log(records, first, last, entries, ops);
            }
        },
        Step::TransactionAppend { entries, ops } => {
            assert(nothing + ops =~= ops);
            law_transaction_append_extends_the_log(records, nothing, first, last, entries, ops);
        },
        Step::Trim { trim_point } => {
            assert(nothing + held.ops(step) =~= held.ops(step));
            if trim_point >= first {
                law_trim_removes_the_start_of_the_log(records, nothing, first, last, trim_point);
            } else {
                assert(held.ops(step) =~= nothing);
            }
        },
        Step::ApplySnapshot { snapshot, hard_state, ops } => {
            if snapshot.index() < first {
                assert(ops =~= nothing);
            } else {
                assert(nothing + ops =~= ops);
                law_apply_snapshot_replaces_the_start_of_the_log(
                    records,
                    nothing,
                    first,
                    last,
                    snapshot,
                    hard_state,
                    ops,
                );
            }
        },
        Step::StoreRecord { discriminator, value } => {
            assert(nothing + held.ops(step) =~= held.ops(step));
            law_single_record_reads_back(records, nothing, discriminator, value, first, last);
        },
    }
}

/// After any calls the database has, where the log lies, the records of the indices between the
/// bounds that the storage keeps, and nothing else. If the entries read back, there is a readable
/// entry at each of the indices. If the log was never left empty without a snapshot that tells
/// where it is, the database tells the bounds.
pub proof fn law_calls_keep_the_log_between_its_bounds(held: Held, steps: Seq<Step>)
    requires
        agrees(held),
        are_allowed(held, steps),
    ensures
        ({
            let end = after_steps(held, steps);
            &&& agrees(end)
            &&& recoverable(held.records, held.first_index as int, held.last_index as int)
                && stay_anchored(held, steps) ==> recoverable(
                end.records,
                end.first_index as int,
                end.last_index as int,
            )
            &&& holds_log(held.records, held.first_index as int, held.last_index as int)
                && all_appended_read_back(steps) ==> holds_log(
                end.records,
                end.first_index as int,
                end.last_index as int,
            )
        }),
    decreases steps.len(),
{
    if steps.len() > 0 {
        let n = steps.len() - 1;
        let fewer = steps.drop_last();
        assert(fewer =~= steps.take(n));
        assert forall|i: int| 0 <= i < fewer.len() implies #[trigger] fewer.take(i) == steps.take(
            i,
        ) && fewer[i] == steps[i] by {
            assert(fewer.take(i) =~= steps.take(i));
        }
        assert(are_allowed(held, fewer)) by {
            assert forall|i: int| 0 <= i < fewer.len() implies after_steps(
                held,
                #[trigger] fewer.take(i),
            ).allows(fewer[i]) by {
                assert(fewer.take(i) == steps.take(i));
            }
        }
        if stay_anchored(held, steps) {
            assert forall|i: int| 0 <= i < fewer.len() implies after_steps(
                held,
                #[trigger] fewer.take(i),
            ).stays_anchored(fewer[i]) by {
                assert(fewer.take(i) == steps.take(i));
            }
        }
        if all_appended_read_back(steps) {
            assert forall|i: int| 0 <= i < fewer.len() implies appended_read_back(
                #[trigger] fewer[i],
            ) by {
                assert(appended_read_back(steps[i]));
            }
            assert(appended_read_back(steps[n]));
        }
        law_calls_keep_the_log_between_its_bounds(held, fewer);
        assert(after_steps(held, steps.take(n)).allows(steps[n]));
        lemma_step(after_steps(held, fewer), steps.last());
    }
}

/// A storage that is created anew after any calls finds the bounds that the storage before it
/// kept: from the records where the log has entries, whatever they hold, and else from the
/// snapshot.
pub proof fn law_bounds_survive_any_calls(steps: Seq<Step>, ends: Option<LogEnds>)
    requires
        are_allowed(Held::initial(), steps),
        ({
            let end = after_steps(Held::initial(), steps);
            &&& end.last_index < u64::MAX
            &&& end.first_index <= end.last_index || stay_anchored(Held::initial(), steps)
            &&& are_log_ends(end.records, ends)
        }),
    ensures
        ({
            let end = after_steps(Held::initial(), steps);
            &&& ends matches Some(ends) ==> well_formed_ends(ends)
            &&& recovered_bounds(
                ends,
                stored_snapshot_index(record(end.records, single_key(SNAPSHOT))),
            ) == (end.first_index as int, end.last_index as int)
        }),
{
    let end = after_steps(Held::initial(), steps);
    law_empty_database_is_recoverable();
    law_calls_keep_the_log_between_its_bounds(Held::initial(), steps);
    law_bounds_are_recovered(end.records, end.first_index, end.last_index, ends);
}

} // verus!
