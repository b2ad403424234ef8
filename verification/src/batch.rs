//! What is to be written to the column family in one go, and what that does to its records.
use vstd::prelude::*;

verus! {

/// One change to a record.
#[derive(Clone, Debug, PartialEq, Eq)]
pub enum WriteOp {
    Put { key: Vec<u8>, value: Vec<u8> },
    Delete { key: Vec<u8> },
}

#[verifier::ext_equal]
pub enum WriteOpView {
    Put { key: Seq<u8>, value: Seq<u8> },
    Delete { key: Seq<u8> },
}

impl View for WriteOp {
    type V = WriteOpView;

    open spec fn view(&self) -> WriteOpView {
        match *self {
            WriteOp::Put { key, value } => WriteOpView::Put { key: key@, value: value@ },
            WriteOp::Delete { key } => WriteOpView::Delete { key: key@ },
        }
    }
}

/// Changes that take effect together, in the order in which they were added.
#[derive(Debug, PartialEq, Eq)]
pub struct WriteBatch {
    pub ops: Vec<WriteOp>,
}

impl View for WriteBatch {
    type V = Seq<WriteOpView>;

    open spec fn view(&self) -> Seq<WriteOpView> {
        Seq::new(self.ops@.len(), |i: int| self.ops@[i]@)
    }
}

/// The records of the column family.
pub type Records = Map<Seq<u8>, Seq<u8>>;

/// The records after one change.
pub open spec fn apply_op(records: Records, op: WriteOpView) -> Records {
    match op {
        WriteOpView::Put { key, value } => records.insert(key, value),
        WriteOpView::Delete { key } => records.remove(key),
    }
}

/// The records after the changes, one after the other.
pub open spec fn apply_ops(records: Records, ops: Seq<WriteOpView>) -> Records
    decreases ops.len(),
{
    if ops.len() == 0 {
        records
    } else {
        apply_op(apply_ops(records, ops.drop_last()), ops.last())
    }
}

fn copy_bytes(bytes: &[u8]) -> (copy: Vec<u8>)
    ensures
        copy@ == bytes@,
{
    let mut copy: Vec<u8> = Vec::new();
    copy.extend_from_slice(bytes);
    assert(copy@ =~= bytes@);
    copy
}

impl WriteBatch {
    /// A batch without changes.
    pub fn new() -> (batch: Self)
        ensures
            batch@ == Seq::<WriteOpView>::empty(),
    {
        let batch = WriteBatch { ops: Vec::new() };
        assert(batch@ =~= Seq::<WriteOpView>::empty());
        batch
    }

    /// Whether there is nothing to write.
    pub fn is_empty(&self) -> (b: bool)
        ensures
            b == (self@.len() == 0),
    {
        self.ops.len() == 0
    }

    /// Adds that `value` is written under `key`.
    pub fn put(&mut self, key: &[u8], value: Vec<u8>)
        ensures
            final(self)@ == old(self)@.push(WriteOpView::Put { key: key@, value: value@ }),
    {
        self.ops.push(WriteOp::Put { key: copy_bytes(key), value });
        assert(self@ =~= old(self)@.push(WriteOpView::Put { key: key@, value: value@ }));
    }

    /// Adds that what is under `key` is deleted.
    pub fn delete(&mut self, key: &[u8])
        ensures
            final(self)@ == old(self)@.push(WriteOpView::Delete { key: key@ }),
    {
        self.ops.push(WriteOp::Delete { key: copy_bytes(key) });
        assert(self@ =~= old(self)@.push(WriteOpView::Delete { key: key@ }));
    }
}

/// Two batches written one after the other do what one batch with the changes of both does.
pub proof fn law_batches_compose(
    records: Records,
    first: Seq<WriteOpView>,
    second: Seq<WriteOpView>,
)
    ensures
        apply_ops(records, first + second) == apply_ops(apply_ops(records, first), second),
    decreases second.len(),
{
    if second.len() == 0 {
        assert(first + second =~= first);
    } else {
        law_batches_compose(records, first, second.drop_last());
        assert((first + second).drop_last() =~= first + second.drop_last());
        assert((first + second).last() == second.last());
    }
}

} // verus!
