//! The stored form of the raft messages: protobuf, written through a reusable buffer.
//!
//! The calls into `bytes` and `protobuf` stand here, each behind a function whose contract is
//! believed. What protobuf writes for a message and what it reads from bytes are named, not
//! described; beside the names stands one fact, that reading gives back what was written.
//!
//! Fields that a message does not define are kept. Protobuf holds them in a hash table and writes
//! them in the order in which it walks the table. So where there are several, what is written is
//! not a function of the message; what is read from it still is the message.
use bytes::BufMut;
use protobuf::Message;
use raft::eraftpb;
use vstd::prelude::*;

use crate::messages::are_field_numbers;
use crate::messages::lists;
use crate::messages::unknown_size;
use crate::messages::ConfState;
use crate::messages::ConfStateView;
use crate::messages::Entry;
use crate::messages::EntryType;
use crate::messages::EntryView;
use crate::messages::HardState;
use crate::messages::HardStateView;
use crate::messages::Snapshot;
use crate::messages::SnapshotMetadata;
use crate::messages::SnapshotView;
use crate::messages::UnknownField;
use crate::messages::UnknownView;

verus! {

#[verifier::external_type_specification]
#[verifier::external_body]
pub struct ExBytesMut(bytes::BytesMut);

#[verifier::external_type_specification]
#[verifier::external_body]
pub struct ExProtobufError(protobuf::ProtobufError);

#[verifier::external_type_specification]
#[verifier::external_body]
pub struct ExUnknownFields(protobuf::UnknownFields);

/// The fields that protobuf has set aside because the message does not define them.
pub uninterp spec fn unknown_values(fields: protobuf::UnknownFields) -> UnknownView;

/// `Clone::clone` of what protobuf has set aside: the copy has the same fields.
pub assume_specification [<protobuf::UnknownFields as Clone>::clone](
    fields: &protobuf::UnknownFields,
) -> (copy: protobuf::UnknownFields)
    ensures
        unknown_values(copy) == unknown_values(*fields),
;

/// The bytes that a buffer holds.
pub uninterp spec fn buffer_bytes(buffer: bytes::BytesMut) -> Seq<u8>;

/// The bytes that protobuf writes for an entry that there is one way to write.
pub uninterp spec fn encoded_entry(entry: EntryView) -> Seq<u8>;

/// The entry that protobuf reads from these bytes; `None` where it refuses them.
pub uninterp spec fn decoded_entry(bytes: Seq<u8>) -> Option<EntryView>;

/// The bytes that protobuf writes for a hard state that there is one way to write.
pub uninterp spec fn encoded_hard_state(hard_state: HardStateView) -> Seq<u8>;

/// The hard state that protobuf reads from these bytes; `None` where it refuses them.
pub uninterp spec fn decoded_hard_state(bytes: Seq<u8>) -> Option<HardStateView>;

/// The bytes that protobuf writes for a conf state that there is one way to write.
pub uninterp spec fn encoded_conf_state(conf_state: ConfStateView) -> Seq<u8>;

/// The conf state that protobuf reads from these bytes; `None` where it refuses them.
pub uninterp spec fn decoded_conf_state(bytes: Seq<u8>) -> Option<ConfStateView>;

/// The bytes that protobuf writes for a snapshot that there is one way to write.
pub uninterp spec fn encoded_snapshot(snapshot: SnapshotView) -> Seq<u8>;

/// The snapshot that protobuf reads from these bytes; `None` where it refuses them.
pub uninterp spec fn decoded_snapshot(bytes: Seq<u8>) -> Option<SnapshotView>;

/// Protobuf counts a message's size in 32 bits. The tags, lengths and integers of an entry's own
/// fields take fewer than 64 bytes.
pub open spec fn entry_fits(entry: EntryView) -> bool {
    &&& entry.data.len() + entry.context.len() + unknown_size(entry.unknown) + 64 <= u32::MAX
    &&& are_field_numbers(entry.unknown)
}

/// As `entry_fits`.
pub open spec fn hard_state_fits(hard_state: HardStateView) -> bool {
    &&& unknown_size(hard_state.unknown) + 64 <= u32::MAX
    &&& are_field_numbers(hard_state.unknown)
}

/// As `entry_fits`. Each listed member takes at most 11 bytes.
pub open spec fn conf_state_fits(conf_state: ConfStateView) -> bool {
    &&& 11 * conf_state.members() + unknown_size(conf_state.unknown) + 64 <= u32::MAX
    &&& are_field_numbers(conf_state.unknown)
}

/// As `entry_fits`.
pub open spec fn snapshot_fits(snapshot: SnapshotView) -> bool {
    &&& snapshot.data.len() + 11 * snapshot.conf_state().members() + snapshot.unknown_size() + 64
        <= u32::MAX
    &&& snapshot.has_field_numbers()
}

/// `UnknownFields::new`: there are no fields.
#[verifier::external_body]
pub(crate) fn no_unknown() -> (fields: protobuf::UnknownFields)
    ensures
        unknown_values(fields) == UnknownView::empty(),
{
    protobuf::UnknownFields::new()
}

/// `UnknownFields::iter`: it gives each field once, with its values in their order. In which order
/// the fields come is not said.
#[verifier::external_body]
pub(crate) fn list_unknown(fields: &protobuf::UnknownFields) -> (list: Vec<UnknownField>)
    ensures
        lists(list@, unknown_values(*fields)),
{
    let list = fields.iter().map(|(number, values)| UnknownField {
        number,
        fixed32: values.fixed32.clone(),
        fixed64: values.fixed64.clone(),
        varint: values.varint.clone(),
        length_delimited: values.length_delimited.clone(),
    });
    list.collect()
}

/// `BytesMut::with_capacity`: the new buffer holds no bytes.
#[verifier::external_body]
pub(crate) fn buffer_with_capacity(capacity: usize) -> (buffer: bytes::BytesMut)
    requires
        capacity <= isize::MAX,
    ensures
        buffer_bytes(buffer) == Seq::<u8>::empty(),
{
    bytes::BytesMut::with_capacity(capacity)
}

/// `BytesMut::clear`: afterwards the buffer holds no bytes.
#[verifier::external_body]
pub(crate) fn buffer_clear(buffer: &mut bytes::BytesMut)
    ensures
        buffer_bytes(*final(buffer)) == Seq::<u8>::empty(),
{
    buffer.clear()
}

/// A copy of the buffer's bytes, through `BytesMut`'s `AsRef<[u8]>`.
#[verifier::external_body]
pub(crate) fn buffer_to_vec(buffer: &bytes::BytesMut) -> (bytes: Vec<u8>)
    ensures
        bytes@ == buffer_bytes(*buffer),
{
    buffer.as_ref().to_vec()
}

/// `Message::write_to_writer` of an entry, into an empty buffer: afterwards the buffer holds an
/// encoding of the entry. It reads back as the same entry, unless fields that are not defined are
/// numbered as the entry's own ones are. It is a function of the entry where there are not several
/// fields that are not defined; in which order several are written is not said. The call fails
/// only where a required field is missing, which this message has none of, or where the writer
/// fails, which a growing buffer does not.
#[verifier::external_body]
pub(crate) fn write_entry(entry: &Entry, buffer: &mut bytes::BytesMut) -> (r: Result<
    (),
    protobuf::ProtobufError,
>)
    requires
        buffer_bytes(*old(buffer)).len() == 0,
        entry_fits(entry@),
    ensures
        r is Ok,
        entry@.reads_back() ==> decoded_entry(buffer_bytes(*final(buffer))) == Some(entry@),
        entry@.has_one_form() ==> buffer_bytes(*final(buffer)) == encoded_entry(entry@),
{
    let mut message = eraftpb::Entry::default();
    message.set_entry_type(match entry.entry_type {
        EntryType::EntryNormal => eraftpb::EntryType::EntryNormal,
        EntryType::EntryConfChange => eraftpb::EntryType::EntryConfChange,
        EntryType::EntryConfChangeV2 => eraftpb::EntryType::EntryConfChangeV2,
    });
    message.set_term(entry.term);
    message.set_index(entry.index);
    message.set_data(entry.data.clone().into());
    message.set_context(entry.context.clone().into());
    message.set_sync_log(entry.sync_log);
    message.unknown_fields = entry.unknown_fields.clone();
    message.write_to_writer(&mut buffer.writer())
}

/// `Message::merge_from_bytes` into a default entry. What is read is an entry that would read back:
/// the fields that are not defined are numbered otherwise than the entry's own ones, and each has
/// a value.
#[verifier::external_body]
pub(crate) fn read_entry(bytes: &[u8]) -> (r: Result<Entry, protobuf::ProtobufError>)
    ensures
        match decoded_entry(bytes@) {
            Some(entry) => r matches Ok(value) && value@ == entry && value@.reads_back(),
            None => r is Err,
        },
{
    let mut message = eraftpb::Entry::default();
    message.merge_from_bytes(bytes)?;
    let entry_type = match message.get_entry_type() {
        eraftpb::EntryType::EntryNormal => EntryType::EntryNormal,
        eraftpb::EntryType::EntryConfChange => EntryType::EntryConfChange,
        eraftpb::EntryType::EntryConfChangeV2 => EntryType::EntryConfChangeV2,
    };
    let (term, index) = (message.get_term(), message.get_index());
    let (data, context) = (message.get_data().to_vec(), message.get_context().to_vec());
    let (sync_log, unknown_fields) = (message.get_sync_log(), message.unknown_fields);
    Ok(Entry { entry_type, term, index, data, context, sync_log, unknown_fields })
}

/// `Message::write_to_writer` of a hard state; as `write_entry`.
#[verifier::external_body]
pub(crate) fn write_hard_state(hard_state: &HardState, buffer: &mut bytes::BytesMut) -> (r: Result<
    (),
    protobuf::ProtobufError,
>)
    requires
        buffer_bytes(*old(buffer)).len() == 0,
        hard_state_fits(hard_state@),
    ensures
        r is Ok,
        hard_state@.reads_back() ==> decoded_hard_state(buffer_bytes(*final(buffer))) == Some(
            hard_state@,
        ),
        hard_state@.has_one_form() ==> buffer_bytes(*final(buffer)) == encoded_hard_state(
            hard_state@,
        ),
{
    let mut message = eraftpb::HardState::default();
    message.set_term(hard_state.term);
    message.set_vote(hard_state.vote);
    message.set_commit(hard_state.commit);
    message.unknown_fields = hard_state.unknown_fields.clone();
    message.write_to_writer(&mut buffer.writer())
}

/// `Message::merge_from_bytes` into a default hard state; as `read_entry`.
#[verifier::external_body]
pub(crate) fn read_hard_state(bytes: &[u8]) -> (r: Result<HardState, protobuf::ProtobufError>)
    ensures
        match decoded_hard_state(bytes@) {
            Some(hard_state) => r matches Ok(value) && value@ == hard_state && value@.reads_back(),
            None => r is Err,
        },
{
    let mut message = eraftpb::HardState::default();
    message.merge_from_bytes(bytes)?;
    let (term, vote, commit) = (message.get_term(), message.get_vote(), message.get_commit());
    Ok(HardState { term, vote, commit, unknown_fields: message.unknown_fields })
}

/// `Message::write_to_writer` of a conf state; as `write_entry`.
#[verifier::external_body]
pub(crate) fn write_conf_state(conf_state: &ConfState, buffer: &mut bytes::BytesMut) -> (r: Result<
    (),
    protobuf::ProtobufError,
>)
    requires
        buffer_bytes(*old(buffer)).len() == 0,
        conf_state_fits(conf_state@),
    ensures
        r is Ok,
        conf_state@.reads_back() ==> decoded_conf_state(buffer_bytes(*final(buffer))) == Some(
            conf_state@,
        ),
        conf_state@.has_one_form() ==> buffer_bytes(*final(buffer)) == encoded_conf_state(
            conf_state@,
        ),
{
    let mut message = eraftpb::ConfState::default();
    message.set_voters(conf_state.voters.clone());
    message.set_learners(conf_state.learners.clone());
    message.set_voters_outgoing(conf_state.voters_outgoing.clone());
    message.set_learners_next(conf_state.learners_next.clone());
    message.set_auto_leave(conf_state.auto_leave);
    message.unknown_fields = conf_state.unknown_fields.clone();
    message.write_to_writer(&mut buffer.writer())
}

/// `Message::merge_from_bytes` into a default conf state; as `read_entry`.
#[verifier::external_body]
pub(crate) fn read_conf_state(bytes: &[u8]) -> (r: Result<ConfState, protobuf::ProtobufError>)
    ensures
        match decoded_conf_state(bytes@) {
            Some(conf_state) => r matches Ok(value) && value@ == conf_state && value@.reads_back(),
            None => r is Err,
        },
{
    let mut message = eraftpb::ConfState::default();
    message.merge_from_bytes(bytes)?;
    Ok(
        ConfState {
            voters: message.take_voters(),
            learners: message.take_learners(),
            voters_outgoing: message.take_voters_outgoing(),
            learners_next: message.take_learners_next(),
            auto_leave: message.get_auto_leave(),
            unknown_fields: message.unknown_fields,
        },
    )
}

/// `Message::write_to_writer` of a snapshot; as `write_entry`.
#[verifier::external_body]
pub(crate) fn write_snapshot(snapshot: &Snapshot, buffer: &mut bytes::BytesMut) -> (r: Result<
    (),
    protobuf::ProtobufError,
>)
    requires
        buffer_bytes(*old(buffer)).len() == 0,
        snapshot_fits(snapshot@),
    ensures
        r is Ok,
        snapshot@.reads_back() ==> decoded_snapshot(buffer_bytes(*final(buffer))) == Some(
            snapshot@,
        ),
        snapshot@.has_one_form() ==> buffer_bytes(*final(buffer)) == encoded_snapshot(snapshot@),
{
    let mut message = eraftpb::Snapshot::default();
    message.set_data(snapshot.data.clone().into());
    let metadata = snapshot.metadata.clone().map(|m| eraftpb::SnapshotMetadata {
        conf_state: m.conf_state.map(|c| eraftpb::ConfState {
            voters: c.voters, learners: c.learners,
            voters_outgoing: c.voters_outgoing, learners_next: c.learners_next,
            auto_leave: c.auto_leave, unknown_fields: c.unknown_fields, ..Default::default()
        }).into(),
        index: m.index, term: m.term, unknown_fields: m.unknown_fields, ..Default::default()
    });
    message.metadata = metadata.into();
    message.unknown_fields = snapshot.unknown_fields.clone();
    message.write_to_writer(&mut buffer.writer())
}

/// `Message::merge_from_bytes` into a default snapshot; as `read_entry`.
#[verifier::external_body]
pub(crate) fn read_snapshot(bytes: &[u8]) -> (r: Result<Snapshot, protobuf::ProtobufError>)
    ensures
        match decoded_snapshot(bytes@) {
            Some(snapshot) => r matches Ok(value) && value@ == snapshot && value@.reads_back(),
            None => r is Err,
        },
{
    let mut message = eraftpb::Snapshot::default();
    message.merge_from_bytes(bytes)?;
    let data = message.take_data().to_vec();
    let metadata = message.metadata.take().map(|mut m| SnapshotMetadata {
        conf_state: m.conf_state.take().map(|c| ConfState {
            voters: c.voters, learners: c.learners,
            voters_outgoing: c.voters_outgoing, learners_next: c.learners_next,
            auto_leave: c.auto_leave, unknown_fields: c.unknown_fields,
        }),
        index: m.index, term: m.term, unknown_fields: m.unknown_fields,
    });
    Ok(Snapshot { data, metadata, unknown_fields: message.unknown_fields })
}

} // verus!
