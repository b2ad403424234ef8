//! The raft messages that the storage keeps, as plain values.
//!
//! Each message has a view over mathematical sequences. Contracts speak of the views.
//!
//! A message carries the fields along that its type does not define, as protobuf hands them out.
use vstd::prelude::*;

use crate::codec::list_unknown;
use crate::codec::no_unknown;
use crate::codec::unknown_values;

verus! {

/// The values of one field that a message does not define, by the form in which they were sent.
#[derive(Clone, Debug, PartialEq, Eq)]
pub struct UnknownField {
    pub number: u32,
    pub fixed32: Vec<u32>,
    pub fixed64: Vec<u64>,
    pub varint: Vec<u64>,
    pub length_delimited: Vec<Vec<u8>>,
}

#[verifier::ext_equal]
pub struct UnknownValuesView {
    pub fixed32: Seq<u32>,
    pub fixed64: Seq<u64>,
    pub varint: Seq<u64>,
    pub length_delimited: Seq<Seq<u8>>,
}

impl UnknownValuesView {
    /// There is no value at all.
    pub open spec fn is_empty(self) -> bool {
        &&& self.fixed32.len() == 0
        &&& self.fixed64.len() == 0
        &&& self.varint.len() == 0
        &&& self.length_delimited.len() == 0
    }

    /// No fewer bytes than the values take in a message. A tag takes at most 5 bytes, a varint 10
    /// and a length 5.
    pub open spec fn size(self) -> nat {
        9 * self.fixed32.len() + 13 * self.fixed64.len() + 15 * self.varint.len() + lengths_size(
            self.length_delimited,
        )
    }
}

/// No fewer bytes than these length-delimited values take in a message.
pub open spec fn lengths_size(values: Seq<Seq<u8>>) -> nat
    decreases values.len(),
{
    if values.len() == 0 {
        0
    } else {
        lengths_size(values.drop_last()) + values.last().len() + 10
    }
}

impl View for UnknownField {
    type V = UnknownValuesView;

    open spec fn view(&self) -> UnknownValuesView {
        UnknownValuesView {
            fixed32: self.fixed32@,
            fixed64: self.fixed64@,
            varint: self.varint@,
            length_delimited: Seq::new(
                self.length_delimited@.len(),
                |i: int| self.length_delimited@[i]@,
            ),
        }
    }
}

/// The fields that a message does not define, by their numbers.
pub type UnknownView = Map<u32, UnknownValuesView>;

/// The largest number that a field can have.
pub const FIELD_NUMBER_MAX: u32 = 0x1fff_ffff;

/// The numbers are such that fields can have.
pub open spec fn are_field_numbers(unknown: UnknownView) -> bool {
    forall|number: u32| #[trigger]
        unknown.contains_key(number) ==> 1 <= number <= FIELD_NUMBER_MAX
}

/// No fewer bytes than the fields take in a message.
pub open spec fn unknown_size(unknown: UnknownView) -> nat {
    unknown.dom().fold(0nat, |size: nat, number: u32| size + unknown[number].size())
}

/// No fields take no bytes.
pub proof fn lemma_no_unknown_takes_nothing()
    ensures
        unknown_size(UnknownView::empty()) == 0,
        are_field_numbers(UnknownView::empty()),
{
    let unknown = UnknownView::empty();
    let add_size = |size: nat, number: u32| size + unknown[number].size();
    vstd::set::fold::lemma_fold_empty(0nat, add_size);
    assert(unknown.dom() =~= Set::<u32>::empty());
}

/// The fields are none of a message's own, which are numbered up to `own`, and each has a value.
pub open spec fn are_foreign(unknown: UnknownView, own: u32) -> bool {
    forall|number: u32| #[trigger]
        unknown.contains_key(number) ==> own < number <= FIELD_NUMBER_MAX
            && !unknown[number].is_empty()
}

/// There are no two fields, so that there is but one order to write them in.
pub open spec fn have_one_order(unknown: UnknownView) -> bool {
    forall|a: u32, b: u32| #[trigger]
        unknown.contains_key(a) && #[trigger] unknown.contains_key(b) ==> a == b
}

/// The list has each field once.
pub open spec fn lists(list: Seq<UnknownField>, unknown: UnknownView) -> bool {
    &&& forall|i: int|
        0 <= i < list.len() ==> unknown.contains_key((#[trigger] list[i]).number)
            && unknown[list[i].number] == list[i]@
    &&& forall|i: int, j: int|
        0 <= i < j < list.len() ==> (#[trigger] list[i]).number != (#[trigger] list[j]).number
    &&& forall|number: u32| #[trigger]
        unknown.contains_key(number) ==> exists|i: int|
            0 <= i < list.len() && (#[trigger] list[i]).number == number
}

/// What a log entry carries.
#[derive(Clone, Copy, Debug, PartialEq, Eq, Structural)]
pub enum EntryType {
    EntryNormal,
    EntryConfChange,
    EntryConfChangeV2,
}

/// One entry of the raft log.
#[derive(Clone, Debug, PartialEq, Eq)]
pub struct Entry {
    pub entry_type: EntryType,
    pub term: u64,
    pub index: u64,
    pub data: Vec<u8>,
    pub context: Vec<u8>,
    pub sync_log: bool,
    pub unknown_fields: protobuf::UnknownFields,
}

#[verifier::ext_equal]
pub struct EntryView {
    pub entry_type: EntryType,
    pub term: u64,
    pub index: u64,
    pub data: Seq<u8>,
    pub context: Seq<u8>,
    pub sync_log: bool,
    pub unknown: UnknownView,
}

impl EntryView {
    /// What is written of the entry can be told from its own fields, so that it reads back.
    pub open spec fn reads_back(self) -> bool {
        are_foreign(self.unknown, 6)
    }

    /// There is but one way to write the entry.
    pub open spec fn has_one_form(self) -> bool {
        have_one_order(self.unknown)
    }
}

impl View for Entry {
    type V = EntryView;

    open spec fn view(&self) -> EntryView {
        EntryView {
            entry_type: self.entry_type,
            term: self.term,
            index: self.index,
            data: self.data@,
            context: self.context@,
            sync_log: self.sync_log,
            unknown: unknown_values(self.unknown_fields),
        }
    }
}

impl Default for Entry {
    fn default() -> (entry: Self)
        ensures
            entry.entry_type == EntryType::EntryNormal,
            entry.term == 0,
            entry.index == 0,
            entry.data@ == Seq::<u8>::empty(),
            entry.context@ == Seq::<u8>::empty(),
            !entry.sync_log,
            entry@.unknown == UnknownView::empty(),
    {
        Entry {
            entry_type: EntryType::EntryNormal,
            term: 0,
            index: 0,
            data: Vec::new(),
            context: Vec::new(),
            sync_log: false,
            unknown_fields: no_unknown(),
        }
    }
}

/// The views of a sequence of entries.
pub open spec fn entry_views(entries: Seq<Entry>) -> Seq<EntryView> {
    Seq::new(entries.len(), |i: int| entries[i]@)
}

/// The part of a raft node's state that must survive a restart.
#[derive(Clone, Debug, PartialEq, Eq)]
pub struct HardState {
    pub term: u64,
    pub vote: u64,
    pub commit: u64,
    pub unknown_fields: protobuf::UnknownFields,
}

#[verifier::ext_equal]
pub struct HardStateView {
    pub term: u64,
    pub vote: u64,
    pub commit: u64,
    pub unknown: UnknownView,
}

impl HardStateView {
    /// The state of a node that has never voted nor committed.
    pub open spec fn initial() -> HardStateView {
        HardStateView { term: 0, vote: 0, commit: 0, unknown: UnknownView::empty() }
    }

    /// As `EntryView::reads_back`.
    pub open spec fn reads_back(self) -> bool {
        are_foreign(self.unknown, 3)
    }

    /// As `EntryView::has_one_form`.
    pub open spec fn has_one_form(self) -> bool {
        have_one_order(self.unknown)
    }
}

impl View for HardState {
    type V = HardStateView;

    open spec fn view(&self) -> HardStateView {
        HardStateView {
            term: self.term,
            vote: self.vote,
            commit: self.commit,
            unknown: unknown_values(self.unknown_fields),
        }
    }
}

impl Default for HardState {
    fn default() -> (hard_state: Self)
        ensures
            hard_state@ == HardStateView::initial(),
    {
        HardState { term: 0, vote: 0, commit: 0, unknown_fields: no_unknown() }
    }
}

impl HardState {
    /// Whether this is the default value.
    pub fn is_default(&self) -> (b: bool)
        ensures
            b == (self@ == HardStateView::initial()),
    {
        self.term == 0 && self.vote == 0 && self.commit == 0 && has_no_unknown(
            &self.unknown_fields,
        )
    }
}

/// Whether there is no field that the message does not define.
fn has_no_unknown(fields: &protobuf::UnknownFields) -> (b: bool)
    ensures
        b == (unknown_values(*fields) == UnknownView::empty()),
{
    let list = list_unknown(fields);
    let b = list.len() == 0;
    proof {
        if b {
            assert(unknown_values(*fields) =~= UnknownView::empty());
        } else {
            assert(unknown_values(*fields).contains_key(list@[0].number));
        }
    }
    b
}

/// The members of a raft group.
#[derive(Clone, Debug, PartialEq, Eq)]
pub struct ConfState {
    pub voters: Vec<u64>,
    pub learners: Vec<u64>,
    pub voters_outgoing: Vec<u64>,
    pub learners_next: Vec<u64>,
    pub auto_leave: bool,
    pub unknown_fields: protobuf::UnknownFields,
}

#[verifier::ext_equal]
pub struct ConfStateView {
    pub voters: Seq<u64>,
    pub learners: Seq<u64>,
    pub voters_outgoing: Seq<u64>,
    pub learners_next: Seq<u64>,
    pub auto_leave: bool,
    pub unknown: UnknownView,
}

impl ConfStateView {
    /// A group without members.
    pub open spec fn initial() -> ConfStateView {
        ConfStateView {
            voters: Seq::empty(),
            learners: Seq::empty(),
            voters_outgoing: Seq::empty(),
            learners_next: Seq::empty(),
            auto_leave: false,
            unknown: UnknownView::empty(),
        }
    }

    /// How many members are listed, each list counted.
    pub open spec fn members(self) -> nat {
        self.voters.len() + self.learners.len() + self.voters_outgoing.len()
            + self.learners_next.len()
    }

    /// As `EntryView::reads_back`.
    pub open spec fn reads_back(self) -> bool {
        are_foreign(self.unknown, 5)
    }

    /// As `EntryView::has_one_form`.
    pub open spec fn has_one_form(self) -> bool {
        have_one_order(self.unknown)
    }
}

impl View for ConfState {
    type V = ConfStateView;

    open spec fn view(&self) -> ConfStateView {
        ConfStateView {
            voters: self.voters@,
            learners: self.learners@,
            voters_outgoing: self.voters_outgoing@,
            learners_next: self.learners_next@,
            auto_leave: self.auto_leave,
            unknown: unknown_values(self.unknown_fields),
        }
    }
}

impl Default for ConfState {
    fn default() -> (conf_state: Self)
        ensures
            conf_state@ == ConfStateView::initial(),
    {
        ConfState {
            voters: Vec::new(),
            learners: Vec::new(),
            voters_outgoing: Vec::new(),
            learners_next: Vec::new(),
            auto_leave: false,
            unknown_fields: no_unknown(),
        }
    }
}

impl ConfState {
    /// Whether this is the default value.
    pub fn is_default(&self) -> (b: bool)
        ensures
            b == (self@ == ConfStateView::initial()),
    {
        let b = self.voters.len() == 0 && self.learners.len() == 0 && self.voters_outgoing.len()
            == 0 && self.learners_next.len() == 0 && !self.auto_leave && has_no_unknown(
            &self.unknown_fields,
        );
        proof {
            if b {
                assert(self@ =~= ConfStateView::initial());
            }
        }
        b
    }
}

/// What a snapshot says of the log that it replaces.
#[derive(Clone, Debug, PartialEq, Eq)]
pub struct SnapshotMetadata {
    pub conf_state: Option<ConfState>,
    pub index: u64,
    pub term: u64,
    pub unknown_fields: protobuf::UnknownFields,
}

pub struct SnapshotMetadataView {
    pub conf_state: Option<ConfStateView>,
    pub index: u64,
    pub term: u64,
    pub unknown: UnknownView,
}

impl SnapshotMetadataView {
    /// As `EntryView::reads_back`.
    pub open spec fn reads_back(self) -> bool {
        &&& are_foreign(self.unknown, 3)
        &&& self.conf_state matches Some(conf_state) ==> conf_state.reads_back()
    }

    /// As `EntryView::has_one_form`.
    pub open spec fn has_one_form(self) -> bool {
        &&& have_one_order(self.unknown)
        &&& self.conf_state matches Some(conf_state) ==> conf_state.has_one_form()
    }

    /// No fewer bytes than the fields that are not defined take.
    pub open spec fn unknown_size(self) -> nat {
        unknown_size(self.unknown) + match self.conf_state {
            Some(conf_state) => unknown_size(conf_state.unknown),
            None => 0,
        }
    }

    /// All numbers of fields that are not defined are such that fields can have.
    pub open spec fn has_field_numbers(self) -> bool {
        &&& are_field_numbers(self.unknown)
        &&& self.conf_state matches Some(conf_state) ==> are_field_numbers(conf_state.unknown)
    }
}

impl View for SnapshotMetadata {
    type V = SnapshotMetadataView;

    open spec fn view(&self) -> SnapshotMetadataView {
        SnapshotMetadataView {
            conf_state: match self.conf_state {
                Some(conf_state) => Some(conf_state@),
                None => None,
            },
            index: self.index,
            term: self.term,
            unknown: unknown_values(self.unknown_fields),
        }
    }
}

/// The state machine at some log index.
#[derive(Clone, Debug, PartialEq, Eq)]
pub struct Snapshot {
    pub data: Vec<u8>,
    pub metadata: Option<SnapshotMetadata>,
    pub unknown_fields: protobuf::UnknownFields,
}

pub struct SnapshotView {
    pub data: Seq<u8>,
    pub metadata: Option<SnapshotMetadataView>,
    pub unknown: UnknownView,
}

impl SnapshotView {
    /// No snapshot: no data and no metadata.
    pub open spec fn initial() -> SnapshotView {
        SnapshotView { data: Seq::empty(), metadata: None, unknown: UnknownView::empty() }
    }

    /// As `EntryView::reads_back`.
    pub open spec fn reads_back(self) -> bool {
        &&& are_foreign(self.unknown, 2)
        &&& self.metadata matches Some(metadata) ==> metadata.reads_back()
    }

    /// As `EntryView::has_one_form`.
    pub open spec fn has_one_form(self) -> bool {
        &&& have_one_order(self.unknown)
        &&& self.metadata matches Some(metadata) ==> metadata.has_one_form()
    }

    /// No fewer bytes than the fields that are not defined take.
    pub open spec fn unknown_size(self) -> nat {
        unknown_size(self.unknown) + match self.metadata {
            Some(metadata) => metadata.unknown_size(),
            None => 0,
        }
    }

    /// All numbers of fields that are not defined are such that fields can have.
    pub open spec fn has_field_numbers(self) -> bool {
        &&& are_field_numbers(self.unknown)
        &&& self.metadata matches Some(metadata) ==> metadata.has_field_numbers()
    }

    /// The last log index that the snapshot covers; 0 without metadata.
    pub open spec fn index(self) -> u64 {
        match self.metadata {
            Some(metadata) => metadata.index,
            None => 0,
        }
    }

    /// The term of the entry at that index; 0 without metadata.
    pub open spec fn term(self) -> u64 {
        match self.metadata {
            Some(metadata) => metadata.term,
            None => 0,
        }
    }

    /// The members as of that index; none without metadata.
    pub open spec fn conf_state(self) -> ConfStateView {
        match self.metadata {
            Some(metadata) => match metadata.conf_state {
                Some(conf_state) => conf_state,
                None => ConfStateView::initial(),
            },
            None => ConfStateView::initial(),
        }
    }
}

impl View for Snapshot {
    type V = SnapshotView;

    open spec fn view(&self) -> SnapshotView {
        SnapshotView {
            data: self.data@,
            metadata: match self.metadata {
                Some(metadata) => Some(metadata@),
                None => None,
            },
            unknown: unknown_values(self.unknown_fields),
        }
    }
}

impl Default for Snapshot {
    fn default() -> (snapshot: Self)
        ensures
            snapshot@ == SnapshotView::initial(),
    {
        let snapshot = Snapshot {
            data: Vec::new(),
            metadata: None,
            unknown_fields: no_unknown(),
        };
        assert(snapshot@.data =~= Seq::<u8>::empty());
        snapshot
    }
}

impl Snapshot {
    /// The last log index that the snapshot covers; 0 without metadata.
    pub fn index(&self) -> (index: u64)
        ensures
            index == self@.index(),
    {
        match &self.metadata {
            Some(metadata) => metadata.index,
            None => 0,
        }
    }

    /// The term of the entry at that index; 0 without metadata.
    pub fn term(&self) -> (term: u64)
        ensures
            term == self@.term(),
    {
        match &self.metadata {
            Some(metadata) => metadata.term,
            None => 0,
        }
    }

    /// The members as of that index; `no_members` where the snapshot names none.
    pub fn conf_state_or<'a>(&'a self, no_members: &'a ConfState) -> (conf_state: &'a ConfState)
        requires
            no_members@ == ConfStateView::initial(),
        ensures
            conf_state@ == self@.conf_state(),
    {
        match &self.metadata {
            Some(metadata) => match &metadata.conf_state {
                Some(conf_state) => conf_state,
                None => no_members,
            },
            None => no_members,
        }
    }

    /// A snapshot that covers nothing is empty.
    pub fn is_empty(&self) -> (b: bool)
        ensures
            b == (self@.index() == 0),
    {
        self.index() == 0
    }
}

} // verus!
