//! Whether protobuf can write a message: it counts a message's size in 32 bits.
use vstd::prelude::*;

use crate::codec::conf_state_fits;
use crate::codec::entry_fits;
use crate::codec::hard_state_fits;
use crate::codec::list_unknown;
use crate::codec::snapshot_fits;
use crate::codec::unknown_values;
use crate::messages::are_field_numbers;
use crate::messages::lengths_size;
use crate::messages::lists;
use crate::messages::unknown_size;
use crate::messages::ConfState;
use crate::messages::Entry;
use crate::messages::HardState;
use crate::messages::Snapshot;
use crate::messages::UnknownField;
use crate::messages::UnknownView;
use crate::messages::FIELD_NUMBER_MAX;

verus! {

/// No fewer bytes than the listed fields take in a message.
spec fn list_size(list: Seq<UnknownField>) -> nat
    decreases list.len(),
{
    if list.len() == 0 {
        0
    } else {
        list_size(list.drop_last()) + list.last()@.size()
    }
}

/// The numbers of the listed fields.
spec fn numbers(list: Seq<UnknownField>) -> Set<u32>
    decreases list.len(),
{
    if list.len() == 0 {
        Set::empty()
    } else {
        numbers(list.drop_last()).insert(list.last().number)
    }
}

proof fn lemma_numbers(list: Seq<UnknownField>, n: int)
    requires
        0 <= n <= list.len(),
    ensures
        numbers(list.take(n)).finite(),
        forall|number: u32| #[trigger]
            numbers(list.take(n)).contains(number) <==> exists|i: int|
                0 <= i < n && (#[trigger] list[i]).number == number,
    decreases n,
{
    if n > 0 {
        lemma_numbers(list, n - 1);
        assert(list.take(n).drop_last() =~= list.take(n - 1));
        assert forall|number: u32| #[trigger] numbers(list.take(n)).contains(number) <==> exists|
            i: int,
        |
            0 <= i < n && (#[trigger] list[i]).number == number by {
            if numbers(list.take(n)).contains(number) {
                if numbers(list.take(n - 1)).contains(number) {
                    let i = choose|i: int|
                        0 <= i < n - 1 && (#[trigger] list[i]).number == number;
                    assert(0 <= i < n && list[i].number == number);
                } else {
                    assert(list[n - 1].number == number);
                }
            }
            if exists|i: int| 0 <= i < n && (#[trigger] list[i]).number == number {
                let i = choose|i: int| 0 <= i < n && (#[trigger] list[i]).number == number;
                if i < n - 1 {
                    assert(numbers(list.take(n - 1)).contains(number));
                }
            }
        }
    }
}

proof fn lemma_prefix_size(list: Seq<UnknownField>, unknown: UnknownView, n: int)
    requires
        lists(list, unknown),
        0 <= n <= list.len(),
    ensures
        numbers(list.take(n)).fold(
            0nat,
            |size: nat, number: u32| size + unknown[number].size(),
        ) == list_size(list.take(n)),
    decreases n,
{
    let add_size = |size: nat, number: u32| size + unknown[number].size();
    if n == 0 {
        vstd::set::fold::lemma_fold_empty(0nat, add_size);
    } else {
        lemma_prefix_size(list, unknown, n - 1);
        lemma_numbers(list, n - 1);
        assert(list.take(n).drop_last() =~= list.take(n - 1));
        let number = list[n - 1].number;
        assert(!numbers(list.take(n - 1)).contains(number));
        assert(vstd::set::fold::is_fun_commutative(add_size));
        vstd::set::fold::lemma_fold_insert(numbers(list.take(n - 1)), 0nat, add_size, number);
    }
}

proof fn lemma_list_size(list: Seq<UnknownField>, unknown: UnknownView)
    requires
        lists(list, unknown),
    ensures
        unknown_size(unknown) == list_size(list),
{
    let n = list.len() as int;
    assert(list.take(n) =~= list);
    lemma_prefix_size(list, unknown, n);
    lemma_numbers(list, n);
    assert(numbers(list) =~= unknown.dom()) by {
        assert forall|number: u32| numbers(list).contains(number) == unknown.dom().contains(
            number,
        ) by {
            if unknown.contains_key(number) {
                let i = choose|i: int| 0 <= i < n && (#[trigger] list[i]).number == number;
                assert(numbers(list.take(n)).contains(number));
            }
        }
    }
}

proof fn lemma_list_size_grows(list: Seq<UnknownField>, n: int)
    requires
        0 <= n <= list.len(),
    ensures
        list_size(list.take(n)) <= list_size(list),
    decreases list.len() - n,
{
    if n == list.len() {
        assert(list.take(n) =~= list);
    } else {
        lemma_list_size_grows(list, n + 1);
        assert(list.take(n + 1).drop_last() =~= list.take(n));
    }
}

proof fn lemma_lengths_size_grows(values: Seq<Seq<u8>>, n: int)
    requires
        0 <= n <= values.len(),
    ensures
        lengths_size(values.take(n)) <= lengths_size(values),
    decreases values.len() - n,
{
    if n == values.len() {
        assert(values.take(n) =~= values);
    } else {
        lemma_lengths_size_grows(values, n + 1);
        assert(values.take(n + 1).drop_last() =~= values.take(n));
    }
}

/// What the values of a field take, up to the size that a message can have.
fn measure_values(field: &UnknownField) -> (r: Option<u64>)
    ensures
        match r {
            Some(size) => size == field@.size() && size <= u32::MAX,
            None => field@.size() > u32::MAX,
        },
{
    let fixed: u128 = 9 * field.fixed32.len() as u128 + 13 * field.fixed64.len() as u128 + 15
        * field.varint.len() as u128;
    if fixed > u32::MAX as u128 {
        return None;
    }
    let ghost lengths = field@.length_delimited;
    let mut size: u128 = fixed;
    let mut i: usize = 0;
    assert(lengths.take(0) =~= Seq::<Seq<u8>>::empty());
    while i < field.length_delimited.len()
        invariant
            i <= field.length_delimited@.len(),
            lengths == field@.length_delimited,
            lengths.len() == field.length_delimited@.len(),
            fixed == 9 * field@.fixed32.len() + 13 * field@.fixed64.len() + 15
                * field@.varint.len(),
            size == fixed + lengths_size(lengths.take(i as int)),
            size <= u32::MAX,
        decreases field.length_delimited@.len() - i,
    {
        size = size + field.length_delimited[i].len() as u128 + 10;
        i = i + 1;
        proof {
            assert(lengths.take(i as int).drop_last() =~= lengths.take(i - 1));
            lemma_lengths_size_grows(lengths, i as int);
        }
        if size > u32::MAX as u128 {
            return None;
        }
    }
    assert(lengths.take(i as int) =~= lengths);
    Some(size as u64)
}

/// What the fields that a message does not define take, up to the size that a message can have;
/// none if they take more, or one of them has a number that no field can have.
fn measure_unknown(fields: &protobuf::UnknownFields) -> (r: Option<u64>)
    ensures
        match r {
            Some(size) => {
                &&& are_field_numbers(unknown_values(*fields))
                &&& size == unknown_size(unknown_values(*fields)) && size <= u32::MAX
            },
            None => {
                ||| !are_field_numbers(unknown_values(*fields))
                ||| unknown_size(unknown_values(*fields)) > u32::MAX
            },
        },
{
    let list = list_unknown(fields);
    let ghost unknown = unknown_values(*fields);
    proof {
        lemma_list_size(list@, unknown);
        assert(list@.take(0) =~= Seq::<UnknownField>::empty());
    }
    let mut size: u64 = 0;
    let mut i: usize = 0;
    while i < list.len()
        invariant
            i <= list@.len(),
            lists(list@, unknown),
            unknown == unknown_values(*fields),
            unknown_size(unknown) == list_size(list@),
            size == list_size(list@.take(i as int)),
            size <= u32::MAX,
            forall|j: int|
                0 <= j < i ==> 1 <= (#[trigger] list@[j]).number <= FIELD_NUMBER_MAX,
        decreases list@.len() - i,
    {
        let field = &list[i];
        proof {
            assert(list@.take(i + 1).drop_last() =~= list@.take(i as int));
            lemma_list_size_grows(list@, i + 1);
        }
        if field.number < 1 || field.number > FIELD_NUMBER_MAX {
            assert(unknown.contains_key(list@[i as int].number));
            return None;
        }
        match measure_values(field) {
            Some(more) => {
                size = size + more;
            },
            None => {
                return None;
            },
        }
        if size > u32::MAX as u64 {
            return None;
        }
        i = i + 1;
    }
    assert(list@.take(i as int) =~= list@);
    assert forall|number: u32| #[trigger] unknown.contains_key(number) implies 1 <= number
        <= FIELD_NUMBER_MAX by {
        let j = choose|j: int| 0 <= j < list@.len() && (#[trigger] list@[j]).number == number;
        assert(1 <= list@[j].number <= FIELD_NUMBER_MAX);
    }
    Some(size)
}

impl Entry {
    /// Whether the entry can be written.
    pub fn fits(&self) -> (b: bool)
        ensures
            b == entry_fits(self@),
    {
        match measure_unknown(&self.unknown_fields) {
            Some(unknown) => self.data.len() as u128 + self.context.len() as u128 + unknown as u128
                + 64 <= u32::MAX as u128,
            None => false,
        }
    }
}

impl HardState {
    /// Whether the hard state can be written.
    pub fn fits(&self) -> (b: bool)
        ensures
            b == hard_state_fits(self@),
    {
        match measure_unknown(&self.unknown_fields) {
            Some(unknown) => unknown + 64 <= u32::MAX as u64,
            None => false,
        }
    }
}

/// The members that are listed, each list counted.
fn count_members(conf_state: &ConfState) -> (members: u128)
    ensures
        members == conf_state@.members(),
        members <= 4 * usize::MAX,
{
    conf_state.voters.len() as u128 + conf_state.learners.len() as u128
        + conf_state.voters_outgoing.len() as u128 + conf_state.learners_next.len() as u128
}

impl ConfState {
    /// Whether the members can be written.
    pub fn fits(&self) -> (b: bool)
        ensures
            b == conf_state_fits(self@),
    {
        match measure_unknown(&self.unknown_fields) {
            Some(unknown) => 11 * count_members(self) + unknown as u128 + 64 <= u32::MAX as u128,
            None => false,
        }
    }
}

impl Snapshot {
    /// Whether the snapshot can be written.
    pub fn fits(&self) -> (b: bool)
        ensures
            b == snapshot_fits(self@),
    {
        let mut size: u128 = match measure_unknown(&self.unknown_fields) {
            Some(unknown) => self.data.len() as u128 + unknown as u128 + 64,
            None => {
                return false;
            },
        };
        if let Some(metadata) = &self.metadata {
            match measure_unknown(&metadata.unknown_fields) {
                Some(unknown) => {
                    size = size + unknown as u128;
                },
                None => {
                    return false;
                },
            }
            if let Some(conf_state) = &metadata.conf_state {
                match measure_unknown(&conf_state.unknown_fields) {
                    Some(unknown) => {
                        size = size + 11 * count_members(conf_state) + unknown as u128;
                    },
                    None => {
                        return false;
                    },
                }
            }
        }
        size <= u32::MAX as u128
    }
}

} // verus!
