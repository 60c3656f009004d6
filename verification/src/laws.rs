//! What holds of every run of the query, proved from its definition.
use crate::ids::{address_at, integer_at, written, HintIds, HintName};
use crate::memory::{conflicts, read_range};
use crate::membership::{
    chunk, in_set, inputs, lemma_first_stop, never_stops, outcome, search, stops_at, Query,
};
use crate::relocatable::{HintError, Relocatable, Value};
use vstd::prelude::*;

verus! {

/// Where every chunk of the set can be read and none equals the probe, the
/// query does one thing only: it writes 0 to `is_elm_in_set`. Every other
/// cell, the one of `index` among them, stays as it was.
pub proof fn not_found_writes_zero(mem: Map<Relocatable, Value>, ids: HintIds, q: Query)
    requires
        inputs(mem, ids) == Ok::<Query, HintError>(q),
        forall|k: int|
            in_set(q, k) ==> chunk(mem, q, k) is Ok && chunk(mem, q, k) != Ok::<
                Seq<Value>,
                HintError,
            >(q.elm),
    ensures
        search(mem, q) == Ok::<Option<int>, HintError>(None),
        outcome(mem, ids) == written(mem, ids, HintName::IsElmInSet, Value::Int(0)),
        forall|flag: Relocatable|
            ids.is_elm_in_set == Some(flag) && !conflicts(mem, flag, Value::Int(0)) ==> outcome(
                mem,
                ids,
            ) == (Ok::<(), HintError>(()), mem.insert(flag, Value::Int(0))),
        forall|a: Relocatable|
            ids.is_elm_in_set != Some(a) ==> (outcome(mem, ids).1.contains_key(a)
                <==> mem.contains_key(a)) && outcome(mem, ids).1[a] == mem[a],
{
    assert(never_stops(mem, q)) by {
        assert forall|k: int| in_set(q, k) implies !stops_at(mem, q, k) by {}
    }
}

/// Where chunk `k` equals the probe and every chunk before it can be read
/// and differs from the probe, the query writes `k` to `index` and then 1 to
/// `is_elm_in_set`, whatever the chunks after `k` hold.
pub proof fn first_match_wins(mem: Map<Relocatable, Value>, ids: HintIds, q: Query, k: int)
    requires
        inputs(mem, ids) == Ok::<Query, HintError>(q),
        in_set(q, k),
        chunk(mem, q, k) == Ok::<Seq<Value>, HintError>(q.elm),
        forall|j: int|
            0 <= j < k ==> chunk(mem, q, j) is Ok && chunk(mem, q, j) != Ok::<
                Seq<Value>,
                HintError,
            >(q.elm),
    ensures
        search(mem, q) == Ok::<Option<int>, HintError>(Some(k)),
        outcome(mem, ids) == ({
            let first = written(mem, ids, HintName::Index, Value::Int(k));
            if first.0 is Err {
                first
            } else {
                written(first.1, ids, HintName::IsElmInSet, Value::Int(1))
            }
        }),
        forall|index: Relocatable, flag: Relocatable|
            ids.index == Some(index) && ids.is_elm_in_set == Some(flag) && !conflicts(
                mem,
                index,
                Value::Int(k),
            ) && !conflicts(mem.insert(index, Value::Int(k)), flag, Value::Int(1)) ==> outcome(
                mem,
                ids,
            ) == (
                Ok::<(), HintError>(()),
                mem.insert(index, Value::Int(k)).insert(flag, Value::Int(1)),
            ),
{
    assert forall|j: int| 0 <= j < k implies !stops_at(mem, q, j) by {}
    lemma_first_stop(mem, q, k);
}

/// An element size of zero is refused as not positive, and memory stays as
/// it was, where the four inputs can be read.
pub proof fn zero_size_rejected(mem: Map<Relocatable, Value>, ids: HintIds)
    requires
        address_at(mem, ids, HintName::SetPtr) is Ok,
        integer_at(mem, ids, HintName::ElmSize) == Ok::<int, HintError>(0),
        address_at(mem, ids, HintName::ElmPtr) is Ok,
        address_at(mem, ids, HintName::SetEndPtr) is Ok,
    ensures
        outcome(mem, ids) == (Err::<(), HintError>(HintError::NonPositiveElementSize), mem),
{
}

/// A negative element size is refused as no count, not as a size of zero
/// is, and memory stays as it was, where the four inputs can be read.
pub proof fn negative_size_rejected(mem: Map<Relocatable, Value>, ids: HintIds, elm_size: int)
    requires
        address_at(mem, ids, HintName::SetPtr) is Ok,
        integer_at(mem, ids, HintName::ElmSize) == Ok::<int, HintError>(elm_size),
        elm_size < 0,
        address_at(mem, ids, HintName::ElmPtr) is Ok,
        address_at(mem, ids, HintName::SetEndPtr) is Ok,
    ensures
        outcome(mem, ids) == (Err::<(), HintError>(HintError::SizeConversionOverflow), mem),
{
}

/// A set that starts after its end is refused with both addresses, and
/// memory stays as it was, where the four inputs can be read, the element
/// size is a positive count and the probe can be read.
pub proof fn reversed_range_rejected(
    mem: Map<Relocatable, Value>,
    ids: HintIds,
    set_ptr: Relocatable,
    elm_size: int,
    elm_ptr: Relocatable,
    set_end_ptr: Relocatable,
)
    requires
        address_at(mem, ids, HintName::SetPtr) == Ok::<Relocatable, HintError>(set_ptr),
        integer_at(mem, ids, HintName::ElmSize) == Ok::<int, HintError>(elm_size),
        0 < elm_size <= usize::MAX,
        address_at(mem, ids, HintName::ElmPtr) == Ok::<Relocatable, HintError>(elm_ptr),
        address_at(mem, ids, HintName::SetEndPtr) == Ok::<Relocatable, HintError>(set_end_ptr),
        read_range(mem, elm_ptr, elm_size) is Ok,
        set_ptr.is_after(set_end_ptr),
    ensures
        outcome(mem, ids) == (
            Err::<(), HintError>(HintError::InvalidSetRange(set_ptr, set_end_ptr)),
            mem,
        ),
{
}

/// Where one of the four input names cannot be resolved, the query fails
/// and memory stays as it was. The failure is that of the resolution,
/// unless a name before that one could not be read.
pub proof fn unresolved_input_changes_nothing(mem: Map<Relocatable, Value>, ids: HintIds)
    requires
        ids.set_ptr is None || ids.elm_size is None || ids.elm_ptr is None
            || ids.set_end_ptr is None,
    ensures
        outcome(mem, ids).0 is Err,
        outcome(mem, ids).1 == mem,
        ids.set_ptr is None ==> outcome(mem, ids).0 == Err::<(), HintError>(
            HintError::NameResolutionFailed,
        ),
        address_at(mem, ids, HintName::SetPtr) is Ok && ids.elm_size is None ==> outcome(
            mem,
            ids,
        ).0 == Err::<(), HintError>(HintError::NameResolutionFailed),
        address_at(mem, ids, HintName::SetPtr) is Ok && integer_at(mem, ids, HintName::ElmSize)
            is Ok && ids.elm_ptr is None ==> outcome(mem, ids).0 == Err::<(), HintError>(
            HintError::NameResolutionFailed,
        ),
        address_at(mem, ids, HintName::SetPtr) is Ok && integer_at(mem, ids, HintName::ElmSize)
            is Ok && address_at(mem, ids, HintName::ElmPtr) is Ok && ids.set_end_ptr is None
            ==> outcome(mem, ids).0 == Err::<(), HintError>(HintError::NameResolutionFailed),
{
}

/// A failure to read or check the inputs, or to read a chunk of the set,
/// leaves memory as it was.
pub proof fn failure_before_writes_changes_nothing(mem: Map<Relocatable, Value>, ids: HintIds)
    requires
        inputs(mem, ids) is Err || search(mem, inputs(mem, ids)->Ok_0) is Err,
    ensures
        outcome(mem, ids).0 is Err,
        outcome(mem, ids).1 == mem,
{
}

/// The query never changes a cell that holds a value: memory only grows.
pub proof fn written_cells_stay(mem: Map<Relocatable, Value>, ids: HintIds, a: Relocatable)
    requires
        mem.contains_key(a),
    ensures
        outcome(mem, ids).1.contains_key(a),
        outcome(mem, ids).1[a] == mem[a],
{
}

/// A cell that the query has written is the one of an output and holds its
/// answer: 0 in `is_elm_in_set` where no chunk equals the probe; else the
/// index of the first equal chunk in `index`, or 1 in `is_elm_in_set`.
pub proof fn written_values(mem: Map<Relocatable, Value>, ids: HintIds, a: Relocatable)
    requires
        !mem.contains_key(a),
        outcome(mem, ids).1.contains_key(a),
    ensures
        inputs(mem, ids) is Ok,
        match search(mem, inputs(mem, ids)->Ok_0) {
            Err(_) => false,
            Ok(None) => ids.is_elm_in_set == Some(a) && outcome(mem, ids).1[a] == Value::Int(0),
            Ok(Some(k)) => if ids.index == Some(a) {
                outcome(mem, ids).1[a] == Value::Int(k)
            } else {
                ids.is_elm_in_set == Some(a) && outcome(mem, ids).1[a] == Value::Int(1)
            },
        },
{
}

} // verus!
