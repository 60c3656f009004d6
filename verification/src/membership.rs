//! The set-membership query: is a probe chunk among the chunks of a region?
use crate::ids::{address_at, integer_at, read_address, read_integer, written, HintIds, HintName};
use crate::integer::Integer;
use crate::memory::{read_range, Memory};
use crate::relocatable::{
    all_wf, values_equal, values_of, HintError, MaybeRelocatable, Relocatable, Value,
};
use vstd::prelude::*;

verus! {

/// A validated query, as mathematical values: the start of the set, the
/// number of cells up to its end, and the probe chunk, which is not empty.
pub struct Query {
    pub set_ptr: Relocatable,
    pub range_len: int,
    pub elm: Seq<Value>,
}

/// A validated query.
#[derive(Debug)]
pub struct SetQuery {
    pub set_ptr: Relocatable,
    pub range_len: usize,
    pub elm: Vec<MaybeRelocatable>,
}

impl View for SetQuery {
    type V = Query;

    open spec fn view(&self) -> Query {
        Query {
            set_ptr: self.set_ptr,
            range_len: self.range_len as int,
            elm: values_of(self.elm@),
        }
    }
}

impl SetQuery {
    /// The probe is not empty and holds well-formed integers, and the set
    /// ends at an address that exists.
    pub open spec fn wf(&self) -> bool {
        &&& self.elm@.len() > 0
        &&& all_wf(self.elm@)
        &&& self.set_ptr.offset + self.range_len <= usize::MAX
    }
}

/// What the checks on the four inputs give: the query, or the first failure
/// among a size that is no count, a size of zero, a probe with an unwritten
/// cell, a set that starts after its end, and a set over two segments.
pub open spec fn checked(
    mem: Map<Relocatable, Value>,
    set_ptr: Relocatable,
    elm_size: int,
    elm_ptr: Relocatable,
    set_end_ptr: Relocatable,
) -> Result<Query, HintError> {
    if elm_size < 0 || elm_size > usize::MAX {
        Err(HintError::SizeConversionOverflow)
    } else if elm_size == 0 {
        Err(HintError::NonPositiveElementSize)
    } else {
        match read_range(mem, elm_ptr, elm_size) {
            Err(e) => Err(e),
            Ok(elm) => if set_ptr.is_after(set_end_ptr) {
                Err(HintError::InvalidSetRange(set_ptr, set_end_ptr))
            } else {
                match set_end_ptr.minus(set_ptr) {
                    Err(e) => Err(e),
                    Ok(range_len) => Ok(Query { set_ptr, range_len: range_len as int, elm }),
                }
            },
        }
    }
}

/// What reading and checking the inputs gives. The four names are read in
/// the order `set_ptr`, `elm_size`, `elm_ptr`, `set_end_ptr`, and the first
/// failure is the result.
pub open spec fn inputs(mem: Map<Relocatable, Value>, ids: HintIds) -> Result<Query, HintError> {
    match address_at(mem, ids, HintName::SetPtr) {
        Err(e) => Err(e),
        Ok(set_ptr) => match integer_at(mem, ids, HintName::ElmSize) {
            Err(e) => Err(e),
            Ok(elm_size) => match address_at(mem, ids, HintName::ElmPtr) {
                Err(e) => Err(e),
                Ok(elm_ptr) => match address_at(mem, ids, HintName::SetEndPtr) {
                    Err(e) => Err(e),
                    Ok(set_end_ptr) => checked(mem, set_ptr, elm_size, elm_ptr, set_end_ptr),
                },
            },
        },
    }
}

/// Whether chunk `k` lies in the set as a whole. A rest at the end of the
/// set that is shorter than a chunk is no chunk.
pub open spec fn in_set(q: Query, k: int) -> bool {
    0 <= k && (k + 1) * q.elm.len() <= q.range_len
}

/// What reading chunk `k` of the set gives.
pub open spec fn chunk(mem: Map<Relocatable, Value>, q: Query, k: int) -> Result<
    Seq<Value>,
    HintError,
> {
    read_range(mem, q.set_ptr.plus(k * q.elm.len()), q.elm.len() as int)
}

/// Whether the scan ends at chunk `k`: it equals the probe, or cannot be read.
pub open spec fn stops_at(mem: Map<Relocatable, Value>, q: Query, k: int) -> bool {
    match chunk(mem, q, k) {
        Err(_) => true,
        Ok(cells) => cells == q.elm,
    }
}

/// Whether the scan runs over every chunk of the set.
pub open spec fn never_stops(mem: Map<Relocatable, Value>, q: Query) -> bool {
    forall|k: int| in_set(q, k) ==> !stops_at(mem, q, k)
}

/// Whether `k` is the first chunk of the set at which the scan ends.
pub open spec fn is_first_stop(mem: Map<Relocatable, Value>, q: Query, k: int) -> bool {
    &&& in_set(q, k)
    &&& stops_at(mem, q, k)
    &&& forall|j: int| 0 <= j < k ==> !stops_at(mem, q, j)
}

/// The first chunk of the set at which the scan ends, if there is one.
pub open spec fn first_stop(mem: Map<Relocatable, Value>, q: Query) -> int {
    choose|k: int| is_first_stop(mem, q, k)
}

/// What the scan gives: the index of the first chunk equal to the probe,
/// `None` where no chunk equals it, or the failure to read a chunk that
/// comes before any equal one.
pub open spec fn search(mem: Map<Relocatable, Value>, q: Query) -> Result<Option<int>, HintError> {
    if never_stops(mem, q) {
        Ok(None)
    } else {
        match chunk(mem, q, first_stop(mem, q)) {
            Err(e) => Err(e),
            Ok(_) => Ok(Some(first_stop(mem, q))),
        }
    }
}

/// What the query returns and leaves in memory. Memory changes only by the
/// writes of the outputs: `is_elm_in_set = 0` where no chunk equals the
/// probe; `index`, then `is_elm_in_set = 1`, where one does. A first write
/// stays where the second fails.
pub open spec fn outcome(mem: Map<Relocatable, Value>, ids: HintIds) -> (
    Result<(), HintError>,
    Map<Relocatable, Value>,
) {
    match inputs(mem, ids) {
        Err(e) => (Err(e), mem),
        Ok(q) => match search(mem, q) {
            Err(e) => (Err(e), mem),
            Ok(None) => written(mem, ids, HintName::IsElmInSet, Value::Int(0)),
            Ok(Some(k)) => {
                let first = written(mem, ids, HintName::Index, Value::Int(k));
                if first.0 is Err {
                    first
                } else {
                    written(first.1, ids, HintName::IsElmInSet, Value::Int(1))
                }
            },
        },
    }
}

/// There is one first chunk at most at which the scan ends.
pub proof fn lemma_first_stop(mem: Map<Relocatable, Value>, q: Query, k: int)
    requires
        is_first_stop(mem, q, k),
    ensures
        !never_stops(mem, q),
        first_stop(mem, q) == k,
{
    let c = first_stop(mem, q);
    assert(is_first_stop(mem, q, c));
    if c < k {
        assert(!stops_at(mem, q, c));
    }
    if k < c {
        assert(!stops_at(mem, q, k));
    }
}

/// Checks inputs that were read already and reads the probe.
pub fn check_inputs(
    memory: &Memory,
    set_ptr: &Relocatable,
    elm_size: &Integer,
    elm_ptr: &Relocatable,
    set_end_ptr: &Relocatable,
) -> (r: Result<SetQuery, HintError>)
    requires
        memory.wf(),
    ensures
        match r {
            Ok(q) => q.wf() && checked(memory@, *set_ptr, elm_size@, *elm_ptr, *set_end_ptr)
                == Ok::<Query, HintError>(q@),
            Err(e) => checked(memory@, *set_ptr, elm_size@, *elm_ptr, *set_end_ptr) == Err::<
                Query,
                HintError,
            >(e),
        },
{
    let size: usize = match elm_size.to_usize() {
        Some(size) => size,
        None => {
            return Err(HintError::SizeConversionOverflow);
        },
    };
    if size == 0 {
        return Err(HintError::NonPositiveElementSize);
    }
    let elm = memory.get_range(elm_ptr, size)?;
    assert(values_of(elm@).len() == size);
    if set_ptr.greater_than(set_end_ptr) {
        return Err(HintError::InvalidSetRange(*set_ptr, *set_end_ptr));
    }
    let range_len: usize = set_end_ptr.sub_rel(set_ptr)?;
    Ok(SetQuery { set_ptr: *set_ptr, range_len, elm })
}

/// Reads the four inputs, in the order `set_ptr`, `elm_size`, `elm_ptr`,
/// `set_end_ptr`, and checks them.
pub fn read_inputs(memory: &Memory, ids: &HintIds) -> (r: Result<SetQuery, HintError>)
    requires
        memory.wf(),
    ensures
        match r {
            Ok(q) => q.wf() && inputs(memory@, *ids) == Ok::<Query, HintError>(q@),
            Err(e) => inputs(memory@, *ids) == Err::<Query, HintError>(e),
        },
{
    let set_ptr = read_address(memory, ids, HintName::SetPtr)?;
    let elm_size = read_integer(memory, ids, HintName::ElmSize)?;
    let elm_ptr = read_address(memory, ids, HintName::ElmPtr)?;
    let set_end_ptr = read_address(memory, ids, HintName::SetEndPtr)?;
    check_inputs(memory, &set_ptr, &elm_size, &elm_ptr, &set_end_ptr)
}

/// Scans the chunks of the set in increasing order for the first one equal
/// to the probe, and gives its index.
pub fn find_element(memory: &Memory, query: &SetQuery) -> (r: Result<Option<usize>, HintError>)
    requires
        memory.wf(),
        query.wf(),
    ensures
        match r {
            Ok(Some(k)) => search(memory@, query@) == Ok::<Option<int>, HintError>(Some(k as int)),
            Ok(None) => search(memory@, query@) == Ok::<Option<int>, HintError>(None),
            Err(e) => search(memory@, query@) == Err::<Option<int>, HintError>(e),
        },
{
    let n: usize = query.elm.len();
    let mut i: usize = 0;
    let mut k: usize = 0;
    assert(query@.elm.len() == n);
    while query.range_len - i >= n
        invariant
            memory.wf(),
            query.wf(),
            n == query.elm@.len(),
            query@.elm.len() == n,
            i <= query.range_len,
            k <= i,
            i == k * n,
            forall|j: int| 0 <= j < k ==> !stops_at(memory@, query@, j),
        decreases query.range_len - i,
    {
        assert((k + 1) * n == i + n) by (nonlinear_arith)
            requires
                i == k * n,
        ;
        let start = query.set_ptr.add_usize(i);
        match memory.get_range(&start, n) {
            Err(e) => {
                proof {
                    lemma_first_stop(memory@, query@, k as int);
                }
                return Err(e);
            },
            Ok(candidate) => {
                if values_equal(&candidate, &query.elm) {
                    proof {
                        lemma_first_stop(memory@, query@, k as int);
                    }
                    return Ok(Some(k));
                }
            },
        }
        i += n;
        k += 1;
    }
    assert forall|j: int| in_set(query@, j) implies !stops_at(memory@, query@, j) by {
        if j >= k {
            assert((j + 1) * n >= (k + 1) * n) by (nonlinear_arith)
                requires
                    j >= k,
                    n > 0,
            ;
            assert((k + 1) * n == i + n) by (nonlinear_arith)
                requires
                    i == k * n,
            ;
        }
    }
    Ok(None)
}

/// Tests whether the probe chunk is among the chunks of the set, and writes
/// the answer to memory: `is_elm_in_set = 0` where it is not; the index of
/// the first equal chunk to `index`, then `is_elm_in_set = 1`, where it is.
/// On a failure before the writes memory stays as it was.
pub fn set_add(memory: &mut Memory, ids: &HintIds) -> (r: Result<(), HintError>)
    requires
        old(memory).wf(),
    ensures
        final(memory).wf(),
        r == outcome(old(memory)@, *ids).0,
        final(memory)@ == outcome(old(memory)@, *ids).1,
{
    let query = read_inputs(memory, ids)?;
    match find_element(memory, &query)? {
        Some(k) => {
            let index = MaybeRelocatable::Int(Integer::from_usize(k));
            crate::ids::write(memory, ids, HintName::Index, &index)?;
            let found = MaybeRelocatable::Int(Integer::from_usize(1));
            crate::ids::write(memory, ids, HintName::IsElmInSet, &found)
        },
        None => {
            let missing = MaybeRelocatable::Int(Integer::from_usize(0));
            crate::ids::write(memory, ids, HintName::IsElmInSet, &missing)
        },
    }
}

} // verus!
