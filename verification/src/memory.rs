//! Write-once memory in segments that grow at their high end.
use crate::relocatable::{all_wf, values_of, HintError, MaybeRelocatable, Relocatable, Value};
use vstd::prelude::*;

verus! {

/// Whether cell `i` after `start` can be addressed and was written.
pub open spec fn cell_known(mem: Map<Relocatable, Value>, start: Relocatable, i: int) -> bool {
    start.offset + i <= usize::MAX && mem.contains_key(start.plus(i))
}

/// Whether the `count` cells from `start` on were all written.
pub open spec fn range_known(mem: Map<Relocatable, Value>, start: Relocatable, count: int) -> bool {
    forall|i: int| 0 <= i < count ==> cell_known(mem, start, i)
}

/// The values of the `count` cells from `start` on.
pub open spec fn range_values(mem: Map<Relocatable, Value>, start: Relocatable, count: int) -> Seq<
    Value,
> {
    Seq::new(count as nat, |i: int| mem[start.plus(i)])
}

/// Whether `j` is the first of the `count` cells from `start` on that was not written.
pub open spec fn is_first_unknown(
    mem: Map<Relocatable, Value>,
    start: Relocatable,
    count: int,
    j: int,
) -> bool {
    &&& 0 <= j < count
    &&& !cell_known(mem, start, j)
    &&& forall|i: int| 0 <= i < j ==> cell_known(mem, start, i)
}

/// The first of the `count` cells from `start` on that was not written, if there is one.
pub open spec fn first_unknown(mem: Map<Relocatable, Value>, start: Relocatable, count: int) -> int {
    choose|j: int| is_first_unknown(mem, start, count, j)
}

/// What reading `count` consecutive cells from `start` on gives: their
/// values, or the first address among them that was never written.
pub open spec fn read_range(mem: Map<Relocatable, Value>, start: Relocatable, count: int) -> Result<
    Seq<Value>,
    HintError,
> {
    if range_known(mem, start, count) {
        Ok(range_values(mem, start, count))
    } else {
        Err(HintError::UnknownMemoryCell(start.plus(first_unknown(mem, start, count))))
    }
}

/// Whether a write of `value` at `addr` meets a different value there.
pub open spec fn conflicts(mem: Map<Relocatable, Value>, addr: Relocatable, value: Value) -> bool {
    mem.contains_key(addr) && mem[addr] != value
}

/// What a write of `value` at `addr` returns and leaves behind: a cell holds
/// the first value written to it for good.
pub open spec fn write_cell(mem: Map<Relocatable, Value>, addr: Relocatable, value: Value) -> (
    Result<(), HintError>,
    Map<Relocatable, Value>,
) {
    if conflicts(mem, addr, value) {
        (Err(HintError::InconsistentWrite(addr)), mem)
    } else {
        (Ok(()), mem.insert(addr, value))
    }
}

/// There is one first unwritten cell at most.
pub proof fn lemma_first_unknown(mem: Map<Relocatable, Value>, start: Relocatable, count: int, j: int)
    requires
        is_first_unknown(mem, start, count, j),
    ensures
        !range_known(mem, start, count),
        first_unknown(mem, start, count) == j,
{
    let c = first_unknown(mem, start, count);
    assert(is_first_unknown(mem, start, count, c));
    if c < j {
        assert(cell_known(mem, start, c));
    }
    if j < c {
        assert(cell_known(mem, start, j));
    }
}

/// The cell that the segments hold at an address, if any.
spec fn cell_of(data: Seq<Vec<Option<MaybeRelocatable>>>, a: Relocatable) -> Option<
    MaybeRelocatable,
> {
    if a.segment_index < data.len() && a.offset < data[a.segment_index as int]@.len() {
        data[a.segment_index as int]@[a.offset as int]
    } else {
        None
    }
}

/// A mapping from addresses to values, organised in segments. A cell holds
/// the first value written to it for good.
#[derive(Debug)]
pub struct Memory {
    data: Vec<Vec<Option<MaybeRelocatable>>>,
}

impl View for Memory {
    type V = Map<Relocatable, Value>;

    /// The written cells and their values.
    closed spec fn view(&self) -> Map<Relocatable, Value> {
        Map::new(
            |a: Relocatable| cell_of(self.data@, a) is Some,
            |a: Relocatable| cell_of(self.data@, a).unwrap()@,
        )
    }
}

impl Memory {
    /// Every integer held is well formed.
    pub closed spec fn wf(&self) -> bool {
        forall|a: Relocatable| (#[trigger] cell_of(self.data@, a)) is Some ==> cell_of(
            self.data@,
            a,
        ).unwrap().wf()
    }

    /// Well-formedness carries over to segments that hold the same cells, but
    /// for one cell, whose value is well formed.
    proof fn lemma_wf_carries(&self, before: Seq<Vec<Option<MaybeRelocatable>>>, addr: Relocatable)
        requires
            forall|a: Relocatable| (#[trigger] cell_of(before, a)) is Some ==> cell_of(
                before,
                a,
            ).unwrap().wf(),
            forall|a: Relocatable| a != addr ==> cell_of(self.data@, a) == cell_of(before, a),
            cell_of(self.data@, addr) is Some ==> cell_of(self.data@, addr).unwrap().wf(),
        ensures
            self.wf(),
    {
        assert forall|a: Relocatable| (#[trigger] cell_of(self.data@, a)) is Some implies cell_of(
            self.data@,
            a,
        ).unwrap().wf() by {
            if a != addr {
                assert(cell_of(self.data@, a) == cell_of(before, a));
            }
        }
    }

    /// A memory in which no cell was written.
    pub fn new() -> (r: Memory)
        ensures
            r.wf(),
            r@ == Map::<Relocatable, Value>::empty(),
    {
        let r = Memory { data: Vec::new() };
        assert(r@ =~= Map::<Relocatable, Value>::empty());
        r
    }

    /// The value at an address, if one was written there.
    pub fn get(&self, addr: &Relocatable) -> (r: Option<&MaybeRelocatable>)
        ensures
            match r {
                Some(v) => self@.contains_key(*addr) && v@ == self@[*addr] && (self.wf() ==> v.wf()),
                None => !self@.contains_key(*addr),
            },
    {
        if addr.segment_index >= self.data.len() {
            return None;
        }
        let segment = &self.data[addr.segment_index];
        if addr.offset >= segment.len() {
            return None;
        }
        match &segment[addr.offset] {
            Some(v) => {
                assert(cell_of(self.data@, *addr) == Some(*v));
                Some(v)
            },
            None => None,
        }
    }

    /// Writes a value at an address. Fails, and changes nothing, where the
    /// cell holds a different value already; writing the value it holds again
    /// succeeds.
    pub fn insert(&mut self, addr: &Relocatable, value: &MaybeRelocatable) -> (r: Result<
        (),
        HintError,
    >)
        requires
            old(self).wf(),
            value.wf(),
        ensures
            final(self).wf(),
            r == write_cell(old(self)@, *addr, value@).0,
            final(self)@ == write_cell(old(self)@, *addr, value@).1,
    {
        let seg: usize = addr.segment_index;
        let off: usize = addr.offset;
        while self.data.len() <= seg
            invariant
                self.wf(),
                self@ == old(self)@,
            decreases seg + 1 - self.data@.len(),
        {
            let ghost before = self.data@;
            self.data.push(Vec::new());
            assert forall|a: Relocatable| cell_of(self.data@, a) == cell_of(before, a) by {}
            assert(self@ =~= old(self)@);
            proof {
                assert(cell_of(self.data@, *addr) == cell_of(before, *addr));
                self.lemma_wf_carries(before, *addr);
            }
        }
        if off < self.data[seg].len() {
            let held = match &self.data[seg][off] {
                Some(current) => {
                    assert(cell_of(self.data@, *addr) == Some(*current));
                    Some(current.equals(value))
                },
                None => None,
            };
            match held {
                Some(true) => {
                    assert(self@ =~= self@.insert(*addr, value@));
                    return Ok(());
                },
                Some(false) => {
                    return Err(HintError::InconsistentWrite(*addr));
                },
                None => {
                    let ghost before = self.data@;
                    let fresh = value.duplicate();
                    self.data[seg][off] = Some(fresh);
                    assert forall|a: Relocatable| a != *addr implies cell_of(self.data@, a)
                        == cell_of(before, a) by {}
                    assert(cell_of(self.data@, *addr) == Some(fresh));
                    assert(self@ =~= old(self)@.insert(*addr, value@));
                    proof {
                        self.lemma_wf_carries(before, *addr);
                    }
                    return Ok(());
                },
            }
        }
        while self.data[seg].len() < off
            invariant
                seg < self.data@.len(),
                self.data@[seg as int]@.len() <= off,
                self.wf(),
                self@ == old(self)@,
            decreases off - self.data@[seg as int]@.len(),
        {
            let ghost before = self.data@;
            self.data[seg].push(None);
            assert forall|a: Relocatable| cell_of(self.data@, a) == cell_of(before, a) by {}
            assert(self@ =~= old(self)@);
            proof {
                assert(cell_of(self.data@, *addr) == cell_of(before, *addr));
                self.lemma_wf_carries(before, *addr);
            }
        }
        let ghost before = self.data@;
        let fresh = value.duplicate();
        self.data[seg].push(Some(fresh));
        assert forall|a: Relocatable| a != *addr implies cell_of(self.data@, a) == cell_of(
            before,
            a,
        ) by {}
        assert(cell_of(self.data@, *addr) == Some(fresh));
        assert(self@ =~= old(self)@.insert(*addr, value@));
        proof {
            self.lemma_wf_carries(before, *addr);
        }
        Ok(())
    }

    /// Reads `count` consecutive cells from `start` on. Fails with the first
    /// address among them that was never written.
    pub fn get_range(&self, start: &Relocatable, count: usize) -> (r: Result<
        Vec<MaybeRelocatable>,
        HintError,
    >)
        requires
            self.wf(),
        ensures
            match r {
                Ok(cells) => all_wf(cells@) && read_range(self@, *start, count as int) == Ok::<
                    Seq<Value>,
                    HintError,
                >(values_of(cells@)),
                Err(e) => read_range(self@, *start, count as int) == Err::<Seq<Value>, HintError>(e),
            },
    {
        let mut cells: Vec<MaybeRelocatable> = Vec::new();
        let mut i: usize = 0;
        while i < count
            invariant
                self.wf(),
                i <= count,
                cells@.len() == i,
                all_wf(cells@),
                forall|k: int| 0 <= k < i ==> cell_known(self@, *start, k),
                forall|k: int| 0 <= k < i ==> (#[trigger] cells@[k])@ == self@[start.plus(k)],
            decreases count - i,
        {
            let len: usize = if start.segment_index < self.data.len() {
                self.data[start.segment_index].len()
            } else {
                0
            };
            proof {
                if i > 0 {
                    assert(cell_known(self@, *start, i - 1));
                }
            }
            assert(i == 0 || start.offset + i <= len);
            if start.offset >= len || i >= len - start.offset {
                proof {
                    assert(cell_of(self.data@, start.plus(i as int)) is None);
                    lemma_first_unknown(self@, *start, count as int, i as int);
                }
                return Err(HintError::UnknownMemoryCell(start.add_usize(i)));
            }
            let addr = start.add_usize(i);
            match self.get(&addr) {
                Some(v) => {
                    let copy = v.duplicate();
                    cells.push(copy);
                },
                None => {
                    proof {
                        lemma_first_unknown(self@, *start, count as int, i as int);
                    }
                    return Err(HintError::UnknownMemoryCell(addr));
                },
            }
            i += 1;
        }
        assert(range_known(self@, *start, count as int));
        assert(values_of(cells@) =~= range_values(self@, *start, count as int));
        Ok(cells)
    }
}

} // verus!
