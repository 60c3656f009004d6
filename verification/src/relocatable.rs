//! Relocatable addresses, the values that memory holds, and the errors of the library.
use crate::integer::Integer;
use vstd::prelude::*;

verus! {

/// An address before the final layout is fixed: a segment and an offset in it.
#[derive(Clone, Copy, Debug, PartialEq, Eq, Hash, Structural)]
pub struct Relocatable {
    pub segment_index: usize,
    pub offset: usize,
}

/// Why a step was given up. Each error ends the step; none is retried.
#[derive(Clone, Copy, Debug, PartialEq, Eq, Structural)]
pub enum HintError {
    /// A name has no usable reference.
    NameResolutionFailed,
    /// The cell at this address does not hold an integer.
    ExpectedInteger(Relocatable),
    /// The cell at this address does not hold an address.
    ExpectedAddress(Relocatable),
    /// The element size is zero.
    NonPositiveElementSize,
    /// The element size is negative or above `usize::MAX`.
    SizeConversionOverflow,
    /// A read met this address, which was never written.
    UnknownMemoryCell(Relocatable),
    /// The start of the set, given first, lies after its end, given second.
    InvalidSetRange(Relocatable, Relocatable),
    /// A write met a different value at this address.
    InconsistentWrite(Relocatable),
    /// A subtraction of two addresses of different segments: minuend, subtrahend.
    SegmentMismatch(Relocatable, Relocatable),
    /// A subtraction of a larger offset from a smaller one: minuend, subtrahend.
    OffsetUnderflow(Relocatable, Relocatable),
}

impl Relocatable {
    /// The order of addresses: by segment, then by offset.
    pub open spec fn is_after(self, other: Relocatable) -> bool {
        self.segment_index > other.segment_index || (self.segment_index == other.segment_index
            && self.offset > other.offset)
    }

    /// The address `i` cells further on in the same segment.
    pub open spec fn plus(self, i: int) -> Relocatable
        recommends
            0 <= self.offset + i <= usize::MAX,
    {
        Relocatable { segment_index: self.segment_index, offset: (self.offset + i) as usize }
    }

    /// What `sub_rel` returns.
    pub open spec fn minus(self, other: Relocatable) -> Result<usize, HintError> {
        if self.segment_index != other.segment_index {
            Err(HintError::SegmentMismatch(self, other))
        } else if self.offset < other.offset {
            Err(HintError::OffsetUnderflow(self, other))
        } else {
            Ok((self.offset - other.offset) as usize)
        }
    }

    pub fn new(segment_index: usize, offset: usize) -> (r: Relocatable)
        ensures
            r == (Relocatable { segment_index, offset }),
    {
        Relocatable { segment_index, offset }
    }

    /// Whether this address comes strictly after the other.
    pub fn greater_than(&self, other: &Relocatable) -> (r: bool)
        ensures
            r == self.is_after(*other),
    {
        self.segment_index > other.segment_index || (self.segment_index == other.segment_index
            && self.offset > other.offset)
    }

    /// The distance from `other` up to this address. Both must lie in one
    /// segment, this one not before the other.
    pub fn sub_rel(&self, other: &Relocatable) -> (r: Result<usize, HintError>)
        ensures
            r == self.minus(*other),
    {
        if self.segment_index != other.segment_index {
            Err(HintError::SegmentMismatch(*self, *other))
        } else if self.offset < other.offset {
            Err(HintError::OffsetUnderflow(*self, *other))
        } else {
            Ok(self.offset - other.offset)
        }
    }

    /// The address `n` cells further on in the same segment.
    pub fn add_usize(&self, n: usize) -> (r: Relocatable)
        requires
            self.offset + n <= usize::MAX,
        ensures
            r == self.plus(n as int),
    {
        Relocatable { segment_index: self.segment_index, offset: self.offset + n }
    }

    /// The address `delta` cells away in the same segment, where there is one.
    pub fn offset_by(&self, delta: i32) -> (r: Option<Relocatable>)
        ensures
            r == (if 0 <= self.offset + delta <= usize::MAX {
                Some(self.plus(delta as int))
            } else {
                None::<Relocatable>
            }),
    {
        if delta >= 0 {
            let forward: u32 = delta as u32;
            if forward as u64 > usize::MAX as u64 {
                return None;
            }
            match self.offset.checked_add(forward as usize) {
                Some(offset) => Some(Relocatable { segment_index: self.segment_index, offset }),
                None => None,
            }
        } else {
            let back: u64 = (-(delta as i64)) as u64;
            if back > self.offset as u64 {
                None
            } else {
                Some(
                    Relocatable {
                        segment_index: self.segment_index,
                        offset: self.offset - back as usize,
                    },
                )
            }
        }
    }
}

/// What a memory cell holds, as a mathematical value.
pub enum Value {
    Int(int),
    Address(Relocatable),
}

/// What a memory cell holds: an integer or an address.
#[derive(Debug, PartialEq, Eq)]
pub enum MaybeRelocatable {
    Int(Integer),
    RelocatableValue(Relocatable),
}

impl View for MaybeRelocatable {
    type V = Value;

    open spec fn view(&self) -> Value {
        match self {
            MaybeRelocatable::Int(n) => Value::Int(n@),
            MaybeRelocatable::RelocatableValue(a) => Value::Address(*a),
        }
    }
}

impl MaybeRelocatable {
    /// An integer inside is well formed.
    pub open spec fn wf(&self) -> bool {
        match self {
            MaybeRelocatable::Int(n) => n.wf(),
            MaybeRelocatable::RelocatableValue(_) => true,
        }
    }

    /// Whether two values are equal: integers by value, addresses by segment
    /// and offset; an integer never equals an address.
    pub fn equals(&self, other: &MaybeRelocatable) -> (r: bool)
        requires
            self.wf(),
            other.wf(),
        ensures
            r == (self@ == other@),
    {
        match (self, other) {
            (MaybeRelocatable::Int(a), MaybeRelocatable::Int(b)) => a.equals(b),
            (MaybeRelocatable::RelocatableValue(a), MaybeRelocatable::RelocatableValue(b)) => {
                a.segment_index == b.segment_index && a.offset == b.offset
            },
            _ => false,
        }
    }

    /// A copy with the same value.
    pub fn duplicate(&self) -> (r: MaybeRelocatable)
        ensures
            r@ == self@,
            r.wf() == self.wf(),
    {
        match self {
            MaybeRelocatable::Int(n) => MaybeRelocatable::Int(n.duplicate()),
            MaybeRelocatable::RelocatableValue(a) => MaybeRelocatable::RelocatableValue(*a),
        }
    }
}

/// The values of a sequence of cells.
pub open spec fn values_of(cells: Seq<MaybeRelocatable>) -> Seq<Value> {
    Seq::new(cells.len(), |i: int| cells[i]@)
}

/// Every integer among the cells is well formed.
pub open spec fn all_wf(cells: Seq<MaybeRelocatable>) -> bool {
    forall|i: int| 0 <= i < cells.len() ==> (#[trigger] cells[i]).wf()
}

/// Whether two runs of cells hold the same values, cell by cell.
pub fn values_equal(a: &Vec<MaybeRelocatable>, b: &Vec<MaybeRelocatable>) -> (r: bool)
    requires
        all_wf(a@),
        all_wf(b@),
    ensures
        r == (values_of(a@) == values_of(b@)),
{
    if a.len() != b.len() {
        assert(values_of(a@).len() != values_of(b@).len());
        return false;
    }
    let mut i: usize = 0;
    while i < a.len()
        invariant
            i <= a.len(),
            a.len() == b.len(),
            all_wf(a@),
            all_wf(b@),
            forall|j: int| 0 <= j < i ==> a@[j]@ == b@[j]@,
        decreases a.len() - i,
    {
        if !a[i].equals(&b[i]) {
            assert(values_of(a@)[i as int] != values_of(b@)[i as int]);
            return false;
        }
        i += 1;
    }
    assert(values_of(a@) =~= values_of(b@));
    true
}

} // verus!
