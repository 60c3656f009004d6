//! The names that the query reads and writes, bound to addresses.
use crate::integer::Integer;
use crate::memory::{write_cell, Memory};
use crate::relocatable::{HintError, MaybeRelocatable, Relocatable, Value};
use vstd::prelude::*;

verus! {

/// The names of the query: four inputs, then two outputs.
#[derive(Clone, Copy, Debug, PartialEq, Eq, Structural)]
pub enum HintName {
    SetPtr,
    ElmSize,
    ElmPtr,
    SetEndPtr,
    Index,
    IsElmInSet,
}

/// For each name the offset of its cell from the frame pointer, or `None`
/// where the name has no reference.
#[derive(Clone, Copy, Debug)]
pub struct FrameOffsets {
    pub set_ptr: Option<i32>,
    pub elm_size: Option<i32>,
    pub elm_ptr: Option<i32>,
    pub set_end_ptr: Option<i32>,
    pub index: Option<i32>,
    pub is_elm_in_set: Option<i32>,
}

/// For each name the address of its cell, or `None` where the name could
/// not be resolved.
#[derive(Clone, Copy, Debug)]
pub struct HintIds {
    pub set_ptr: Option<Relocatable>,
    pub elm_size: Option<Relocatable>,
    pub elm_ptr: Option<Relocatable>,
    pub set_end_ptr: Option<Relocatable>,
    pub index: Option<Relocatable>,
    pub is_elm_in_set: Option<Relocatable>,
}

/// The cell of a reference in the frame at `fp`: `offset` cells from `fp`, if
/// there is a reference and such an address.
pub open spec fn in_frame(fp: Relocatable, offset: Option<i32>) -> Option<Relocatable> {
    match offset {
        Some(delta) => if 0 <= fp.offset + delta <= usize::MAX {
            Some(fp.plus(delta as int))
        } else {
            None
        },
        None => None,
    }
}

/// The cell of a reference in the frame at `fp`.
pub fn resolve_in_frame(fp: &Relocatable, offset: Option<i32>) -> (r: Option<Relocatable>)
    ensures
        r == in_frame(*fp, offset),
{
    match offset {
        Some(delta) => fp.offset_by(delta),
        None => None,
    }
}

impl HintIds {
    /// The address that a name is bound to.
    pub open spec fn address_of(self, name: HintName) -> Option<Relocatable> {
        match name {
            HintName::SetPtr => self.set_ptr,
            HintName::ElmSize => self.elm_size,
            HintName::ElmPtr => self.elm_ptr,
            HintName::SetEndPtr => self.set_end_ptr,
            HintName::Index => self.index,
            HintName::IsElmInSet => self.is_elm_in_set,
        }
    }

    /// Resolves every name against the frame pointer.
    pub fn resolve(fp: &Relocatable, offsets: &FrameOffsets) -> (r: HintIds)
        ensures
            r.set_ptr == in_frame(*fp, offsets.set_ptr),
            r.elm_size == in_frame(*fp, offsets.elm_size),
            r.elm_ptr == in_frame(*fp, offsets.elm_ptr),
            r.set_end_ptr == in_frame(*fp, offsets.set_end_ptr),
            r.index == in_frame(*fp, offsets.index),
            r.is_elm_in_set == in_frame(*fp, offsets.is_elm_in_set),
    {
        HintIds {
            set_ptr: resolve_in_frame(fp, offsets.set_ptr),
            elm_size: resolve_in_frame(fp, offsets.elm_size),
            elm_ptr: resolve_in_frame(fp, offsets.elm_ptr),
            set_end_ptr: resolve_in_frame(fp, offsets.set_end_ptr),
            index: resolve_in_frame(fp, offsets.index),
            is_elm_in_set: resolve_in_frame(fp, offsets.is_elm_in_set),
        }
    }

    /// The address that a name is bound to.
    pub fn get(&self, name: HintName) -> (r: Option<Relocatable>)
        ensures
            r == self.address_of(name),
    {
        match name {
            HintName::SetPtr => self.set_ptr,
            HintName::ElmSize => self.elm_size,
            HintName::ElmPtr => self.elm_ptr,
            HintName::SetEndPtr => self.set_end_ptr,
            HintName::Index => self.index,
            HintName::IsElmInSet => self.is_elm_in_set,
        }
    }
}

/// What resolving a name gives.
pub open spec fn resolved(ids: HintIds, name: HintName) -> Result<Relocatable, HintError> {
    match ids.address_of(name) {
        Some(addr) => Ok(addr),
        None => Err(HintError::NameResolutionFailed),
    }
}

/// What reading the integer bound to a name gives.
pub open spec fn integer_at(mem: Map<Relocatable, Value>, ids: HintIds, name: HintName) -> Result<
    int,
    HintError,
> {
    match resolved(ids, name) {
        Err(e) => Err(e),
        Ok(addr) => if !mem.contains_key(addr) {
            Err(HintError::UnknownMemoryCell(addr))
        } else {
            match mem[addr] {
                Value::Int(n) => Ok(n),
                Value::Address(_) => Err(HintError::ExpectedInteger(addr)),
            }
        },
    }
}

/// What reading the address bound to a name gives.
pub open spec fn address_at(mem: Map<Relocatable, Value>, ids: HintIds, name: HintName) -> Result<
    Relocatable,
    HintError,
> {
    match resolved(ids, name) {
        Err(e) => Err(e),
        Ok(addr) => if !mem.contains_key(addr) {
            Err(HintError::UnknownMemoryCell(addr))
        } else {
            match mem[addr] {
                Value::Int(_) => Err(HintError::ExpectedAddress(addr)),
                Value::Address(a) => Ok(a),
            }
        },
    }
}

/// What writing a value to the cell of a name returns and leaves behind.
pub open spec fn written(
    mem: Map<Relocatable, Value>,
    ids: HintIds,
    name: HintName,
    value: Value,
) -> (Result<(), HintError>, Map<Relocatable, Value>) {
    match resolved(ids, name) {
        Err(e) => (Err(e), mem),
        Ok(addr) => write_cell(mem, addr, value),
    }
}

/// The address of the cell of a name.
pub fn resolve_address(ids: &HintIds, name: HintName) -> (r: Result<Relocatable, HintError>)
    ensures
        r == resolved(*ids, name),
{
    match ids.get(name) {
        Some(addr) => Ok(addr),
        None => Err(HintError::NameResolutionFailed),
    }
}

/// The integer in the cell of a name.
pub fn read_integer(memory: &Memory, ids: &HintIds, name: HintName) -> (r: Result<
    Integer,
    HintError,
>)
    requires
        memory.wf(),
    ensures
        match r {
            Ok(n) => n.wf() && integer_at(memory@, *ids, name) == Ok::<int, HintError>(n@),
            Err(e) => integer_at(memory@, *ids, name) == Err::<int, HintError>(e),
        },
{
    let addr = resolve_address(ids, name)?;
    match memory.get(&addr) {
        None => Err(HintError::UnknownMemoryCell(addr)),
        Some(MaybeRelocatable::Int(n)) => Ok(n.duplicate()),
        Some(MaybeRelocatable::RelocatableValue(_)) => Err(HintError::ExpectedInteger(addr)),
    }
}

/// The address in the cell of a name.
pub fn read_address(memory: &Memory, ids: &HintIds, name: HintName) -> (r: Result<
    Relocatable,
    HintError,
>)
    ensures
        r == address_at(memory@, *ids, name),
{
    let addr = resolve_address(ids, name)?;
    match memory.get(&addr) {
        None => Err(HintError::UnknownMemoryCell(addr)),
        Some(MaybeRelocatable::Int(_)) => Err(HintError::ExpectedAddress(addr)),
        Some(MaybeRelocatable::RelocatableValue(a)) => Ok(*a),
    }
}

/// Writes a value to the cell of a name.
pub fn write(memory: &mut Memory, ids: &HintIds, name: HintName, value: &MaybeRelocatable) -> (r:
    Result<(), HintError>)
    requires
        old(memory).wf(),
        value.wf(),
    ensures
        final(memory).wf(),
        r == written(old(memory)@, *ids, name, value@).0,
        final(memory)@ == written(old(memory)@, *ids, name, value@).1,
{
    let addr = resolve_address(ids, name)?;
    memory.insert(&addr, value)
}

} // verus!
