use num_bigint::BigInt;
use set_membership::ids::{
    read_address, read_integer, resolve_address, resolve_in_frame, FrameOffsets, HintIds, HintName,
};
use set_membership::integer::{Integer, Sign};
use set_membership::membership::{check_inputs, find_element, read_inputs, SetQuery};
use set_membership::memory::Memory;
use set_membership::relocatable::{values_equal, HintError, MaybeRelocatable, Relocatable};

fn outside(value: &Integer) -> BigInt {
    let sign = match value.sign() {
        Sign::Minus => num_bigint::Sign::Minus,
        Sign::NoSign => num_bigint::Sign::NoSign,
        Sign::Plus => num_bigint::Sign::Plus,
    };
    BigInt::from_slice(sign, value.digits())
}

fn num(n: u32) -> MaybeRelocatable {
    MaybeRelocatable::Int(Integer::new(Sign::Plus, vec![n]))
}

fn at(segment_index: usize, offset: usize) -> Relocatable {
    Relocatable::new(segment_index, offset)
}

#[test]
fn integer_new_drops_leading_zeros() {
    let n = Integer::new(Sign::Plus, vec![5, 0, 0]);
    assert_eq!(n.sign(), Sign::Plus);
    assert_eq!(n.digits(), &vec![5]);
    assert_eq!(n, Integer::new(Sign::Plus, vec![5]));
    assert!(n.equals(&Integer::new(Sign::Plus, vec![5])));
    assert_eq!(outside(&n), BigInt::from(5));
}

#[test]
fn integer_new_keeps_inner_zeros() {
    let n = Integer::new(Sign::Minus, vec![0, 0, 1, 0]);
    assert_eq!(n.sign(), Sign::Minus);
    assert_eq!(n.digits(), &vec![0, 0, 1]);
    assert_eq!(outside(&n), BigInt::from(-18446744073709551616i128));
}

#[test]
fn integer_zero_has_one_form() {
    let zero = Integer::new(Sign::NoSign, vec![]);
    assert_eq!(zero.sign(), Sign::NoSign);
    assert_eq!(zero.digits(), &Vec::<u32>::new());
    assert_eq!(Integer::new(Sign::Plus, vec![0, 0]), zero);
    assert_eq!(Integer::new(Sign::Minus, vec![]), zero);
    assert_eq!(Integer::new(Sign::NoSign, vec![3, 4]), zero);
    assert!(zero.equals(&Integer::new(Sign::Minus, vec![0])));
    assert_eq!(outside(&zero), BigInt::from(0));
}

#[test]
fn integer_equals_tells_sign_and_digits_apart() {
    let a = Integer::new(Sign::Plus, vec![1, 2]);
    assert!(a.equals(&Integer::new(Sign::Plus, vec![1, 2, 0])));
    assert!(!a.equals(&Integer::new(Sign::Minus, vec![1, 2])));
    assert!(!a.equals(&Integer::new(Sign::Plus, vec![1, 3])));
    assert!(!a.equals(&Integer::new(Sign::Plus, vec![1])));
    assert!(!a.equals(&Integer::new(Sign::NoSign, vec![1, 2])));
    assert!(a.duplicate().equals(&a));
    assert_eq!(a.duplicate(), a);
}

#[test]
fn value_equals_by_kind_and_content() {
    let a = MaybeRelocatable::RelocatableValue(at(1, 2));
    assert!(a.equals(&MaybeRelocatable::RelocatableValue(at(1, 2))));
    assert!(!a.equals(&MaybeRelocatable::RelocatableValue(at(1, 3))));
    assert!(!a.equals(&MaybeRelocatable::RelocatableValue(at(2, 2))));
    assert!(!a.equals(&num(1)));
    assert!(!num(1).equals(&a));
    assert!(num(1).equals(&num(1)));
    assert!(!num(1).equals(&num(2)));
    assert!(a.duplicate().equals(&a));
    assert!(num(7).duplicate().equals(&num(7)));
}

#[test]
fn values_equal_cell_by_cell() {
    assert!(values_equal(&vec![num(1), num(2)], &vec![num(1), num(2)]));
    assert!(!values_equal(&vec![num(1), num(2)], &vec![num(1), num(3)]));
    assert!(!values_equal(&vec![num(1), num(2)], &vec![num(1)]));
    assert!(values_equal(&vec![], &vec![]));
}

#[test]
fn relocatable_order_is_by_segment_then_offset() {
    assert!(at(2, 3).greater_than(&at(2, 2)));
    assert!(!at(2, 2).greater_than(&at(2, 2)));
    assert!(!at(2, 1).greater_than(&at(2, 2)));
    assert!(at(3, 0).greater_than(&at(2, 9)));
    assert!(!at(1, 9).greater_than(&at(2, 0)));
}

#[test]
fn relocatable_sub_rel() {
    assert_eq!(at(2, 7).sub_rel(&at(2, 3)), Ok(4));
    assert_eq!(at(2, 3).sub_rel(&at(2, 3)), Ok(0));
    assert_eq!(
        at(2, 3).sub_rel(&at(2, 7)),
        Err(HintError::OffsetUnderflow(at(2, 3), at(2, 7)))
    );
    assert_eq!(
        at(3, 7).sub_rel(&at(2, 3)),
        Err(HintError::SegmentMismatch(at(3, 7), at(2, 3)))
    );
}

#[test]
fn relocatable_add_and_offset_by() {
    assert_eq!(at(2, 7).add_usize(5), at(2, 12));
    assert_eq!(at(2, 7).add_usize(0), at(2, 7));
    assert_eq!(at(1, 5).offset_by(-5), Some(at(1, 0)));
    assert_eq!(at(1, 5).offset_by(-6), None);
    assert_eq!(at(1, 5).offset_by(0), Some(at(1, 5)));
    assert_eq!(at(1, 5).offset_by(3), Some(at(1, 8)));
    assert_eq!(at(1, 5).offset_by(i32::MIN), None);
    assert_eq!(at(1, usize::MAX).offset_by(1), None);
    assert_eq!(at(1, usize::MAX).offset_by(-1), Some(at(1, usize::MAX - 1)));
    assert_eq!(
        at(1, 0).offset_by(i32::MAX),
        Some(at(1, 2147483647))
    );
}

#[test]
fn memory_holds_the_first_value_for_good() {
    let mut memory = Memory::new();
    assert_eq!(memory.get(&at(0, 0)), None);
    assert_eq!(memory.insert(&at(2, 3), &num(5)), Ok(()));
    assert_eq!(memory.get(&at(2, 3)), Some(&num(5)));
    assert_eq!(memory.get(&at(2, 2)), None);
    assert_eq!(memory.get(&at(2, 4)), None);
    assert_eq!(memory.get(&at(1, 3)), None);
    assert_eq!(memory.get(&at(3, 3)), None);
    assert_eq!(memory.insert(&at(2, 3), &num(5)), Ok(()));
    assert_eq!(
        memory.insert(&at(2, 3), &num(6)),
        Err(HintError::InconsistentWrite(at(2, 3)))
    );
    assert_eq!(
        memory.insert(&at(2, 3), &MaybeRelocatable::RelocatableValue(at(0, 5))),
        Err(HintError::InconsistentWrite(at(2, 3)))
    );
    assert_eq!(memory.get(&at(2, 3)), Some(&num(5)));
    assert_eq!(memory.insert(&at(2, 1), &num(9)), Ok(()));
    assert_eq!(memory.get(&at(2, 1)), Some(&num(9)));
    assert_eq!(memory.get(&at(2, 3)), Some(&num(5)));
}

#[test]
fn memory_get_range() {
    let mut memory = Memory::new();
    for offset in 0..4 {
        memory.insert(&at(1, offset), &num(10 + offset as u32)).unwrap();
    }
    memory.insert(&at(1, 5), &num(15)).unwrap();
    assert_eq!(memory.get_range(&at(1, 1), 3), Ok(vec![num(11), num(12), num(13)]));
    assert_eq!(memory.get_range(&at(1, 1), 0), Ok(vec![]));
    assert_eq!(memory.get_range(&at(9, 9), 0), Ok(vec![]));
    assert_eq!(
        memory.get_range(&at(1, 2), 4),
        Err(HintError::UnknownMemoryCell(at(1, 4)))
    );
    assert_eq!(
        memory.get_range(&at(1, 5), 3),
        Err(HintError::UnknownMemoryCell(at(1, 6)))
    );
    assert_eq!(
        memory.get_range(&at(1, 8), 1),
        Err(HintError::UnknownMemoryCell(at(1, 8)))
    );
    assert_eq!(
        memory.get_range(&at(4, 0), 2),
        Err(HintError::UnknownMemoryCell(at(4, 0)))
    );
    assert_eq!(
        memory.get_range(&at(1, usize::MAX), 2),
        Err(HintError::UnknownMemoryCell(at(1, usize::MAX)))
    );
}

fn offsets() -> FrameOffsets {
    FrameOffsets {
        is_elm_in_set: Some(-5),
        index: Some(-4),
        set_ptr: Some(-3),
        elm_size: Some(-2),
        elm_ptr: Some(-1),
        set_end_ptr: Some(0),
    }
}

#[test]
fn names_resolve_against_the_frame_pointer() {
    let ids = HintIds::resolve(&at(1, 5), &offsets());
    assert_eq!(ids.get(HintName::IsElmInSet), Some(at(1, 0)));
    assert_eq!(ids.get(HintName::Index), Some(at(1, 1)));
    assert_eq!(ids.get(HintName::SetPtr), Some(at(1, 2)));
    assert_eq!(ids.get(HintName::ElmSize), Some(at(1, 3)));
    assert_eq!(ids.get(HintName::ElmPtr), Some(at(1, 4)));
    assert_eq!(ids.get(HintName::SetEndPtr), Some(at(1, 5)));
    assert_eq!(resolve_address(&ids, HintName::ElmPtr), Ok(at(1, 4)));
    assert_eq!(resolve_in_frame(&at(1, 5), Some(-7)), None);
    assert_eq!(resolve_in_frame(&at(1, 5), None), None);
    assert_eq!(resolve_in_frame(&at(3, 5), Some(2)), Some(at(3, 7)));

    let mut broken = offsets();
    broken.index = Some(-7);
    broken.elm_ptr = None;
    let ids = HintIds::resolve(&at(1, 5), &broken);
    assert_eq!(
        resolve_address(&ids, HintName::Index),
        Err(HintError::NameResolutionFailed)
    );
    assert_eq!(
        resolve_address(&ids, HintName::ElmPtr),
        Err(HintError::NameResolutionFailed)
    );
    assert_eq!(resolve_address(&ids, HintName::SetPtr), Ok(at(1, 2)));
}

#[test]
fn reads_and_writes_by_name() {
    let ids = HintIds::resolve(&at(1, 5), &offsets());
    let mut memory = Memory::new();
    memory.insert(&at(1, 2), &MaybeRelocatable::RelocatableValue(at(2, 0))).unwrap();
    memory.insert(&at(1, 3), &num(2)).unwrap();
    assert_eq!(read_address(&memory, &ids, HintName::SetPtr), Ok(at(2, 0)));
    assert_eq!(
        read_address(&memory, &ids, HintName::ElmSize),
        Err(HintError::ExpectedAddress(at(1, 3)))
    );
    assert_eq!(
        read_address(&memory, &ids, HintName::ElmPtr),
        Err(HintError::UnknownMemoryCell(at(1, 4)))
    );
    assert_eq!(
        read_integer(&memory, &ids, HintName::ElmSize),
        Ok(Integer::new(Sign::Plus, vec![2]))
    );
    assert_eq!(
        read_integer(&memory, &ids, HintName::SetPtr),
        Err(HintError::ExpectedInteger(at(1, 2)))
    );
    assert_eq!(
        read_integer(&memory, &ids, HintName::SetEndPtr),
        Err(HintError::UnknownMemoryCell(at(1, 5)))
    );
    assert_eq!(
        set_membership::ids::write(&mut memory, &ids, HintName::Index, &num(4)),
        Ok(())
    );
    assert_eq!(memory.get(&at(1, 1)), Some(&num(4)));
    assert_eq!(
        set_membership::ids::write(&mut memory, &ids, HintName::Index, &num(5)),
        Err(HintError::InconsistentWrite(at(1, 1)))
    );
    let mut broken = offsets();
    broken.index = None;
    let ids = HintIds::resolve(&at(1, 5), &broken);
    assert_eq!(
        set_membership::ids::write(&mut memory, &ids, HintName::Index, &num(4)),
        Err(HintError::NameResolutionFailed)
    );
    assert_eq!(
        read_integer(&memory, &ids, HintName::Index),
        Err(HintError::NameResolutionFailed)
    );
}

fn set_memory() -> Memory {
    let mut memory = Memory::new();
    for (offset, value) in [1, 3, 5, 7, 1, 3].iter().enumerate() {
        memory.insert(&at(2, offset), &num(*value)).unwrap();
    }
    memory.insert(&at(3, 0), &num(5)).unwrap();
    memory.insert(&at(3, 1), &num(7)).unwrap();
    memory
}

#[test]
fn check_inputs_gives_the_query() {
    let memory = set_memory();
    let two = Integer::new(Sign::Plus, vec![2]);
    let query = check_inputs(&memory, &at(2, 0), &two, &at(3, 0), &at(2, 5)).ok().unwrap();
    assert_eq!(query.set_ptr, at(2, 0));
    assert_eq!(query.range_len, 5);
    assert_eq!(query.elm, vec![num(5), num(7)]);
    assert_eq!(find_element(&memory, &query), Ok(Some(1)));
}

#[test]
fn check_inputs_failures_in_order() {
    let memory = set_memory();
    let size = |sign: Sign, digits: Vec<u32>| Integer::new(sign, digits);
    let failure = |elm_size: &Integer, set_ptr: Relocatable, elm_ptr: Relocatable| {
        check_inputs(&memory, &set_ptr, elm_size, &elm_ptr, &at(2, 4)).err()
    };
    // a size that is no count comes before everything else
    assert_eq!(
        failure(&size(Sign::Minus, vec![1]), at(2, 5), at(7, 0)),
        Some(HintError::SizeConversionOverflow)
    );
    assert_eq!(
        failure(&size(Sign::Plus, vec![0, 0, 1]), at(2, 5), at(7, 0)),
        Some(HintError::SizeConversionOverflow)
    );
    assert_eq!(
        failure(&size(Sign::NoSign, vec![]), at(2, 5), at(7, 0)),
        Some(HintError::NonPositiveElementSize)
    );
    // then the probe, then the order of the range
    assert_eq!(
        failure(&size(Sign::Plus, vec![2]), at(2, 5), at(7, 0)),
        Some(HintError::UnknownMemoryCell(at(7, 0)))
    );
    assert_eq!(
        failure(&size(Sign::Plus, vec![2]), at(2, 5), at(3, 0)),
        Some(HintError::InvalidSetRange(at(2, 5), at(2, 4)))
    );
    assert_eq!(
        failure(&size(Sign::Plus, vec![2]), at(1, 5), at(3, 0)),
        Some(HintError::SegmentMismatch(at(2, 4), at(1, 5)))
    );
    assert_eq!(failure(&size(Sign::Plus, vec![2]), at(2, 4), at(3, 0)), None);
}

#[test]
fn size_at_the_edge_of_the_count_range() {
    let memory = set_memory();
    let (_, max_digits) = BigInt::from(usize::MAX).to_u32_digits();
    let max = Integer::new(Sign::Plus, max_digits);
    // the largest count is a count: the probe is then read, and not there
    assert_eq!(
        check_inputs(&memory, &at(2, 0), &max, &at(3, 0), &at(2, 4)).err(),
        Some(HintError::UnknownMemoryCell(at(3, 2)))
    );
    let (_, above_digits) = BigInt::from(usize::MAX as u128 + 1).to_u32_digits();
    let above = Integer::new(Sign::Plus, above_digits);
    assert_eq!(
        check_inputs(&memory, &at(2, 0), &above, &at(3, 0), &at(2, 4)).err(),
        Some(HintError::SizeConversionOverflow)
    );
}

#[test]
fn find_element_scans_whole_chunks_in_order() {
    let memory = set_memory();
    let query = |range_len: usize, elm: Vec<MaybeRelocatable>| SetQuery {
        set_ptr: at(2, 0),
        range_len,
        elm,
    };
    assert_eq!(find_element(&memory, &query(6, vec![num(1), num(3)])), Ok(Some(0)));
    assert_eq!(find_element(&memory, &query(6, vec![num(5), num(7)])), Ok(Some(1)));
    assert_eq!(find_element(&memory, &query(3, vec![num(5), num(7)])), Ok(None));
    assert_eq!(find_element(&memory, &query(6, vec![num(3), num(5)])), Ok(None));
    assert_eq!(find_element(&memory, &query(0, vec![num(1), num(3)])), Ok(None));
    assert_eq!(find_element(&memory, &query(6, vec![num(7)])), Ok(Some(3)));
    assert_eq!(find_element(&memory, &query(6, vec![num(3)])), Ok(Some(1)));
    assert_eq!(
        find_element(&memory, &query(8, vec![num(9), num(9)])),
        Err(HintError::UnknownMemoryCell(at(2, 6)))
    );
    assert_eq!(find_element(&memory, &query(8, vec![num(1), num(3)])), Ok(Some(0)));
    assert_eq!(
        find_element(&memory, &query(7, vec![num(1), num(3), num(5), num(7)])),
        Ok(Some(0))
    );
    assert_eq!(
        find_element(&memory, &query(8, vec![num(1), num(3), num(5), num(9)])),
        Err(HintError::UnknownMemoryCell(at(2, 6)))
    );
}

#[test]
fn read_inputs_reads_the_names_in_order() {
    let mut memory = set_memory();
    let ids = HintIds::resolve(&at(1, 5), &offsets());
    assert_eq!(
        read_inputs(&memory, &ids).err(),
        Some(HintError::UnknownMemoryCell(at(1, 2)))
    );
    memory.insert(&at(1, 2), &MaybeRelocatable::RelocatableValue(at(2, 0))).unwrap();
    assert_eq!(
        read_inputs(&memory, &ids).err(),
        Some(HintError::UnknownMemoryCell(at(1, 3)))
    );
    memory.insert(&at(1, 3), &num(2)).unwrap();
    memory.insert(&at(1, 4), &MaybeRelocatable::RelocatableValue(at(3, 0))).unwrap();
    memory.insert(&at(1, 5), &MaybeRelocatable::RelocatableValue(at(2, 6))).unwrap();
    let query = read_inputs(&memory, &ids).ok().unwrap();
    assert_eq!(query.set_ptr, at(2, 0));
    assert_eq!(query.range_len, 6);
    assert_eq!(query.elm, vec![num(5), num(7)]);
}
