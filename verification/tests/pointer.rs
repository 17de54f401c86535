use element_ptr::helper::{
    index, new_pointer, Const, Flavor, Mut, Mutability, NonNull, Pointer, Raw,
};

#[test]
fn non_null_flavor_refuses_address_zero() {
    assert!(Raw::<NonNull, u32>::from_addr(0).is_none());
    assert!(Raw::<NonNull, u32>::from_addr(1).is_some());
    assert!(Raw::<Const, u32>::from_addr(0).is_some());
    assert!(Raw::<Mut, u32>::from_addr(0).is_some());
}

#[test]
fn markers_stand_for_their_flavors() {
    assert_eq!(Const::tag(), Flavor::ReadOnly);
    assert_eq!(Mut::tag(), Flavor::Mutable);
    assert_eq!(NonNull::tag(), Flavor::GuaranteedNonNull);
}

#[test]
fn wrapping_and_converting_back_keep_the_address() {
    let raw = Raw::<NonNull, u64>::from_addr(0x7000).unwrap();
    let ptr = new_pointer(raw);
    assert_eq!(ptr.into_inner().to_addr(), 0x7000);
    assert_eq!(ptr.into_const().to_addr(), 0x7000);
    let copy = ptr;
    assert_eq!(copy.into_inner().to_addr(), ptr.into_inner().to_addr());
}

#[test]
fn element_offsets_use_the_pointee_size() {
    let raw = Raw::<Mut, u32>::from_addr(1000).unwrap();
    let ptr: Pointer<Mut, u32> = new_pointer(raw);
    assert_eq!(ptr.add(3).into_inner().to_addr(), 1012);
    assert_eq!(ptr.sub(3).into_inner().to_addr(), 988);
    assert_eq!(ptr.offset(2).into_inner().to_addr(), 1008);
    assert_eq!(ptr.offset(-2).into_inner().to_addr(), 992);
    assert_eq!(ptr.offset(0).into_inner().to_addr(), 1000);
}

#[test]
fn byte_offsets_ignore_the_pointee_size() {
    let raw = Raw::<Mut, u32>::from_addr(1000).unwrap();
    let ptr = new_pointer(raw);
    assert_eq!(ptr.byte_add(3).into_inner().to_addr(), 1003);
    assert_eq!(ptr.byte_sub(3).into_inner().to_addr(), 997);
    assert_eq!(ptr.byte_offset(5).into_inner().to_addr(), 1005);
    assert_eq!(ptr.byte_offset(-5).into_inner().to_addr(), 995);
}

#[test]
fn offsets_reach_the_ends_of_the_address_space() {
    let raw = Raw::<Const, u8>::from_addr(0).unwrap();
    let ptr = new_pointer(raw);
    assert_eq!(ptr.add(usize::MAX).into_inner().to_addr(), usize::MAX);
    assert_eq!(ptr.add(usize::MAX).sub(usize::MAX).into_inner().to_addr(), 0);
    let top = new_pointer(Raw::<Const, u8>::from_addr(usize::MAX).unwrap());
    assert_eq!(top.offset(isize::MIN).into_inner().to_addr(), usize::MAX / 2);
    assert_eq!(top.byte_offset(isize::MIN).into_inner().to_addr(), usize::MAX / 2);
}

#[test]
fn cast_to_the_same_type_changes_nothing() {
    let ptr = new_pointer(Raw::<Const, u16>::from_addr(77).unwrap());
    assert_eq!(ptr.cast::<u16>().into_inner().to_addr(), 77);
    assert_eq!(ptr.cast::<u64>().into_inner().to_addr(), 77);
}

#[test]
fn offset_forwards_and_backwards_leads_back() {
    let ptr = new_pointer(Raw::<Mut, [u8; 24]>::from_addr(4800).unwrap());
    assert_eq!(ptr.add(5).sub(5).into_inner().to_addr(), 4800);
    assert_eq!(ptr.add(5).into_inner().to_addr(), 4920);
    assert_eq!(ptr.byte_add(5).byte_sub(5).into_inner().to_addr(), 4800);
}

#[test]
fn flavor_is_kept_through_navigation() {
    let constant: Raw<Const, u8> =
        new_pointer(Raw::<Const, u32>::from_addr(64).unwrap()).add(1).cast::<u8>().into_inner();
    let mutable: Raw<Mut, u8> =
        new_pointer(Raw::<Mut, u32>::from_addr(64).unwrap()).add(1).cast::<u8>().into_inner();
    let non_null: Raw<NonNull, u8> =
        new_pointer(Raw::<NonNull, u32>::from_addr(64).unwrap()).add(1).cast::<u8>().into_inner();
    assert_eq!(constant.to_addr(), 68);
    assert_eq!(mutable.to_addr(), 68);
    assert_eq!(non_null.to_addr(), 68);
}

#[test]
fn index_advances_by_elements() {
    let raw = Raw::<Const, [u64; 6]>::from_addr(4096).unwrap();
    let ptr = new_pointer(raw);
    let third = index(ptr, 3);
    assert_eq!(third.into_inner().to_addr(), 4096 + 24);
    assert_eq!(ptr.cast::<u64>().add(3).into_const().to_addr(), 4096 + 24);
    assert_eq!(index(ptr, 0).into_inner().to_addr(), 4096);
}

#[test]
fn bytes_of_one_element_are_one_element() {
    let ptr = new_pointer(Raw::<Mut, [u16; 5]>::from_addr(300).unwrap());
    assert_eq!(ptr.byte_add(10).into_inner().to_addr(), ptr.add(1).into_inner().to_addr());
    assert_eq!(ptr.add(1).into_inner().to_addr(), 310);
}

#[test]
fn copied_address_takes_the_place_of_a_field() {
    let record = new_pointer(Raw::<Mut, [u32; 30]>::from_addr(0x1000).unwrap());
    let items_at = Raw::<Const, [[usize; 2]; 6]>::from_addr(0x1000 + 8).unwrap();
    let items = record.copy_addr(items_at);
    let fourth: Raw<Mut, [usize; 2]> = index(items, 3).into_inner();
    assert_eq!(fourth.to_addr(), 0x1000 + 8 + 3 * 2 * std::mem::size_of::<usize>());
}
