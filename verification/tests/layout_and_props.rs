use memapi::external_alloc::{layout_to_flags, ALIGNOF_MAX_ALIGN_T};
use memapi::layout::{layout_or_sz_align, Layout};
use memapi::type_props::{PtrProps, SizedProps};

struct Nothing;

#[test]
fn layout_of_primitive() {
    let l = Layout::of::<u64>();
    assert_eq!(l.size, 8);
    assert_eq!(l.align, 8);
}

#[test]
fn slice_layout_small() {
    let l = layout_or_sz_align::<u32>(5).unwrap();
    assert_eq!(l.size, 20);
    assert_eq!(l.align, 4);
}

#[test]
fn slice_layout_zero_len_is_a_layout() {
    let l = layout_or_sz_align::<u64>(0).unwrap();
    assert_eq!(l.size, 0);
    assert_eq!(l.align, 8);
}

#[test]
fn slice_layout_overflow_reports_element_pair() {
    assert_eq!(layout_or_sz_align::<u64>(usize::MAX), Err((8, 8)));
}

#[test]
fn slice_layout_beyond_signed_limit_reports_total() {
    assert_eq!(layout_or_sz_align::<u8>(usize::MAX), Err((usize::MAX, 1)));
}

#[test]
fn slice_layout_largest_valid_u8_len() {
    let limit = (isize::MAX as usize) - ((isize::MAX as usize) % 1);
    let l = layout_or_sz_align::<u8>(limit).unwrap();
    assert_eq!(l.size, limit);
}

#[test]
fn sized_props_of_u64() {
    assert_eq!(<u64 as SizedProps>::sz(), 8);
    assert_eq!(<u64 as SizedProps>::align(), 8);
    assert!(!<u64 as SizedProps>::is_zst());
    let l = <u64 as SizedProps>::layout();
    assert_eq!(l.size, 8);
    assert_eq!(l.align, 8);
    assert_eq!(<u64 as SizedProps>::max_slice_len(), (isize::MAX as usize) / 8);
}

#[test]
fn sized_props_of_zero_sized_type() {
    assert_eq!(<Nothing as SizedProps>::sz(), 0);
    assert!(<Nothing as SizedProps>::is_zst());
    assert_eq!(<Nothing as SizedProps>::max_slice_len(), usize::MAX);
}

#[test]
fn max_slice_len_of_u8_is_signed_max() {
    assert_eq!(<u8 as SizedProps>::max_slice_len(), isize::MAX as usize);
}

#[test]
fn ptr_props_through_reference() {
    let x: u32 = 7;
    let r = &x;
    assert_eq!(r.size(), 4);
    assert_eq!(r.align(), 4);
    assert!(!r.is_zst());
    assert_eq!(r.layout().size, 4);
    assert_eq!(r.max_slice_len(), (isize::MAX as usize) / 4);
}

#[test]
fn ptr_props_of_unsized_pointees() {
    let values = [1u64, 2, 3];
    let s: &[u64] = &values;
    assert_eq!(s.size(), 24);
    assert_eq!(s.align(), 8);
    assert!(!s.is_zst());
    assert_eq!(s.layout().size, 24);
    assert_eq!(s.max_slice_len(), (isize::MAX as usize) / 24);
    let t: &str = "hello";
    assert_eq!(t.size(), 5);
    assert_eq!(t.align(), 1);
    let empty: &[u8] = &[];
    assert!(empty.is_zst());
    assert_eq!(empty.max_slice_len(), usize::MAX);
}

#[test]
fn ptr_props_through_owning_pointers() {
    let b = Box::new(9u64);
    assert_eq!(b.size(), 8);
    let rc = std::rc::Rc::new(3u16);
    assert_eq!(rc.size(), 2);
    assert_eq!(rc.align(), 2);
    let arc = std::sync::Arc::new(1u8);
    assert_eq!(arc.size(), 1);
    assert_eq!(arc.max_slice_len(), isize::MAX as usize);
}

#[test]
fn flags_zero_when_natural_alignment_suffices() {
    assert_eq!(layout_to_flags(64, 8), 0);
    assert_eq!(layout_to_flags(16, 16), 0);
    assert_eq!(ALIGNOF_MAX_ALIGN_T, 16);
}

#[test]
fn flags_encode_log2_of_alignment() {
    assert_eq!(layout_to_flags(64, 32), 5);
    assert_eq!(layout_to_flags(8, 16), 4);
    assert_eq!(layout_to_flags(1024, 4096), 12);
}
