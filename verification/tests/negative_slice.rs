use kernel::memory::negative_slice::{resolve_index, NegativeSlice};

const TEST_DATA: [u8; 11] = [0, 1, 2, 3, 4, 5, 6, 7, 8, 9, 10];

#[test]
fn normal_single_index() {
    let s = NegativeSlice::new(&TEST_DATA);
    assert_eq!(*s.index(0), 0);
    assert_eq!(*s.index(3), 3);
}

#[test]
fn reverse_single_index() {
    let s = NegativeSlice::new(&TEST_DATA);
    assert_eq!(*s.index(-1), 10);
    assert_eq!(*s.index(-5), 6);
}

// Indexing out of range is outside the contract of `index` and
// `index_range`; these tests show that such indices fail its precondition.
#[test]
fn out_of_bounds_index() {
    let s = NegativeSlice::new(&TEST_DATA);
    let pos = resolve_index(s.len(), 76).unwrap();
    assert!(pos >= s.len());
}

#[test]
fn reverse_single_index_out_of_bounds() {
    let s = NegativeSlice::new(&TEST_DATA);
    assert_eq!(resolve_index(s.len(), -23), None);
}

#[test]
fn backwards_range() {
    let s = NegativeSlice::new(&TEST_DATA);
    let start = resolve_index(s.len(), 9).unwrap();
    let end = resolve_index(s.len(), -9).unwrap();
    assert!(start > end);
}

#[test]
fn out_of_bounds_indices_do_not_resolve() {
    assert_eq!(resolve_index(11, -23), None);
    assert_eq!(resolve_index(11, -11), Some(0));
    assert_eq!(resolve_index(11, 76), Some(76));
}

#[test]
fn forward_ranges() {
    let s = NegativeSlice::new(&TEST_DATA);
    assert_eq!(s.index_range(0, 3).0, [0, 1, 2]);
    assert_eq!(s.index_range_inclusive(0, 3).0, [0, 1, 2, 3]);
    assert_eq!(s.index_range_from(7).0, [7, 8, 9, 10]);
    assert_eq!(s.index_range_to(5).0, [0, 1, 2, 3, 4]);
    assert_eq!(s.index_range_to_inclusive(5).0, [0, 1, 2, 3, 4, 5]);
    assert_eq!(s.index_full().0, [0, 1, 2, 3, 4, 5, 6, 7, 8, 9, 10]);
}

#[test]
fn reverse_ranges() {
    let s = NegativeSlice::new(&TEST_DATA);
    assert_eq!(s.index_range(-5, -1).0, [6, 7, 8, 9]);
    assert_eq!(s.index_range_inclusive(-5, -1).0, [6, 7, 8, 9, 10]);
    assert_eq!(s.index_range_from(-4).0, [7, 8, 9, 10]);
    assert_eq!(s.index_range_to(-7).0, [0, 1, 2, 3]);
    assert_eq!(s.index_range_to_inclusive(-7).0, [0, 1, 2, 3, 4]);
}

#[test]
fn mixed_ranges() {
    let s = NegativeSlice::new(&TEST_DATA);
    assert_eq!(s.index_range(3, -5).0, [3, 4, 5]);
    assert_eq!(s.index_range(-5, 9).0, [6, 7, 8]);
}

#[test]
fn zero_length_struct_from_up_to_minus_one() {
    let single = [0u8];
    let s = NegativeSlice::new(&single);
    assert_eq!(s.index_range_to(-1).0, [0u8; 0]);
    assert_eq!(s.len(), 1);
    assert_eq!(s.as_slice(), [0]);
}

#[test]
fn mutable_indexing_writes_through() {
    let mut data = TEST_DATA;
    {
        let mut s = NegativeSlice::new_mut(&mut data);
        *s.index_mut(-1) = 100;
        *s.index_mut(0) = 50;
        let sub = s.index_range_mut(-4, -2);
        sub.0[0] = 77;
        let tail = s.index_range_from_mut(-2);
        tail.0[1] = 99;
        let head = s.index_range_to_mut(-9);
        head.0[1] = 11;
        let incl = s.index_range_to_inclusive_mut(2);
        incl.0[2] = 22;
        let mid = s.index_range_inclusive_mut(3, -7);
        mid.0[1] = 44;
        let all = s.index_full_mut();
        all.0[5] = 55;
    }
    assert_eq!(data, [50, 11, 22, 3, 44, 55, 6, 77, 8, 9, 99]);
}
