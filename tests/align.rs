use motion_search::align::{Aligned, AlignedBoxedSlice};

/// The address that `r` refers to.
fn address_of<T>(r: &T) -> usize {
    let s = format!("{:p}", r);
    usize::from_str_radix(s.trim_start_matches("0x"), 16).unwrap()
}

fn is_aligned(addr: usize, n: usize) -> bool {
    (addr & ((1 << n) - 1)) == 0
}

#[test]
fn sanity() {
    let a: Aligned<_> = Aligned::new([0u8; 3]);
    assert!(is_aligned(address_of(&a.data[0]), 4));
}

#[test]
fn aligned_boxed_slice_is_filled() {
    let s = AlignedBoxedSlice::new(7u16, 5);
    assert_eq!(s.len(), 5);
    assert_eq!(s.as_slice(), &[7u16, 7, 7, 7, 7]);
}
