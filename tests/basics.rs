use slice_ops::scalar::{Conj, Square};
use slice_ops::{is_power_of, rsplit_at, rsplit_at_mut, rsplit_len, split_at, split_at_mut, split_len, Padded, PaddedSlice};

#[test]
fn lib_it_works() {
    assert_eq!(split_len(5, 2), (2, 3));
    assert_eq!(rsplit_len(5, 2), (3, 2));
}

#[test]
fn powers() {
    assert!(is_power_of(1, 2));
    assert!(is_power_of(8, 2));
    assert!(is_power_of(81, 3));
    assert!(!is_power_of(12, 2));
    assert!(!is_power_of(10, 3));
}

#[test]
fn padded_values() {
    let p: Padded<u32, 3> = Padded::new(7);
    assert_eq!(*p.borrow(), 7);
    let mut q: Padded<u32, 2> = Padded::new(1);
    *q.borrow_mut() = 5;
    assert_eq!(q.into_inner(), 5);
    let nested: Padded<Padded<u8, 2>, 3> = Padded::new(Padded::new(9));
    let flat: Padded<u8, 6> = nested.flatten();
    assert_eq!(*flat.borrow(), 9);
}

#[test]
fn spread_slices() {
    let x = [1, 2, 3, 4, 5, 6, 7];
    let (views, rest) = PaddedSlice::spread_slice(&x, 3);
    assert_eq!(views.len(), 3);
    assert_eq!(rest, &[7]);
    let (front, views) = PaddedSlice::rspread_slice(&x, 3);
    assert_eq!(views.len(), 3);
    assert_eq!(front, &[1]);
    let _whole = PaddedSlice::new(&x);
}

#[test]
fn scalar_ops() {
    assert_eq!(3i32.square(), 9);
    assert_eq!(5u8.conj(), 5);
}

#[test]
fn free_splits() {
    let x = [1, 2, 3, 4, 5];
    assert_eq!(split_at(&x, 2), (&[1, 2][..], &[3, 4, 5][..]));
    assert_eq!(rsplit_at(&x, 2), (&[1, 2, 3][..], &[4, 5][..]));
    let mut y = [1, 2, 3];
    let (a, b) = split_at_mut(&mut y, 1);
    a[0] = 9;
    b[1] = 8;
    assert_eq!(y, [9, 2, 8]);
    let (c, d) = rsplit_at_mut(&mut y, 3);
    assert!(c.is_empty());
    d[0] = 0;
    assert_eq!(y, [0, 2, 8]);
}
