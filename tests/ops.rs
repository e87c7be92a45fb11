use slice_ops::ops::{
    SliceAddAssign, SliceArgMinMax, SliceArgReduce, SliceBitAndAssign, SliceBitOrAssign, SliceBitXorAssign,
    SliceDifferentiate, SliceDivAssign, SliceFind, SliceIntegrate, SliceMulAssign, SliceNegAssign, SliceNotAssign,
    SlicePartialMagnitude, SlicePermute, SliceRemAssign, SliceShift, SliceShlAssign, SliceShrAssign, SliceSplit,
    SliceSpread, SliceSubAssign,
    SliceTrim, SliceVisit,
};

#[test]
fn add_assign_it_works() {
    let mut x = [1, 2, 3, 4, 5, 6, 7, 8];
    x.add_assign_all(2);
    assert_eq!(x, [3, 4, 5, 6, 7, 8, 9, 10]);
}

#[test]
fn sub_assign_it_works() {
    let mut x = [1, 2, 3, 4, 5, 6, 7, 8];
    x.sub_assign_all(2);
    assert_eq!(x, [-1, 0, 1, 2, 3, 4, 5, 6]);
    let mut y = [1, 2, 3];
    y.rsub_assign_all(10);
    assert_eq!(y, [9, 8, 7]);
}

#[test]
fn mul_assign_it_works() {
    let mut x = [1, 2, 3, 4, 5, 6, 7, 8];
    x.mul_assign_all(2);
    assert_eq!(x, [2, 4, 6, 8, 10, 12, 14, 16]);
}

#[test]
fn div_assign_it_works() {
    let mut x = [1, 2, 3, 4, 5, 6, 7, 8];
    x.div_assign_all(2);
    assert_eq!(x, [0, 1, 1, 2, 2, 3, 3, 4]);
    let mut y = [1, 2, 3, 4];
    y.rdiv_assign_all(12);
    assert_eq!(y, [12, 6, 4, 3]);
}

#[test]
fn rem_assign_it_works() {
    let mut x = [1, 2, 3, 4, 5, 6, 7, 8];
    x.rem_assign_all(3);
    assert_eq!(x, [1, 2, 0, 1, 2, 0, 1, 2]);
}

#[test]
fn shl_assign_it_works() {
    let mut x: [u32; 4] = [1, 2, 3, 4];
    x.shl_assign_all(2u32);
    assert_eq!(x, [4, 8, 12, 16]);
}

#[test]
fn shr_assign_it_works() {
    let mut x: [u32; 4] = [4, 8, 13, 16];
    x.shr_assign_all(2u32);
    assert_eq!(x, [1, 2, 3, 4]);
}

#[test]
fn bitand_assign_it_works() {
    let mut x: [u8; 4] = [0b1100, 0b1010, 0b0110, 0b1111];
    x.bitand_assign_all(0b1010);
    assert_eq!(x, [0b1000, 0b1010, 0b0010, 0b1010]);
}

#[test]
fn bitor_assign_it_works() {
    let mut x: [u8; 3] = [0b0001, 0b0100, 0b1000];
    x.bitor_assign_all(0b0010);
    assert_eq!(x, [0b0011, 0b0110, 0b1010]);
}

#[test]
fn bitxor_assign_it_works() {
    let mut x: [u8; 3] = [0b0001, 0b0110, 0b1111];
    x.bitxor_assign_all(0b0101);
    assert_eq!(x, [0b0100, 0b0011, 0b1010]);
}

#[test]
fn neg_assign_it_works() {
    let mut x = [1, 2, 3, 4, 5, 6, 7, 8];
    x.neg_assign_all();
    assert_eq!(x, [-1, -2, -3, -4, -5, -6, -7, -8]);
}

#[test]
fn not_assign_it_works() {
    let mut x = [true, false, true];
    x.not_assign_all();
    assert_eq!(x, [false, true, false]);
    let mut y: [u8; 2] = [0, 0b1111_0000];
    y.not_assign_all();
    assert_eq!(y, [0xff, 0b0000_1111]);
}

#[test]
fn differentiate_it_works() {
    let mut x = [1, 5, 5, 6, 2, -1, 0, 0, 0];
    x.differentiate();
    assert_eq!(x, [1, 4, 0, 1, -4, -3, 1, 0, 0]);
}

#[test]
fn integrate_it_works() {
    let mut x = [1, 4, 0, 1, -4, -3, 1, 0, 0];
    x.integrate();
    assert_eq!(x, [1, 5, 5, 6, 2, -1, 0, 0, 0]);
}

#[test]
fn integrate_undoes_differentiate() {
    let mut x = [3, -2, 7, 7, 0, 11];
    x.differentiate();
    x.integrate();
    assert_eq!(x, [3, -2, 7, 7, 0, 11]);
    let mut empty: [i32; 0] = [];
    empty.integrate();
    empty.differentiate();
}

#[test]
fn find_it_works() {
    let x = [3, 1, 4, 1, 5, 9, 2, 6, 5, 3];
    let i = x.find(&5).unwrap();
    assert_eq!(i, 4);
    assert_eq!(x[i], 5);
    assert_eq!(x.rfind(&5), Some(8));
    assert_eq!(x.find(&7), None);
    assert_eq!(x.find_by(|e| *e > 4), Some(4));
    assert_eq!(x.rfind_by(|e| *e < 3), Some(6));
    assert_eq!(x.find_by_key(&0, |e| e % 3), Some(0));
    assert_eq!(x.rfind_by_key(&0, |e| e % 3), Some(9));
    assert_eq!(x.find_by_key(&8, |e| *e), None);
}

#[test]
fn argreduce_it_works() {
    let x = [1, 5, 5, 6, 2, -1, 0, -4, -1, 6];
    assert_eq!(x.argreduce(|a, b| a > b), x.argmax());
    assert_eq!(x.argreduce(|a, b| a < b), x.argmin());
    let s = ["1", "5", "5", "6", "2", "-1", "0", "-4", "-1", "6"];
    let key = |e: &&str| e.parse::<i32>().unwrap();
    assert_eq!(s.argreduce_key(|a, b| a > b, key), Some(3));
    assert_eq!(s.argreduce_key(|a, b| a < b, key), Some(7));
    let empty: [i32; 0] = [];
    assert_eq!(empty.argreduce(|a, b| a > b), None);
}

#[test]
fn argminmax_it_works() {
    let a = [1, 2];
    let ar: &[u8] = &a;
    let i = ar.argmin().unwrap();
    println!("{}", i);
    assert_eq!(i, 0);
    let x = [1, 5, 5, 6, 2, -1, 0, -4, -1, 6];
    assert_eq!(x.argmax(), Some(3));
    assert_eq!(x.argmin(), Some(7));
    assert_eq!(x.argmax_by(|a, b| a.cmp(b)), Some(3));
    assert_eq!(x.argmin_by(|a, b| a.cmp(b)), Some(7));
    let s = ["1", "5", "5", "6", "2", "-1", "0", "-4", "-1", "6"];
    assert_eq!(s.argmax_by_key(|e| e.parse::<i32>().unwrap()), Some(3));
    assert_eq!(s.argmin_by_key(|e| e.parse::<i32>().unwrap()), Some(7));
    let empty: [u8; 0] = [];
    assert_eq!(empty.argmax(), None);
}

#[test]
fn magnitude_it_works() {
    let x = [1, 2, 3];
    assert_eq!(x.partial_magnitude_squared(), Some(14));
    assert_eq!(x.magnitude_squared_from(10), 24);
    let empty: [i32; 0] = [];
    assert_eq!(empty.partial_magnitude_squared(), None);
    assert_eq!(empty.magnitude_squared_from(5), 5);
}

#[test]
fn shift_it_works() {
    let mut register = [4, 5, 6, 7, 8, 9];
    let mut io = [1, 2, 3];
    register.shift_many_right(&mut io);
    assert_eq!(register, [1, 2, 3, 4, 5, 6]);
    assert_eq!(io, [7, 8, 9]);
    register.shift_many_left(&mut io);
    assert_eq!(register, [4, 5, 6, 7, 8, 9]);
    assert_eq!(io, [1, 2, 3]);

    let mut x = [1, 2, 3];
    let mut item = 0;
    x.shift_left(&mut item);
    assert_eq!(x, [2, 3, 0]);
    assert_eq!(item, 1);
    x.shift_right(&mut item);
    assert_eq!(x, [1, 2, 3]);
    assert_eq!(item, 0);

    let mut short = [5];
    let mut other = 6;
    short.shift_left(&mut other);
    assert_eq!(short, [5]);
    assert_eq!(other, 6);
}

#[test]
fn shift_many_with_more_items_than_elements() {
    let mut x = [1, 2];
    let mut items = [3, 4, 5, 6, 7];
    x.shift_many_left(&mut items);
    assert_eq!(x, [6, 7]);
    assert_eq!(items, [1, 2, 3, 4, 5]);
}

#[test]
fn split_it_works() {
    let x = [1, 2, 3, 4, 5];
    assert_eq!(x.split_len(2), (2, 3));
    assert_eq!(x.rsplit_len(2), (3, 2));
    let (a, b) = x.rsplit_at(2);
    assert_eq!(a, &[1, 2, 3]);
    assert_eq!(b, &[4, 5]);
    let mut y = [1, 2, 3, 4, 5];
    let (c, d) = y.rsplit_at_mut(1);
    c[0] = 10;
    d[0] = 50;
    assert_eq!(y, [10, 2, 3, 4, 50]);
}

#[test]
fn trim_it_works() {
    let a = [0, 0, 0, 1, 2, 3, 0, 0, 0];
    let at = a.trim(|&e| e == 0);
    assert_eq!(at, &[1, 2, 3]);
    assert_eq!(a.trim_front(|&e| e == 0), &[1, 2, 3, 0, 0, 0]);
    assert_eq!(a.trim_back(|&e| e == 0), &[0, 0, 0, 1, 2, 3]);
    let zeros = [0, 0];
    assert_eq!(zeros.trim(|&e| e == 0), &[] as &[i32]);
    let mut b = [0, 1, 0, 2, 0];
    let bt = b.trim_mut(|&e| e == 0);
    bt[1] = 7;
    assert_eq!(b, [0, 1, 7, 2, 0]);
    let mut c = [0, 0, 4];
    c.trim_front_mut(|&e| e == 0)[0] = 5;
    assert_eq!(c, [0, 0, 5]);
    let mut d = [4, 0];
    d.trim_back_mut(|&e| e == 0)[0] = 6;
    assert_eq!(d, [6, 0]);
}

#[test]
fn test() {
    let a = [0, 1, 0];
    let b = a.trim_back(|a| *a == 0);
    println!("b = {:?}", b);
    assert_eq!(b, &[0, 1]);
}

#[test]
fn visit_it_works() {
    let x = [1, 2, 3, 4];
    let seen = std::cell::RefCell::new(Vec::new());
    x.visit(|e| seen.borrow_mut().push(*e));
    x.rvisit(|e| seen.borrow_mut().push(*e));
    assert_eq!(*seen.borrow(), vec![1, 2, 3, 4, 4, 3, 2, 1]);
    let r = x.try_visit(|e| if *e < 3 { Ok(()) } else { Err(*e) });
    assert_eq!(r, Err(3));
    let r = x.try_rvisit(|e| if *e > 2 { Ok(()) } else { Err(*e) });
    assert_eq!(r, Err(2));
    let ok: Result<(), i32> = x.try_visit(|_| Ok(()));
    assert_eq!(ok, Ok(()));
}

#[test]
fn test_grey_code_permutation() {
    let mut arr = [0b000, 0b001, 0b010, 0b011, 0b100, 0b101, 0b110, 0b111];
    arr.as_mut_slice().grey_code_permutation();
    assert_eq!(arr, [0b000, 0b001, 0b011, 0b010, 0b110, 0b111, 0b101, 0b100])
}

#[test]
fn bit_and_digit_reversal() {
    let mut arr = [0b000, 0b001, 0b010, 0b011, 0b100, 0b101, 0b110, 0b111];
    arr.bit_rev_permutation();
    assert_eq!(arr, [0b000, 0b100, 0b010, 0b110, 0b001, 0b101, 0b011, 0b111]);
    let mut nine = [0, 1, 2, 3, 4, 5, 6, 7, 8];
    nine.digit_rev_permutation(3);
    assert_eq!(nine, [0, 3, 6, 1, 4, 7, 2, 5, 8]);
    let mut short = [5, 6];
    short.digit_rev_permutation(3);
    assert_eq!(short, [5, 6]);
    let mut two = ["a", "b"];
    two.grey_code_permutation();
    assert_eq!(two, ["a", "b"]);
}

#[test]
fn spread_views_fizz_and_buzz() {
    let arr = ["1", "2", "3", "4", "5", "6", "7", "8", "9", "10", "11", "12", "13", "14", "15"];
    let views = arr.spread(3);
    assert_eq!(views.len(), 3);
    let fizz = &views[2];
    let got: Vec<&str> = (0..fizz.len()).map(|k| *fizz.get(k)).collect();
    assert_eq!(got, ["3", "6", "9", "12", "15"]);
    let views = arr.spread(5);
    let buzz = &views[4];
    let got: Vec<&str> = (0..buzz.len()).map(|k| *buzz.get(k)).collect();
    assert_eq!(got, ["5", "10", "15"]);
    let odd_even = [1, 2, 3].spread(2);
    assert_eq!(odd_even[0].len(), 2);
    assert_eq!(odd_even[1].len(), 1);
    assert_eq!(*odd_even[1].get(0), 2);
}
