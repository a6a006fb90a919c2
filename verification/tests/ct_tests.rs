use core::cmp::Ordering;
use ctutils::ordering;
use ctutils::{array, slice};
use ctutils::{
    BytesCtAssign, BytesCtEq, BytesCtSelect, Choice, CtAssign, CtEq, CtFind, CtGt, CtLookup, CtLt,
    CtNeg, CtOption, CtSelect,
};

fn choice_true() -> Choice {
    Choice::new(1)
}

fn choice_false() -> Choice {
    Choice::new(0)
}

const EXAMPLE_A: [u8; 3] = [1, 2, 3];
const EXAMPLE_B: [u8; 3] = [4, 5, 6];

#[test]
fn array_ct_assign() {
    let mut x = EXAMPLE_A;

    array::ct_assign(&mut x, &EXAMPLE_B, choice_false());
    assert_eq!(EXAMPLE_A, x);

    array::ct_assign(&mut x, &EXAMPLE_B, choice_true());
    assert_eq!(EXAMPLE_B, x);
}

#[test]
fn array_ct_eq() {
    assert!(array::ct_eq(&EXAMPLE_A, &EXAMPLE_A).to_bool());
    assert!(!array::ct_eq(&EXAMPLE_A, &EXAMPLE_B).to_bool());

    let a = [1u64, 2, 3];
    let b = [1u64, 2, 3];
    let c = [1u64, 2, 4];
    assert!(a.ct_eq(&b).to_bool());
    assert!(!a.ct_eq(&c).to_bool());
    assert!(!b.ct_eq(&c).to_bool());
    assert!(!a.ct_ne(&b).to_bool());
    assert!(a.ct_ne(&c).to_bool());
    assert!(b.ct_ne(&c).to_bool());
}

#[test]
fn array_ct_select() {
    assert_eq!(EXAMPLE_A, array::ct_select(&EXAMPLE_A, &EXAMPLE_B, choice_false()));
    assert_eq!(EXAMPLE_B, array::ct_select(&EXAMPLE_A, &EXAMPLE_B, choice_true()));
}

const BYTES_A: [u8; 3] = [1, 2, 3];
const SLICE_EX_A: &[u8] = &[1, 2, 3];
const SLICE_EX_B: &[u8] = &[2, 2, 3];
const SLICE_EX_C: &[u8] = &[1, 2];
const FIND_SLICE: &[u8] = &[0, 0, 0, 1, 2, 3];
const LOOKUP_SLICE: &[u8] = &[1, 2, 3];
const BYTES_B: [u8; 3] = [2, 2, 3];
const SLICE_A: &[u8] = &[1, 2, 3];

#[test]
fn bytes_bytes_ct_eq() {
    assert!(BYTES_A.bytes_ct_eq(&BYTES_A).to_bool());
    assert!(!BYTES_A.bytes_ct_eq(&BYTES_B).to_bool());

    assert!(SLICE_EX_A.bytes_ct_eq(SLICE_EX_A).to_bool());
    assert!(!SLICE_EX_A.bytes_ct_eq(SLICE_EX_B).to_bool());
    // different lengths
    assert!(!SLICE_EX_A.bytes_ct_eq(SLICE_EX_C).to_bool());
}

#[test]
fn bytes_bytes_ct_ne() {
    assert!(!BYTES_A.bytes_ct_ne(&BYTES_A).to_bool());
    assert!(BYTES_A.bytes_ct_ne(&BYTES_B).to_bool());

    assert!(!SLICE_EX_A.bytes_ct_ne(SLICE_EX_A).to_bool());
    assert!(SLICE_EX_A.bytes_ct_ne(SLICE_EX_B).to_bool());
    // different lengths
    assert!(SLICE_EX_A.bytes_ct_ne(SLICE_EX_C).to_bool());
}

#[test]
fn bytes_ct_select() {
    let should_be_a = BYTES_A.bytes_ct_select(&BYTES_B, choice_false());
    assert_eq!(BYTES_A, should_be_a);

    let should_be_b = BYTES_A.bytes_ct_select(&BYTES_B, choice_true());
    assert_eq!(BYTES_B, should_be_b);
}

#[test]
fn bytes_ct_assign() {
    let mut bytes = [0u8; 3];
    let slice: &mut [u8] = bytes.as_mut();

    slice.bytes_ct_assign(SLICE_A, choice_false());
    assert_eq!(slice, &[0u8; 3]);
    slice.bytes_ct_assign(SLICE_A, choice_true());
    assert_eq!(slice, SLICE_A);
}

#[test]
fn choice_ct_eq() {
    let a = choice_true();
    let b = choice_true();
    let c = choice_false();

    assert!(a.ct_eq(&b).to_bool());
    assert!(!a.ct_eq(&c).to_bool());
    assert!(!b.ct_eq(&c).to_bool());

    assert!(!a.ct_ne(&b).to_bool());
    assert!(a.ct_ne(&c).to_bool());
    assert!(b.ct_ne(&c).to_bool());
}

#[test]
fn choice_ct_select() {
    let a = choice_false();
    let b = choice_true();
    assert_eq!(a.ct_select(&b, choice_false()).to_bool(), a.to_bool());
    assert_eq!(a.ct_select(&b, choice_true()).to_bool(), b.to_bool());
}

#[test]
fn to_bool() {
    assert!(!Choice::new(0).to_bool());
    assert!(Choice::new(1).to_bool());
}

#[test]
fn to_u8() {
    assert_eq!(Choice::new(0).to_u8(), 0);
    assert_eq!(Choice::new(1).to_u8(), 1);
}

#[test]
fn choice_and() {
    assert_eq!((Choice::new(0) & Choice::new(0)).to_u8(), 0);
    assert_eq!((Choice::new(1) & Choice::new(0)).to_u8(), 0);
    assert_eq!((Choice::new(0) & Choice::new(1)).to_u8(), 0);
    assert_eq!((Choice::new(1) & Choice::new(1)).to_u8(), 1);
}

#[test]
fn choice_or() {
    assert_eq!((Choice::new(0) | Choice::new(0)).to_u8(), 0);
    assert_eq!((Choice::new(1) | Choice::new(0)).to_u8(), 1);
    assert_eq!((Choice::new(0) | Choice::new(1)).to_u8(), 1);
    assert_eq!((Choice::new(1) | Choice::new(1)).to_u8(), 1);
}

#[test]
fn choice_xor() {
    assert_eq!((Choice::new(0) ^ Choice::new(0)).to_u8(), 0);
    assert_eq!((Choice::new(1) ^ Choice::new(0)).to_u8(), 1);
    assert_eq!((Choice::new(0) ^ Choice::new(1)).to_u8(), 1);
    assert_eq!((Choice::new(1) ^ Choice::new(1)).to_u8(), 0);
}

#[test]
fn not() {
    assert_eq!(Choice::new(0).not().to_u8(), 1);
    assert_eq!(Choice::new(1).not().to_u8(), 0);
}

#[test]
fn from_i64_eq() {
    assert_eq!(Choice::from_i64_eq(0, 1), choice_false());
    assert_eq!(Choice::from_i64_eq(1, 1), choice_true());
}

#[test]
fn from_u32_eq() {
    assert_eq!(Choice::from_u32_eq(0, 1), choice_false());
    assert_eq!(Choice::from_u32_eq(1, 1), choice_true());
}

#[test]
fn from_u32_le() {
    assert_eq!(Choice::from_u32_le(0, 0), choice_true());
    assert_eq!(Choice::from_u32_le(1, 0), choice_false());
    assert_eq!(Choice::from_u32_le(1, 1), choice_true());
    assert_eq!(Choice::from_u32_le(1, 2), choice_true());
}

#[test]
fn from_u32_lsb() {
    assert_eq!(Choice::from_u32_lsb(0), choice_false());
    assert_eq!(Choice::from_u32_lsb(1), choice_true());
    assert_eq!(Choice::from_u32_lsb(2), choice_false());
    assert_eq!(Choice::from_u32_lsb(3), choice_true());
}

#[test]
fn from_u32_lt() {
    assert_eq!(Choice::from_u32_lt(0, 0), choice_false());
    assert_eq!(Choice::from_u32_lt(1, 0), choice_false());
    assert_eq!(Choice::from_u32_lt(1, 1), choice_false());
    assert_eq!(Choice::from_u32_lt(1, 2), choice_true());
}

#[test]
fn from_u32_nz() {
    assert_eq!(Choice::from_u32_nz(0), choice_false());
    assert_eq!(Choice::from_u32_nz(1), choice_true());
    assert_eq!(Choice::from_u32_nz(2), choice_true());
}

#[test]
fn from_u64_eq() {
    assert_eq!(Choice::from_u64_eq(0, 1), choice_false());
    assert_eq!(Choice::from_u64_eq(1, 1), choice_true());
}

#[test]
fn from_u64_le() {
    assert_eq!(Choice::from_u64_le(0, 0), choice_true());
    assert_eq!(Choice::from_u64_le(1, 0), choice_false());
    assert_eq!(Choice::from_u64_le(1, 1), choice_true());
    assert_eq!(Choice::from_u64_le(1, 2), choice_true());
}

#[test]
fn from_u64_lsb() {
    assert_eq!(Choice::from_u64_lsb(0), choice_false());
    assert_eq!(Choice::from_u64_lsb(1), choice_true());
}

#[test]
fn from_u64_lt() {
    assert_eq!(Choice::from_u64_lt(0, 0), choice_false());
    assert_eq!(Choice::from_u64_lt(1, 0), choice_false());
    assert_eq!(Choice::from_u64_lt(1, 1), choice_false());
    assert_eq!(Choice::from_u64_lt(1, 2), choice_true());
}

#[test]
fn from_u64_nz() {
    assert_eq!(Choice::from_u64_nz(0), choice_false());
    assert_eq!(Choice::from_u64_nz(1), choice_true());
    assert_eq!(Choice::from_u64_nz(2), choice_true());
}

#[test]
fn from_u128_eq() {
    assert_eq!(Choice::from_u128_eq(0, 1), choice_false());
    assert_eq!(Choice::from_u128_eq(1, 1), choice_true());
}

#[test]
fn from_u128_le() {
    assert_eq!(Choice::from_u128_le(0, 0), choice_true());
    assert_eq!(Choice::from_u128_le(1, 0), choice_false());
    assert_eq!(Choice::from_u128_le(1, 1), choice_true());
    assert_eq!(Choice::from_u128_le(1, 2), choice_true());
}

#[test]
fn from_u128_lsb() {
    assert_eq!(Choice::from_u128_lsb(0), choice_false());
    assert_eq!(Choice::from_u128_lsb(1), choice_true());
}

#[test]
fn from_u128_lt() {
    assert_eq!(Choice::from_u128_lt(0, 0), choice_false());
    assert_eq!(Choice::from_u128_lt(1, 0), choice_false());
    assert_eq!(Choice::from_u128_lt(1, 1), choice_false());
    assert_eq!(Choice::from_u128_lt(1, 2), choice_true());
}

#[test]
fn from_u128_nz() {
    assert_eq!(Choice::from_u128_nz(0), choice_false());
    assert_eq!(Choice::from_u128_nz(1), choice_true());
    assert_eq!(Choice::from_u128_nz(2), choice_true());
}

#[test]
fn select_i64() {
    let a: i64 = 1;
    let b: i64 = 2;
    assert_eq!(choice_true().select_i64(a, b), b);
    assert_eq!(choice_false().select_i64(a, b), a);
}

#[test]
fn select_u32() {
    let a: u32 = 1;
    let b: u32 = 2;
    assert_eq!(choice_true().select_u32(a, b), b);
    assert_eq!(choice_false().select_u32(a, b), a);
}

#[test]
fn select_u64() {
    let a: u64 = 1;
    let b: u64 = 2;
    assert_eq!(choice_true().select_u64(a, b), b);
    assert_eq!(choice_false().select_u64(a, b), a);
}

#[test]
fn select_u128() {
    let a: u128 = 1;
    let b: u128 = 2;
    assert_eq!(choice_true().select_u128(a, b), b);
    assert_eq!(choice_false().select_u128(a, b), a);
}

/// Example wrapped value for testing
const VALUE: u8 = 42;

/// Example option which is like `Option::Some`
fn opt_some() -> CtOption<u8> {
    CtOption::new(VALUE, choice_true())
}

/// Example option which is like `Option::None`
fn opt_none() -> CtOption<u8> {
    CtOption::new(VALUE, choice_false())
}

/// Another option containing a different value
fn opt_other() -> CtOption<u8> {
    CtOption::new(VALUE + 1, choice_true())
}

/// Dummy error type
#[derive(Debug, Eq, PartialEq)]
struct Error;

#[test]
fn ct_option_ct_eq() {
    assert!(opt_none().ct_eq(&opt_none()).to_bool());
    assert!(opt_none().ct_ne(&opt_some()).to_bool());
    assert!(opt_some().ct_ne(&opt_none()).to_bool());
    assert!(opt_some().ct_eq(&opt_some()).to_bool());
    assert!(opt_some().ct_ne(&opt_other()).to_bool());
}

#[test]
fn ct_option_ct_select() {
    assert!(opt_none().ct_select(&opt_some(), choice_false()).is_none().to_bool());
    assert!(opt_none().ct_select(&opt_some(), choice_true()).ct_eq(&opt_some()).to_bool());
    assert!(opt_some().ct_select(&opt_none(), choice_false()).ct_eq(&opt_some()).to_bool());
    assert!(opt_some().ct_select(&opt_none(), choice_true()).is_none().to_bool());
}

#[test]
fn default() {
    assert!(opt_none().ct_eq(&CtOption::default()).to_bool());
}

#[test]
fn expect_some() {
    assert_eq!(opt_some().expect("should succeed"), VALUE);
}

#[test]
fn into_option() {
    assert_eq!(opt_some().into_option(), Some(VALUE));
    assert_eq!(opt_none().into_option(), None);
}

#[test]
fn into_option_copied() {
    assert_eq!(opt_some().into_option_copied(), Some(VALUE));
    assert_eq!(opt_none().into_option_copied(), None);
}

#[test]
fn is_some() {
    assert!(opt_some().is_some().to_bool());
    assert!(!opt_none().is_some().to_bool());
}

#[test]
fn is_none() {
    assert!(!opt_some().is_none().to_bool());
    assert!(opt_none().is_none().to_bool());
}

#[test]
fn ct_option_and() {
    assert!(opt_some().and(opt_none()).is_none().to_bool());
    assert_eq!(opt_some().and(opt_other()).unwrap(), opt_other().unwrap());
}

#[test]
fn and_then() {
    assert!(opt_none().and_then(|_| opt_none()).is_none().to_bool());
    assert!(opt_none().and_then(|_| opt_some()).is_none().to_bool());

    let ret = opt_some().and_then(|value| {
        assert_eq!(VALUE, value);
        opt_other()
    });
    assert!(ret.ct_eq(&opt_other()).to_bool());
}

#[test]
fn filter() {
    assert!(opt_none().filter(|_| choice_true()).ct_eq(&opt_none()).to_bool());
    assert!(opt_none().filter(|_| choice_false()).ct_eq(&opt_none()).to_bool());
    assert!(opt_some().filter(|_| choice_false()).ct_eq(&opt_none()).to_bool());

    let ret = opt_some().filter(|&value| {
        assert_eq!(VALUE, value);
        choice_true()
    });
    assert_eq!(ret.unwrap(), VALUE);
}

#[test]
fn filter_by() {
    assert!(opt_none().filter_by(choice_false()).is_none().to_bool());
    assert!(opt_none().filter_by(choice_true()).is_none().to_bool());
    assert!(opt_some().filter_by(choice_false()).ct_eq(&opt_none()).to_bool());
    assert_eq!(opt_some().filter_by(choice_true()).unwrap(), VALUE);
}

#[test]
fn insert() {
    let mut example = opt_none();
    assert!(example.is_none().to_bool());

    let ret = example.insert(42);
    assert_eq!(ret, &42);
    assert!(example.is_some().to_bool());
}

#[test]
fn insert_if() {
    let mut example = opt_none();
    assert!(example.is_none().to_bool());

    example.insert_if(&42, choice_false());
    assert!(example.is_none().to_bool());

    example.insert_if(&42, choice_true());
    assert_eq!(example.unwrap(), 42);
}

#[test]
fn map() {
    assert!(opt_none().map(|value| value + 1).ct_eq(&opt_none()).to_bool());
    assert!(opt_some().map(|value| value + 1).ct_eq(&opt_other()).to_bool());
}

#[test]
fn map_or() {
    let example = 52;
    assert_eq!(opt_none().map_or(example, |value| value + 1), example);
    assert_eq!(opt_some().map_or(example, |value| value + 1), VALUE + 1);
}

#[test]
fn map_or_default() {
    assert_eq!(opt_none().map_or_default(|value| value + 1), Default::default());
    assert_eq!(opt_some().map_or_default(|value| value + 1), VALUE + 1);
}

#[test]
fn ok_or() {
    assert_eq!(opt_none().ok_or(Error), Err(Error));
    assert_eq!(opt_some().ok_or(Error), Ok(VALUE));
}

#[test]
fn ok_or_else() {
    assert_eq!(opt_none().ok_or_else(|| Error), Err(Error));
    assert_eq!(opt_some().ok_or_else(|| Error), Ok(VALUE));
}

#[test]
fn ct_option_or() {
    assert!(opt_none().or(opt_none()).is_none().to_bool());
    assert!(opt_some().or(opt_none()).ct_eq(&opt_some()).to_bool());
    assert!(opt_none().or(opt_some()).ct_eq(&opt_some()).to_bool());
    assert!(opt_some().or(opt_other()).ct_eq(&opt_some()).to_bool());
}

#[test]
fn some() {
    assert!(CtOption::some(VALUE).ct_eq(&opt_some()).to_bool());
}

#[test]
fn unwrap_some() {
    assert_eq!(opt_some().unwrap(), VALUE);
}

#[test]
fn unwrap_or() {
    let example = 52;
    assert_eq!(opt_none().unwrap_or(example), example);
    assert_eq!(opt_some().unwrap_or(example), VALUE);
}

#[test]
fn unwrap_or_default() {
    assert_eq!(opt_none().unwrap_or_default(), Default::default());
    assert_eq!(opt_some().unwrap_or_default(), VALUE);
}

#[test]
fn ct_option_xor() {
    assert!(opt_none().xor(opt_none()).is_none().to_bool());
    assert!(opt_some().xor(opt_none()).ct_eq(&opt_some()).to_bool());
    assert!(opt_none().xor(opt_some()).ct_eq(&opt_some()).to_bool());
    assert!(opt_some().xor(opt_other()).is_none().to_bool());
}

#[test]
fn zip() {
    assert!(opt_none().zip(opt_none()).is_none().to_bool());
    assert!(opt_none().zip(opt_some()).is_none().to_bool());
    assert!(opt_some().zip(opt_none()).is_none().to_bool());
    assert_eq!(opt_some().zip(opt_other()).unwrap(), (opt_some().unwrap(), opt_other().unwrap()));
}

#[test]
fn zip_with() {
    assert!(opt_none().zip_with(opt_none(), |a, b| a + b).is_none().to_bool());
    assert!(opt_none().zip_with(opt_some(), |a, b| a + b).is_none().to_bool());
    assert!(opt_some().zip_with(opt_none(), |a, b| a + b).is_none().to_bool());
    assert_eq!(
        opt_some().zip_with(opt_other(), |a, b| a + b).unwrap(),
        opt_some().unwrap() + opt_other().unwrap()
    );
}

const SLICE_EXAMPLE_A: &[u8] = &[1, 2, 3];

#[test]
fn slice_ct_assign() {
    let mut x = [0u8; 3];

    slice::ct_assign(&mut x, SLICE_EXAMPLE_A, choice_false());
    assert_eq!([0u8; 3], x);

    slice::ct_assign(&mut x, SLICE_EXAMPLE_A, choice_true());
    assert_eq!(SLICE_EXAMPLE_A, x);
}

#[test]
fn slice_ct_eq() {
    let ex_a: &[u8] = &[1, 2, 3];
    let ex_b: &[u8] = &[4, 5, 6];
    assert!(slice::ct_eq(ex_a, ex_a).to_bool());
    assert!(!slice::ct_eq(ex_a, ex_b).to_bool());

    let a: &[u64] = &[1, 2, 3];
    let b: &[u64] = &[1, 2, 3];
    let c: &[u64] = &[1, 2, 4];
    assert!(a.ct_eq(b).to_bool());
    assert!(!a.ct_eq(c).to_bool());
    assert!(!b.ct_eq(c).to_bool());
    assert!(!a.ct_ne(b).to_bool());
    assert!(a.ct_ne(c).to_bool());
    assert!(b.ct_ne(c).to_bool());

    // Length mismatches
    assert!(a.ct_ne(&[]).to_bool());
    assert!(a.ct_ne(&[1, 2]).to_bool());
}

#[test]
fn ordering_ct_eq() {
    let a = Ordering::Greater;
    let b = Ordering::Greater;
    let c = Ordering::Less;
    assert!(ordering::ordering_ct_eq(&a, &b).to_bool());
    assert!(!ordering::ordering_ct_eq(&a, &c).to_bool());
    assert!(!ordering::ordering_ct_eq(&b, &c).to_bool());
    assert!(!ordering::ordering_ct_ne(&a, &b).to_bool());
    assert!(ordering::ordering_ct_ne(&a, &c).to_bool());
    assert!(ordering::ordering_ct_ne(&b, &c).to_bool());
}

const FIND_ARRAY: [u8; 6] = [0, 0, 0, 1, 2, 3];

#[test]
fn ct_find_ct_find() {
    // Find the first nonzero even number
    assert_eq!(FIND_ARRAY.ct_find(|n| n.ct_ne(&0) & (n & 1).ct_eq(&0)).unwrap(), 2);
    // Predicate where nothing matches
    assert!(FIND_ARRAY.ct_find(|n| n.ct_gt(&3)).is_none().to_bool());

    // Find the first nonzero even number
    assert_eq!(FIND_SLICE.ct_find(|n| n.ct_ne(&0) & (n & 1).ct_eq(&0)).unwrap(), 2);

    // Predicate where nothing matches
    assert!(FIND_SLICE.ct_find(|n| n.ct_gt(&3)).is_none().to_bool());
}

#[test]
fn ct_gt_ordering() {
    assert!(!ordering::ordering_ct_gt(&Ordering::Equal, &Ordering::Equal).to_bool());
    assert!(!ordering::ordering_ct_gt(&Ordering::Less, &Ordering::Greater).to_bool());
    assert!(ordering::ordering_ct_gt(&Ordering::Greater, &Ordering::Less).to_bool());
}

const LOOKUP_ARRAY: [u8; 3] = [1, 2, 3];

#[test]
fn ct_lookup_ct_lookup_u32() {
    assert_eq!(LOOKUP_ARRAY.ct_lookup(0u32).unwrap(), 1);
    assert_eq!(LOOKUP_ARRAY.ct_lookup(1u32).unwrap(), 2);
    assert_eq!(LOOKUP_ARRAY.ct_lookup(2u32).unwrap(), 3);
    assert!(LOOKUP_ARRAY.ct_lookup(3u32).is_none().to_bool());
    assert!(LOOKUP_ARRAY.ct_lookup(4u32).is_none().to_bool());

    assert_eq!(LOOKUP_SLICE.ct_lookup(0u32).unwrap(), 1);
    assert_eq!(LOOKUP_SLICE.ct_lookup(1u32).unwrap(), 2);
    assert_eq!(LOOKUP_SLICE.ct_lookup(2u32).unwrap(), 3);
    assert!(LOOKUP_SLICE.ct_lookup(3u32).is_none().to_bool());
    assert!(LOOKUP_SLICE.ct_lookup(4u32).is_none().to_bool());
}

#[test]
fn ct_lookup_ct_lookup_usize() {
    assert_eq!(LOOKUP_ARRAY.ct_lookup(0usize).unwrap(), 1);
    assert_eq!(LOOKUP_ARRAY.ct_lookup(1usize).unwrap(), 2);
    assert_eq!(LOOKUP_ARRAY.ct_lookup(2usize).unwrap(), 3);
    assert!(LOOKUP_ARRAY.ct_lookup(3usize).is_none().to_bool());
    assert!(LOOKUP_ARRAY.ct_lookup(4usize).is_none().to_bool());

    assert_eq!(LOOKUP_SLICE.ct_lookup(0usize).unwrap(), 1);
    assert_eq!(LOOKUP_SLICE.ct_lookup(1usize).unwrap(), 2);
    assert_eq!(LOOKUP_SLICE.ct_lookup(2usize).unwrap(), 3);
    assert!(LOOKUP_SLICE.ct_lookup(3usize).is_none().to_bool());
    assert!(LOOKUP_SLICE.ct_lookup(4usize).is_none().to_bool());
}

#[test]
fn ct_lt() {
    let a = 42u64;
    let b = 43u64;
    assert!(!a.ct_lt(&a).to_bool());
    assert!(a.ct_lt(&b).to_bool());
    assert!(!b.ct_lt(&a).to_bool());
}

#[test]
fn ct_lt_ordering() {
    assert!(!ordering::ordering_ct_lt(&Ordering::Equal, &Ordering::Equal).to_bool());
    assert!(ordering::ordering_ct_lt(&Ordering::Less, &Ordering::Greater).to_bool());
    assert!(!ordering::ordering_ct_lt(&Ordering::Greater, &Ordering::Less).to_bool());
}

#[test]
fn ordering_ct_select() {
    let a = Ordering::Less;
    let b = Ordering::Greater;
    assert_eq!(ordering::ordering_ct_select(&a, &b, choice_false()), a);
    assert_eq!(ordering::ordering_ct_select(&a, &b, choice_true()), b);
}

#[test]
fn integer_ct_eq_extremes() {
    assert!(u8::MAX.ct_eq(&u8::MAX).to_bool());
    assert!(!u8::MAX.ct_eq(&u8::MIN).to_bool());
    assert!(u128::MAX.ct_ne(&u128::MIN).to_bool());
    assert!(i64::MAX.ct_ne(&i64::MIN).to_bool());
    assert!(isize::MIN.ct_eq(&isize::MIN).to_bool());
}

#[test]
fn integer_ct_gt_lt_extremes() {
    assert!(u16::MAX.ct_gt(&u16::MIN).to_bool());
    assert!(!u16::MIN.ct_gt(&u16::MAX).to_bool());
    assert!(usize::MIN.ct_lt(&usize::MAX).to_bool());
    assert!(!u128::MAX.ct_lt(&u128::MAX).to_bool());
}

#[test]
fn integer_ct_assign_and_swap() {
    let mut x = 5u32;
    x.ct_assign(&9, choice_false());
    assert_eq!(x, 5);
    x.ct_assign(&9, choice_true());
    assert_eq!(x, 9);

    let mut a = 1i16;
    let mut b = 2i16;
    a.ct_swap(&mut b, choice_false());
    assert_eq!((a, b), (1, 2));
    a.ct_swap(&mut b, choice_true());
    assert_eq!((a, b), (2, 1));
}

#[test]
fn integer_ct_neg() {
    assert_eq!(5i32.ct_neg(choice_true()), -5);
    assert_eq!(5i32.ct_neg(choice_false()), 5);
    assert_eq!(5u8.ct_neg(choice_true()), 251);
}

#[test]
fn choice_masks() {
    assert_eq!(choice_true().to_u32_mask(), u32::MAX);
    assert_eq!(choice_false().to_u64_mask(), 0);
    assert_eq!(choice_true().to_u128_mask(), u128::MAX);
    assert_eq!(Choice::from_u8_lsb(3), choice_true());
    assert!(choice_true().to_bool_vartime());
    assert_eq!(choice_false().to_u8_vartime(), 0);
}

#[test]
fn choice_operators_and_conversions() {
    let mut c = choice_true();
    c &= choice_false();
    assert!(!c.to_bool());
    c |= choice_true();
    assert!(c.to_bool());
    c ^= choice_true();
    assert!(!c.to_bool());
    assert_eq!(u8::from(choice_true()), 1);
    assert!(!bool::from(choice_false()));
}
