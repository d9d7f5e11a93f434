use std::cmp::Ordering;

use context::{ApInt, BitPos, BitWidth, DigitPos, Kind, WordAlignedBytes};

#[test]
fn test_unsigned_cmp() {
    let a = ApInt::from_u8(!(1 << 7));
    let b = ApInt::from_u8(1 << 7);
    assert_eq!(a.unsigned_cmp(&b), Ok(Ordering::Less));
    let a = ApInt::from_u128(1 << 80);
    let b = ApInt::from_u128(1 << 74);
    assert_eq!(a.unsigned_cmp(&b), Ok(Ordering::Greater));
    let a = ApInt::from_u128(1 << 127);
    let b = ApInt::from_u128(1 << 74);
    assert_eq!(a.unsigned_cmp(&b), Ok(Ordering::Greater));
}

#[test]
fn test_signed_cmp() {
    let a = ApInt::from_u8(!(1 << 7));
    let b = ApInt::from_u8(1 << 7);
    assert_eq!(a.signed_cmp(&b), Ok(Ordering::Greater));
    let a = ApInt::from_u128(1 << 80);
    let b = ApInt::from_u128(1 << 74);
    assert_eq!(a.signed_cmp(&b), Ok(Ordering::Greater));
    let a = ApInt::from_u128(1 << 127);
    let b = ApInt::from_u128(1 << 74);
    assert_eq!(a.signed_cmp(&b), Ok(Ordering::Less));
}

#[test]
fn test_add() {
    let a = ApInt::from_u128(10 | (80 << 64));
    let b = ApInt::from_u128(50 | (30 << 64));
    let c = ApInt::from_u128(60 | (110 << 64));
    assert_eq!(a + &b, c);

    let a = ApInt::from_u128(10 | (1 << 63) | (80 << 64));
    let b = ApInt::from_u128(50 | (1 << 63) | (30 << 64));
    let c = ApInt::from_u128(60 | (111 << 64));
    assert_eq!(a + &b, c);
}

#[test]
fn test_sub() {
    let a = ApInt::from_u128(50 | (80 << 64));
    let b = ApInt::from_u128(10 | (30 << 64));
    let c = ApInt::from_u128(40 | (50 << 64));
    assert_eq!(a - &b, c);

    let a = ApInt::from_u128(10 | (1 << 63) | (80 << 64));
    let b = ApInt::from_u128(50 | (1 << 63) | (30 << 64));
    let c = ApInt::from_u128((10 | (1 << 63) | (80 << 64)) - (50 | (1 << 63) | (30 << 64)));
    assert_eq!(a - &b, c);
}

#[test]
fn test_word_aligned_bytes() {
    let x = WordAlignedBytes::new(102_u128.to_le_bytes());
    assert_eq!(x.words(), [102, 0]);
}

#[test]
fn test_sign_bit() {
    let x = ApInt::from_u8(1 << 7);
    assert!(x.sign_bit());
}

#[test]
fn test_get() {
    let x = ApInt::from_u8(1 << 7);
    assert!(x.get(7));
}

#[test]
fn test_traling_zeros() {
    let x = ApInt::from_u8(1 << 7);
    assert_eq!(x.trailing_zeros(), 7);
    let x = ApInt::from_u128(1 << 64);
    assert_eq!(x.trailing_zeros(), 64);
}

#[test]
fn test_traling_ones() {
    let x = ApInt::from_u8(!(1 << 7));
    assert_eq!(x.trailing_ones(), 7);
    let x = ApInt::from_u128(!(1 << 64));
    assert_eq!(x.trailing_ones(), 64);
}

#[test]
fn test_leading_zeros() {
    let x = ApInt::from_u8(1 << 7);
    assert_eq!(x.leading_zeros(), (1u8 << 7).leading_zeros() as usize);
    let x = ApInt::from_u128(1 << 64);
    assert_eq!(x.leading_zeros(), (1u128 << 64).leading_zeros() as usize);
    let x = ApInt::from_u128(1 << 63);
    assert_eq!(x.leading_zeros(), (1u128 << 63).leading_zeros() as usize);
    let x = ApInt::from_u128(0);
    assert_eq!(x.leading_zeros(), 0u128.leading_zeros() as usize);
}

#[test]
fn test_leading_ones() {
    let x = ApInt::from_u8(!(1 << 7));
    assert_eq!(x.leading_zeros(), (!(1u8 << 7)).leading_zeros() as usize);
    let x = ApInt::from_u128(!(1 << 64));
    assert_eq!(x.leading_zeros(), (!(1u128 << 64)).leading_zeros() as usize);
    let x = ApInt::from_u128(!(1 << 63));
    assert_eq!(x.leading_zeros(), (!(1u128 << 63)).leading_zeros() as usize);
    let x = ApInt::from_u128(!0);
    assert_eq!(x.leading_zeros(), u128::MAX.leading_zeros() as usize);
}

#[test]
fn leading_ones_counts_from_the_top() {
    let x = ApInt::from_u8(0b1110_0000);
    assert_eq!(x.leading_ones(), 3);
    let x = ApInt::from_u128(!0 << 70);
    assert_eq!(x.leading_ones(), 58);
    let x = ApInt::from_u128(!0);
    assert_eq!(x.leading_ones(), 128);
}

#[test]
fn counts_ignore_bits_above_the_width() {
    let x = ApInt::from_i8(-1);
    assert_eq!(x.count_ones(), 8);
    assert_eq!(x.count_zeros(), 0);
    assert!(x.is_all_set());
    let y = ApInt::from_u8(0b1010);
    assert_eq!(y.count_ones(), 2);
    assert_eq!(y.count_zeros(), 6);
}

#[test]
fn add_reports_overflow_at_the_width() {
    let mut a = ApInt::from_u8(200);
    let b = ApInt::from_u8(100);
    assert_eq!(a.add_assign(&b), Ok(true));
    assert_eq!(a, ApInt::from_u8(44));
    let mut c = ApInt::from_u8(1);
    assert_eq!(c.add_assign(&b), Ok(false));
    assert_eq!(c, ApInt::from_u8(101));
}

#[test]
fn sub_reports_borrow() {
    let mut a = ApInt::from_u8(5);
    assert_eq!(a.sub_assign(&ApInt::from_u8(7)), Ok(true));
    assert_eq!(a, ApInt::from_u8(254));
}

#[test]
fn mismatched_widths_are_rejected() {
    let mut a = ApInt::from_u8(5);
    let b = ApInt::from_u16(5);
    assert!(a.unsigned_cmp(&b).is_err());
    assert!(a.signed_cmp(&b).is_err());
    assert!(a.add_assign(&b).is_err());
    assert!(a.sub_assign(&b).is_err());
    assert!(ApInt::from_u8(1).into_add(&b).is_err());
}

#[test]
fn negate_is_twos_complement() {
    let mut a = ApInt::from_u8(1);
    a.negate();
    assert_eq!(a, ApInt::from_u8(255));
    let mut z = ApInt::from_u128(0);
    z.negate();
    assert!(z.is_all_unset());
    let mut b = ApInt::from_u128(1 << 64);
    b.negate();
    assert_eq!(b, ApInt::from_u128((1u128 << 64).wrapping_neg()));
}

#[test]
fn add_unsigned_word_carries_across_words() {
    let mut a = ApInt::from_u128(u64::MAX as u128);
    a.add_unsigned_word(1);
    assert_eq!(a, ApInt::from_u128(1 << 64));
    let mut b = ApInt::from_u8(250);
    b.add_unsigned_word(10);
    assert_eq!(b, ApInt::from_u8(4));
}

#[test]
fn bit_updates() {
    let mut a = ApInt::all_unset(BitWidth::new(100));
    a.set_bit_at(99);
    assert!(a.get(99));
    assert!(a.sign_bit());
    assert_eq!(a.leading_zeros(), 0);
    assert_eq!(a.trailing_zeros(), 99);
    a.flip_bit_at(3);
    assert_eq!(a.count_ones(), 2);
    a.unset_bit_at(99);
    assert!(!a.sign_bit());
    a.flip_sign_bit();
    assert!(a.sign_bit());
    a.unset_sign_bit();
    a.set_sign_bit();
    assert!(a.get(99));
    a.flip_all();
    assert_eq!(a.count_ones(), 98);
    a.unset_all();
    assert!(a.is_all_unset());
    a.set_all();
    assert!(a.is_all_set());
    assert_eq!(a.count_ones(), 100);
    assert_eq!(a.trailing_ones(), 100);
    assert_eq!(a.leading_ones(), 100);
}

#[test]
fn signed_constructors_wrap_into_the_width() {
    assert_eq!(ApInt::from_i8(-2), ApInt::from_u8(254));
    assert_eq!(ApInt::from_i16(-1), ApInt::from_u16(0xffff));
    assert_eq!(ApInt::from_i32(-1), ApInt::from_u32(u32::MAX));
    assert_eq!(ApInt::from_i64(-1), ApInt::from_u64(u64::MAX));
    assert_eq!(ApInt::from_i128(-1), ApInt::from_u128(u128::MAX));
    assert_eq!(ApInt::from_isize(-1), ApInt::from_usize(usize::MAX));
    assert_eq!(ApInt::from_bool(true).bit_width(), BitWidth::new(1));
    assert_eq!(ApInt::from_i8(-128).signed_cmp(&ApInt::from_i8(127)), Ok(Ordering::Less));
}

#[test]
fn bit_width_shape() {
    assert_eq!(BitWidth::new(0).words(), 0);
    assert_eq!(BitWidth::new(64).words(), 1);
    assert_eq!(BitWidth::new(65).words(), 2);
    assert_eq!(BitWidth::new(65).excess_bits(), 1);
    assert_eq!(BitWidth::new(128).excess_bits(), 64);
    assert_eq!(BitWidth::new(3).excess_bits_mask(), 0b111);
    assert_eq!(BitWidth::new(64).excess_bits_mask(), u64::MAX);
    assert_eq!(BitWidth::new(0).sign_bit(), None);
    assert_eq!(BitWidth::new(9).sign_bit(), Some(8));
    assert_eq!(ApInt::zero_sized().words().len(), 0);
}

#[test]
fn bit_width_kinds() {
    assert_eq!(BitWidth::new(0).kind(), Kind::Zero);
    assert_eq!(BitWidth::new(1).kind(), Kind::Inline);
    assert_eq!(BitWidth::new(64).kind(), Kind::Inline);
    assert_eq!(BitWidth::new(65).kind(), Kind::Outline);
    assert_eq!(ApInt::from_u128(5).bit_width().kind(), Kind::Outline);
}

#[test]
fn bit_positions() {
    let p = BitPos::of_pos(70);
    assert_eq!(p.mask(), 1 << 6);
    assert_eq!(DigitPos::of_pos(70), 1);
    assert!(p.get(0b100_0000));
    assert_eq!(p.set(0), 0b100_0000);
    assert_eq!(p.unset(u64::MAX), !0b100_0000);
    assert_eq!(p.flip(0b100_0001), 1);
}
