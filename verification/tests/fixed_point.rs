use sim::arith::divide_i16;
use sim::arith::divide_i32;
use sim::arith::rounded_quotient;
use sim::arith::Rounding;
use sim::q12p4::Q12p4;
use sim::q16p16::Q16p16;
use sim::q24p4::Q24p4;

#[test]
fn q12p4_constants() {
    assert_eq!(Q12p4::zero(), Q12p4(0));
    assert_eq!(Q12p4::half(), Q12p4(8));
    assert_eq!(Q12p4::one(), Q12p4(16));
    assert_eq!(Q12p4::two(), Q12p4(32));
    assert_eq!(Q12p4::one() + Q12p4::one(), Q12p4::two());
    assert_eq!(Q12p4::half() + Q12p4::half(), Q12p4::one());
}

#[test]
fn q12p4_signs() {
    assert!(Q12p4(1).is_positive());
    assert!(!Q12p4(0).is_positive());
    assert!(!Q12p4(-1).is_positive());
    assert!(Q12p4(0).is_zero());
    assert!(!Q12p4(1).is_zero());
    assert!(Q12p4(-1).is_negative());
    assert!(!Q12p4(0).is_negative());
    assert!(!Q12p4(1).is_negative());
}

#[test]
fn q12p4_truncate_round_trip() {
    let mut n: i16 = -2047;
    while n < 2048 {
        assert_eq!(Q12p4(n << 4).truncate(), n);
        n += 1;
    }
}

#[test]
fn q12p4_truncate_rounds_down() {
    assert_eq!(Q12p4(0x0949).truncate(), 148);
    assert_eq!(Q12p4(15).truncate(), 0);
    assert_eq!(Q12p4(-1).truncate(), -1);
    assert_eq!(Q12p4(-16).truncate(), -1);
    assert_eq!(Q12p4(-17).truncate(), -2);
    assert_eq!(Q12p4(i16::MIN).truncate(), -2048);
    assert_eq!(Q12p4(i16::MAX).truncate(), 2047);
}

#[test]
fn q12p4_add_sub_neg_shift() {
    assert_eq!(Q12p4(24) + Q12p4(-40), Q12p4(-16));
    assert_eq!(Q12p4(24) - Q12p4(40), Q12p4(-16));
    assert_eq!(-Q12p4(24), Q12p4(-24));
    assert_eq!(Q12p4(-3) << 1, Q12p4(-6));
    assert_eq!(Q12p4(5) << 4, Q12p4(80));
    assert_eq!(Q12p4(0x4001) << 2, Q12p4(4));
    let mut v = Q12p4(7);
    v += Q12p4(9);
    assert_eq!(v, Q12p4(16));
}

#[test]
fn q12p4_order() {
    assert!(Q12p4(-1) < Q12p4(0));
    assert!(Q12p4(17) > Q12p4(16));
    assert!(Q12p4(16) <= Q12p4(16));
    assert_eq!(Q12p4(3).min(Q12p4(-3)), Q12p4(-3));
}

#[test]
fn q12p4_product_rounds_down_to_a_sixteenth() {
    assert_eq!(Q12p4(24) * Q12p4(40), Q24p4(60));
    assert_eq!(Q12p4(16) * Q12p4(16), Q24p4(16));
    assert_eq!(Q12p4(1) * Q12p4(1), Q24p4(0));
    assert_eq!(Q12p4(-1) * Q12p4(1), Q24p4(-1));
    assert_eq!(Q12p4(-5) * Q12p4(8), Q24p4(-3));
    assert_eq!(Q12p4(i16::MIN) * Q12p4(i16::MIN), Q24p4(0x0400_0000));
    assert_eq!(Q12p4(i16::MIN) * Q12p4(i16::MAX), Q24p4(-67106816));
}

#[test]
fn q24p4_constants_and_signs() {
    assert_eq!(Q24p4::zero(), Q24p4(0));
    assert_eq!(Q24p4::one(), Q24p4(16));
    assert_eq!(Q24p4::two(), Q24p4(32));
    assert!(Q24p4(5).is_positive());
    assert!(!Q24p4(0).is_positive());
    assert!(Q24p4(0).is_zero());
    assert!(!Q24p4(-5).is_zero());
    assert!(Q24p4(-5).is_negative());
    assert!(!Q24p4(5).is_negative());
}

#[test]
fn q24p4_add_sub_neg() {
    assert_eq!(Q24p4(100_000) + Q12p4(-32768), Q24p4(67_232));
    assert_eq!(Q24p4(100_000) + Q24p4(-200_000), Q24p4(-100_000));
    assert_eq!(Q24p4(100_000) - Q24p4(200_000), Q24p4(-100_000));
    assert_eq!(-Q24p4(100_000), Q24p4(-100_000));
    let mut v = Q24p4(70_000);
    v += Q12p4(-7);
    assert_eq!(v, Q24p4(69_993));
}

#[test]
fn q24p4_from_q12p4_sign_extends() {
    assert_eq!(Q24p4::from(Q12p4(-1)), Q24p4(-1));
    assert_eq!(Q24p4::from(Q12p4(i16::MIN)), Q24p4(-32768));
    assert_eq!(Q24p4::from(Q12p4(i16::MAX)), Q24p4(32767));
}

#[test]
fn q24p4_product_widens_and_saturates() {
    assert_eq!(Q24p4(32) * Q24p4(48), Q24p4(96));
    assert_eq!(Q24p4(-5) * Q24p4(8), Q24p4(-3));
    assert_eq!(Q24p4(0x10_0000) * Q24p4(0x1000), Q24p4(0x1000_0000));
    assert_eq!(Q24p4(0x10_0000) * Q24p4(0x10_0000), Q24p4(i32::MAX));
    assert_eq!(Q24p4(0x10_0000) * Q24p4(-0x10_0000), Q24p4(i32::MIN));
    assert_eq!(Q24p4(i32::MIN) * Q24p4(16), Q24p4(i32::MIN));
    assert_eq!(Q24p4(i32::MIN) * Q24p4(-16), Q24p4(i32::MAX));
}

#[test]
fn q24p4_quotient_rounds_toward_zero() {
    assert_eq!(Q24p4(96) / Q24p4(32), Q24p4(48));
    assert_eq!(Q24p4(16) / Q24p4(48), Q24p4(5));
    assert_eq!(Q24p4(-16) / Q24p4(48), Q24p4(-5));
    assert_eq!(Q24p4(16) / Q24p4(-48), Q24p4(-5));
    assert_eq!(Q24p4(-16) / Q24p4(-48), Q24p4(5));
    assert_eq!(Q24p4(i32::MAX) / Q24p4(1), Q24p4(i32::MAX));
    assert_eq!(Q24p4(i32::MIN) / Q24p4(1), Q24p4(i32::MIN));
}

#[test]
fn q24p4_quotient_by_zero_goes_to_the_rail() {
    assert_eq!(Q24p4(1) / Q24p4(0), Q24p4(i32::MAX));
    assert_eq!(Q24p4(-1) / Q24p4(0), Q24p4(i32::MIN));
    assert_eq!(Q24p4(0) / Q24p4(0), Q24p4(0));
}

#[test]
fn q16p16_one() {
    assert_eq!(Q16p16::one(), Q16p16(256));
}

#[test]
fn div_q24p4_rounds_to_nearest() {
    assert_eq!(Q16p16::div_q24p4(Q24p4(16), Q24p4(16)), Q16p16(256));
    assert_eq!(Q16p16::div_q24p4(Q24p4(8), Q24p4(16)), Q16p16(128));
    assert_eq!(Q16p16::div_q24p4(Q24p4(1), Q24p4(3)), Q16p16(85));
    assert_eq!(Q16p16::div_q24p4(Q24p4(2), Q24p4(3)), Q16p16(171));
    assert_eq!(Q16p16::div_q24p4(Q24p4(-2), Q24p4(3)), Q16p16(-171));
    assert_eq!(Q16p16::div_q24p4(Q24p4(2), Q24p4(-3)), Q16p16(-171));
    assert_eq!(Q16p16::div_q24p4(Q24p4(-2), Q24p4(-3)), Q16p16(171));
    assert_eq!(Q16p16::div_q24p4(Q24p4(-1880326), Q24p4(-1880326)), Q16p16(256));
    assert_eq!(Q16p16::div_q24p4(Q24p4(0), Q24p4(-1880326)), Q16p16(0));
}

#[test]
fn div_q24p4_rounds_halves_away_from_zero() {
    assert_eq!(Q16p16::div_q24p4(Q24p4(1), Q24p4(512)), Q16p16(1));
    assert_eq!(Q16p16::div_q24p4(Q24p4(-1), Q24p4(512)), Q16p16(-1));
    assert_eq!(Q16p16::div_q24p4(Q24p4(3), Q24p4(512)), Q16p16(2));
    assert_eq!(Q16p16::div_q24p4(Q24p4(1), Q24p4(513)), Q16p16(0));
    assert_eq!(Q16p16::div_q24p4(Q24p4(1), Q24p4(511)), Q16p16(1));
}

#[test]
fn div_q24p4_saturates() {
    assert_eq!(Q16p16::div_q24p4(Q24p4(128), Q24p4(1)), Q16p16(i16::MAX));
    assert_eq!(Q16p16::div_q24p4(Q24p4(-129), Q24p4(1)), Q16p16(i16::MIN));
    assert_eq!(Q16p16::div_q24p4(Q24p4(-128), Q24p4(1)), Q16p16(i16::MIN));
    assert_eq!(Q16p16::div_q24p4(Q24p4(i32::MAX), Q24p4(1)), Q16p16(i16::MAX));
    assert_eq!(Q16p16::div_q24p4(Q24p4(i32::MIN), Q24p4(-1)), Q16p16(i16::MAX));
    assert_eq!(Q16p16::div_q24p4(Q24p4(i32::MIN), Q24p4(i32::MIN)), Q16p16(256));
}

#[test]
fn div_q24p4_by_zero_goes_to_the_rail() {
    assert_eq!(Q16p16::div_q24p4(Q24p4(5), Q24p4(0)), Q16p16(i16::MAX));
    assert_eq!(Q16p16::div_q24p4(Q24p4(-5), Q24p4(0)), Q16p16(i16::MIN));
    assert_eq!(Q16p16::div_q24p4(Q24p4(0), Q24p4(0)), Q16p16(0));
}

#[test]
fn q16p16_conversions_shift_left_by_four() {
    assert_eq!(Q16p16::from(Q12p4(16)), Q16p16(256));
    assert_eq!(Q16p16::from(Q12p4(-24)), Q16p16(-384));
    assert_eq!(Q16p16::from(Q12p4(0x0801)), Q16p16(-32752));
    assert_eq!(Q16p16::from(Q24p4(16)), Q16p16(256));
    assert_eq!(Q16p16::from(Q24p4(-24)), Q16p16(-384));
    assert_eq!(Q16p16::from(Q24p4(2047)), Q16p16(32752));
    assert_eq!(Q16p16::from(Q24p4(0x1_0010)), Q16p16(256));
}

#[test]
fn q16p16_sums() {
    assert_eq!(Q16p16(128) + Q16p16(128), Q16p16(256));
    assert_eq!(Q16p16(128).wrapping_add(Q16p16(-384)), Q16p16(-256));
    assert_eq!(Q16p16(i16::MAX).wrapping_add(Q16p16(1)), Q16p16(i16::MIN));
    assert_eq!(Q16p16(i16::MIN).wrapping_add(Q16p16(-1)), Q16p16(i16::MAX));
}

#[test]
fn q16p16_product_rounds_down_and_wraps() {
    assert_eq!(Q16p16(256) * Q16p16(256), Q16p16(256));
    assert_eq!(Q16p16(128) * Q16p16(128), Q16p16(64));
    assert_eq!(Q16p16(255) * Q16p16(64), Q16p16(63));
    assert_eq!(Q16p16(-1) * Q16p16(1), Q16p16(-1));
    assert_eq!(Q16p16(-255) * Q16p16(64), Q16p16(-64));
    assert_eq!(Q16p16(i16::MAX) * Q16p16(512), Q16p16(-2));
    assert_eq!(Q16p16(i16::MIN) * Q16p16(i16::MIN), Q16p16(0));
}

#[test]
fn q16p16_quotients_round_toward_zero() {
    assert_eq!(Q16p16(256) / Q16p16(256), Q16p16(256));
    assert_eq!(Q16p16(256) / Q16p16(255), Q16p16(257));
    assert_eq!(Q16p16(256) / Q16p16(257), Q16p16(255));
    assert_eq!(Q16p16(256) / Q16p16(160), Q16p16(409));
    assert_eq!(Q16p16(256) / Q16p16(-160), Q16p16(-409));
    assert_eq!(Q16p16(256) / Q16p16(64), Q16p16(1024));
    assert_eq!(Q16p16(256) / Q16p16(1), Q16p16(i16::MAX));
    assert_eq!(Q16p16(-256) / Q16p16(1), Q16p16(i16::MIN));
    assert_eq!(Q16p16(256) / Q16p16(0), Q16p16(i16::MAX));
    assert_eq!(Q16p16(-256) / Q16p16(0), Q16p16(i16::MIN));
    assert_eq!(Q16p16(0) / Q16p16(0), Q16p16(0));
}

#[test]
fn q16p16_reciprocal_of_a_depth() {
    assert_eq!(Q16p16::one() / Q12p4::one(), Q16p16(256));
    assert_eq!(Q16p16::one() / Q12p4::two(), Q16p16(128));
    assert_eq!(Q16p16::one() / Q12p4(64), Q16p16(64));
    assert_eq!(Q16p16::one() / Q12p4(48), Q16p16(85));
    assert_eq!(Q16p16::one() / Q12p4(-48), Q16p16(-85));
    assert_eq!(Q16p16::one() / Q12p4(1), Q16p16(4096));
    assert_eq!(Q16p16::one() / Q12p4(0), Q16p16(i16::MAX));
    assert_eq!(Q16p16::one() / Q24p4(16), Q16p16(256));
    assert_eq!(Q16p16::one() / Q24p4(48), Q16p16(85));
    assert_eq!(Q16p16(-256) / Q24p4(0), Q16p16(i16::MIN));
}

#[test]
fn rounded_quotient_in_both_modes() {
    assert_eq!(rounded_quotient(7, 2, Rounding::TowardZero), 3);
    assert_eq!(rounded_quotient(-7, 2, Rounding::TowardZero), -3);
    assert_eq!(rounded_quotient(7, 2, Rounding::Nearest), 4);
    assert_eq!(rounded_quotient(-7, 2, Rounding::Nearest), -4);
    assert_eq!(rounded_quotient(7, -3, Rounding::Nearest), -2);
    assert_eq!(rounded_quotient(8, 3, Rounding::Nearest), 3);
    assert_eq!(rounded_quotient(0, -3, Rounding::Nearest), 0);
    assert_eq!(rounded_quotient(i64::MIN, -1, Rounding::TowardZero), 9223372036854775808);
    assert_eq!(rounded_quotient(i64::MIN, 1, Rounding::Nearest), -9223372036854775808);
    assert_eq!(rounded_quotient(i64::MAX, i64::MIN, Rounding::Nearest), -1);
    assert_eq!(rounded_quotient(i64::MAX, i64::MIN, Rounding::TowardZero), 0);
}

#[test]
fn divide_holds_to_the_bounds() {
    assert_eq!(divide_i16(100, 3, Rounding::TowardZero), 33);
    assert_eq!(divide_i16(100, 3, Rounding::Nearest), 33);
    assert_eq!(divide_i16(101, 3, Rounding::Nearest), 34);
    assert_eq!(divide_i16(32768, 1, Rounding::Nearest), i16::MAX);
    assert_eq!(divide_i16(-32769, 1, Rounding::Nearest), i16::MIN);
    assert_eq!(divide_i16(-32768, 1, Rounding::Nearest), i16::MIN);
    assert_eq!(divide_i16(i64::MIN, -1, Rounding::TowardZero), i16::MAX);
    assert_eq!(divide_i32(1 << 40, 3, Rounding::TowardZero), i32::MAX);
    assert_eq!(divide_i32(-(1 << 40), 3, Rounding::TowardZero), i32::MIN);
    assert_eq!(divide_i32(1 << 20, 3, Rounding::TowardZero), 349525);
    assert_eq!(divide_i32(1 << 20, 3, Rounding::Nearest), 349525);
    assert_eq!(divide_i32(5, 0, Rounding::Nearest), i32::MAX);
    assert_eq!(divide_i32(-5, 0, Rounding::Nearest), i32::MIN);
    assert_eq!(divide_i32(0, 0, Rounding::Nearest), 0);
}
