use rust_basics::basics::{add_3_bits_bool, add_3_bits_u8, bitwise_table, factorial_iter};

#[test]
fn factorial_of_ten() {
    assert_eq!(factorial_iter(10), 3628800);
}

#[test]
fn factorial_of_zero_is_zero() {
    assert_eq!(factorial_iter(0), 0);
}

#[test]
fn factorial_small_values() {
    assert_eq!(factorial_iter(1), 1);
    assert_eq!(factorial_iter(2), 2);
    assert_eq!(factorial_iter(5), 120);
}

#[test]
fn factorial_largest_that_fits() {
    assert_eq!(factorial_iter(20), 2432902008176640000);
}

#[test]
fn add_bits_bool_all_cases() {
    assert_eq!(add_3_bits_bool(false, false, false), (false, false));
    assert_eq!(add_3_bits_bool(false, false, true), (false, true));
    assert_eq!(add_3_bits_bool(false, true, false), (false, true));
    assert_eq!(add_3_bits_bool(true, false, false), (false, true));
    assert_eq!(add_3_bits_bool(true, true, false), (true, false));
    assert_eq!(add_3_bits_bool(true, false, true), (true, false));
    assert_eq!(add_3_bits_bool(false, true, true), (true, false));
    assert_eq!(add_3_bits_bool(true, true, true), (true, true));
}

#[test]
fn add_bits_u8_cases() {
    assert_eq!(add_3_bits_u8(0, 0, 0), (0, 0));
    assert_eq!(add_3_bits_u8(0, 0, 1), (0, 1));
    assert_eq!(add_3_bits_u8(1, 0, 1), (1, 0));
    assert_eq!(add_3_bits_u8(1, 1, 1), (1, 1));
    assert_eq!(add_3_bits_u8(3, 0, 0), (1, 1));
}

#[test]
fn bitwise_table_of_sample_byte() {
    let t = bitwise_table(0b1010_0101, 0b1111_0000);
    assert_eq!(t.value, 0b1010_0101);
    assert_eq!(t.not, 0b0101_1010);
    assert_eq!(t.or, 0b1111_0101);
    assert_eq!(t.and, 0b1010_0000);
    assert_eq!(t.xor, 0b0101_0101);
    assert_eq!(t.shl2, 0b1001_0100);
    assert_eq!(t.shr3, 0b0001_0100);
}
