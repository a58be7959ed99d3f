use dryad::page::{page_end, page_offset, page_start};
use dryad::strtab::hash;
use dryad::utils::{digit_to_char_code, format_u64, num_digits, to_decimal, to_hex};

#[test]
fn num_digits_t() {
    assert_eq!(num_digits(0), 1);
    assert_eq!(num_digits(10), 2);
    assert_eq!(num_digits(99), 2);
    assert_eq!(num_digits(999), 3);
}

#[test]
fn t_page_start() {
    assert_eq!(page_start(0x1000), 0x1000)
}

#[test]
fn page_helpers_round_and_offset() {
    assert_eq!(page_start(0x1fff), 0x1000);
    assert_eq!(page_offset(0x1234), 0x234);
    assert_eq!(page_end(0x1001), 0x2000);
    assert_eq!(page_end(0x2000), 0x2000);
    assert_eq!(page_end(0), 0);
}

#[test]
fn num_digits_largest_value() {
    assert_eq!(num_digits(u64::MAX), 20);
    assert_eq!(num_digits(9), 1);
}

#[test]
fn digit_codes() {
    assert_eq!(digit_to_char_code(0), b'0');
    assert_eq!(digit_to_char_code(9), b'9');
    assert_eq!(digit_to_char_code(10), 0);
}

#[test]
fn decimal_and_hex_forms() {
    assert_eq!(to_decimal(0), b"0".to_vec());
    assert_eq!(to_decimal(1234567890), b"1234567890".to_vec());
    assert_eq!(to_decimal(u64::MAX), b"18446744073709551615".to_vec());
    assert_eq!(to_hex(0), b"0".to_vec());
    assert_eq!(to_hex(0xdeadbeef), b"deadbeef".to_vec());
    assert_eq!(to_hex(u64::MAX), b"ffffffffffffffff".to_vec());
    assert_eq!(format_u64(255, true), b"ff".to_vec());
    assert_eq!(format_u64(255, false), b"255".to_vec());
}

#[test]
fn gnu_hash_values() {
    assert_eq!(hash(b""), 0x0000_1505);
    assert_eq!(hash(b"printf"), 0x156b_2bb8);
    assert_eq!(hash(b"exit"), 0x7c96_7e3f);
    assert_eq!(hash(b"syscall"), 0xbac2_12a0);
    assert_eq!(hash(b"flapenguin.me"), 0x8ae9_f18e);
}
