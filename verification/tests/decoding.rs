use frnsc_taskbar::common::{decode_hex_process, DecodeError};

#[test]
fn decodes_most_significant_digit_first() {
    assert_eq!(decode_hex_process("00000f9c"), Ok(3996));
    assert_eq!(decode_hex_process("f9c"), Ok(3996));
    assert_eq!(decode_hex_process("10"), Ok(16));
    assert_eq!(decode_hex_process("01"), Ok(1));
    assert_eq!(decode_hex_process("12345678"), Ok(0x12345678));
    assert_eq!(decode_hex_process("9abcdef0"), Ok(0x9abcdef0));
}

#[test]
fn decodes_both_cases() {
    assert_eq!(decode_hex_process("ABCDEF"), Ok(0xABCDEF));
    assert_eq!(decode_hex_process("abcdef"), Ok(0xABCDEF));
    assert_eq!(decode_hex_process("aBcDeF"), Ok(0xABCDEF));
}

#[test]
fn decodes_the_limits() {
    assert_eq!(decode_hex_process(""), Ok(0));
    assert_eq!(decode_hex_process("0"), Ok(0));
    assert_eq!(decode_hex_process("00000000"), Ok(0));
    assert_eq!(decode_hex_process("ffffffff"), Ok(u32::MAX));
    assert_eq!(decode_hex_process("FFFFFFFF"), Ok(4294967295));
}

#[test]
fn leading_zeros_take_a_place_and_add_nothing() {
    assert_eq!(decode_hex_process("0000000000000f9c"), Ok(3996));
    assert_eq!(decode_hex_process("000ffffffff"), Ok(u32::MAX));
    assert_eq!(decode_hex_process("f0"), Ok(240));
    assert_eq!(decode_hex_process("f00"), Ok(3840));
}

#[test]
fn refuses_what_is_no_hexadecimal_digit() {
    assert_eq!(decode_hex_process("zzzz"), Err(DecodeError::InvalidDigit));
    assert_eq!(decode_hex_process("0000000g"), Err(DecodeError::InvalidDigit));
    assert_eq!(decode_hex_process("g0000000"), Err(DecodeError::InvalidDigit));
    assert_eq!(decode_hex_process("+1"), Err(DecodeError::InvalidDigit));
    assert_eq!(decode_hex_process("-1"), Err(DecodeError::InvalidDigit));
    assert_eq!(decode_hex_process(" 1"), Err(DecodeError::InvalidDigit));
    assert_eq!(decode_hex_process("0x10"), Err(DecodeError::InvalidDigit));
    assert_eq!(decode_hex_process("é"), Err(DecodeError::InvalidDigit));
    assert_eq!(decode_hex_process("１"), Err(DecodeError::InvalidDigit));
    assert_eq!(decode_hex_process("/"), Err(DecodeError::InvalidDigit));
    assert_eq!(decode_hex_process(":"), Err(DecodeError::InvalidDigit));
    assert_eq!(decode_hex_process("@"), Err(DecodeError::InvalidDigit));
    assert_eq!(decode_hex_process("G"), Err(DecodeError::InvalidDigit));
    assert_eq!(decode_hex_process("`"), Err(DecodeError::InvalidDigit));
}

#[test]
fn refuses_more_than_32_bits() {
    assert_eq!(decode_hex_process("100000000"), Err(DecodeError::Overflow));
    assert_eq!(decode_hex_process("fffffffff"), Err(DecodeError::Overflow));
    assert_eq!(decode_hex_process("10000000000000000"), Err(DecodeError::Overflow));
}

#[test]
fn invalid_digit_is_told_before_overflow() {
    assert_eq!(decode_hex_process("z100000000"), Err(DecodeError::InvalidDigit));
    assert_eq!(decode_hex_process("1000000000z"), Err(DecodeError::InvalidDigit));
}
