use sbootil::numbers::{parse_device_id, parse_id, parse_u64, ParseError};

#[test]
fn hex_ids() {
    assert_eq!(parse_id("04e8"), Ok(0x04e8));
    assert_eq!(parse_id("FFFF"), Ok(0xffff));
    assert_eq!(parse_id("+a"), Ok(0xa));
    assert_eq!(parse_id("10000"), Err(ParseError::InvalidNumber));
    assert_eq!(parse_id(""), Err(ParseError::InvalidNumber));
    assert_eq!(parse_id("+"), Err(ParseError::InvalidNumber));
    assert_eq!(parse_id("0x04e8"), Err(ParseError::InvalidNumber));
    assert_eq!(parse_id("g1"), Err(ParseError::InvalidNumber));
    assert_eq!(parse_id("-1"), Err(ParseError::InvalidNumber));
}

#[test]
fn addresses_in_hex_or_decimal() {
    assert_eq!(parse_u64("0x1000"), Ok(0x1000));
    assert_eq!(parse_u64("0X1010"), Ok(0x1010));
    assert_eq!(parse_u64("4096"), Ok(4096));
    assert_eq!(parse_u64("0"), Ok(0));
    assert_eq!(parse_u64("0xffffffffffffffff"), Ok(u64::MAX));
    assert_eq!(parse_u64("18446744073709551616"), Err(ParseError::InvalidNumber));
    assert_eq!(parse_u64("0x"), Err(ParseError::InvalidNumber));
    assert_eq!(parse_u64("1000h"), Err(ParseError::InvalidNumber));
    assert_eq!(parse_u64("ff"), Err(ParseError::InvalidNumber));
    assert_eq!(parse_u64(""), Err(ParseError::InvalidNumber));
}

#[test]
fn vendor_and_device_ids() {
    assert_eq!(parse_device_id("04e8:685d"), Ok((0x04e8, 0x685d)));
    assert_eq!(parse_device_id("04e8:685d:extra"), Ok((0x04e8, 0x685d)));
    assert_eq!(parse_device_id("04e8"), Err(ParseError::MissingDeviceId));
    assert_eq!(parse_device_id("zz:685d"), Err(ParseError::InvalidVendorId));
    assert_eq!(parse_device_id("04e8:"), Err(ParseError::InvalidDeviceId));
    assert_eq!(parse_device_id("04e8:12345"), Err(ParseError::InvalidDeviceId));
}
