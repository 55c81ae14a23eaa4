//! Numbers as the operator writes them: hexadecimal USB ids and memory
//! addresses in hexadecimal (`0x` prefix) or decimal.
use vstd::prelude::*;

verus! {

/// The value of `c` as a digit of `radix`, if it is one: `0`-`9`, then the
/// letters of either case from ten on.
pub open spec fn digit_of(c: char, radix: nat) -> Option<nat> {
    let v: int = if '0' <= c && c <= '9' {
        c as int - '0' as int
    } else if 'a' <= c && c <= 'z' {
        c as int - 'a' as int + 10
    } else if 'A' <= c && c <= 'Z' {
        c as int - 'A' as int + 10
    } else {
        radix as int
    };
    if v < radix {
        Some(v as nat)
    } else {
        None
    }
}

/// The value of a string of digits of `radix` (zero for no digits), if every
/// character is such a digit.
pub open spec fn digits_value(s: Seq<char>, radix: nat) -> Option<nat>
    decreases s.len(),
{
    if s.len() == 0 {
        Some(0)
    } else {
        match (digits_value(s.drop_last(), radix), digit_of(s.last(), radix)) {
            (Some(v), Some(d)) => Some(v * radix + d),
            _ => None,
        }
    }
}

/// The value of an optional `+` followed by one or more digits of `radix`.
pub open spec fn radix_value(s: Seq<char>, radix: nat) -> Option<nat> {
    let digits = if s.len() > 0 && s[0] == '+' {
        s.skip(1)
    } else {
        s
    };
    if digits.len() == 0 {
        None
    } else {
        digits_value(digits, radix)
    }
}

/// `radix_value` of `s`, where it fits in `max`.
pub open spec fn bounded_value(s: Seq<char>, radix: nat, max: nat) -> Option<nat> {
    match radix_value(s, radix) {
        Some(v) => if v <= max {
            Some(v)
        } else {
            None
        },
        None => None,
    }
}

/// Relies on `u16::from_str_radix`: it accepts an optional `+` and then one or
/// more digits of the radix, nothing else, whose value fits in a `u16`.
#[verifier::external_body]
fn u16_from_radix(s: &str, radix: u32) -> (r: Option<u16>)
    requires
        2 <= radix <= 36,
    ensures
        r == match bounded_value(s@, radix as nat, 0xffff) {
            Some(v) => Some(v as u16),
            None => None,
        },
{
    u16::from_str_radix(s, radix).ok()
}

/// Relies on `u64::from_str_radix`: it accepts an optional `+` and then one or
/// more digits of the radix, nothing else, whose value fits in a `u64`.
#[verifier::external_body]
fn u64_from_radix(s: &str, radix: u32) -> (r: Option<u64>)
    requires
        2 <= radix <= 36,
    ensures
        r == match bounded_value(s@, radix as nat, 0xffff_ffff_ffff_ffff) {
            Some(v) => Some(v as u64),
            None => None,
        },
{
    u64::from_str_radix(s, radix).ok()
}

/// Why a number or an id could not be read.
#[derive(Debug, Clone, Copy, PartialEq, Eq, Structural)]
pub enum ParseError {
    /// The text is not a number of the expected form, or it is too large.
    InvalidNumber,
    /// A `vendor:device` pair has no `:`.
    MissingDeviceId,
    /// The vendor part of a `vendor:device` pair is not a 16-bit hex number.
    InvalidVendorId,
    /// The device part of a `vendor:device` pair is not a 16-bit hex number.
    InvalidDeviceId,
}

/// The value of `s` read as a 16-bit hexadecimal id.
pub open spec fn hex_id_value(s: Seq<char>) -> Option<nat> {
    bounded_value(s, 16, 0xffff)
}

/// Reads a 16-bit id written in hexadecimal, without prefix.
pub fn parse_id(string: &str) -> (r: Result<u16, ParseError>)
    ensures
        r == match hex_id_value(string@) {
            Some(v) => Ok(v as u16),
            None => Err(ParseError::InvalidNumber),
        },
{
    match u16_from_radix(string, 16) {
        Some(v) => Ok(v),
        None => Err(ParseError::InvalidNumber),
    }
}

/// `s` starts with `0x` or `0X`.
pub open spec fn has_hex_prefix(s: Seq<char>) -> bool {
    s.len() >= 2 && s[0] == '0' && (s[1] == 'x' || s[1] == 'X')
}

/// The value of an address: hexadecimal after a `0x` or `0X` prefix, else
/// decimal.
pub open spec fn address_value(s: Seq<char>) -> Option<nat> {
    if has_hex_prefix(s) {
        bounded_value(s.skip(2), 16, 0xffff_ffff_ffff_ffff)
    } else {
        bounded_value(s, 10, 0xffff_ffff_ffff_ffff)
    }
}

/// Reads a 64-bit address: hexadecimal after a `0x` or `0X` prefix, else
/// decimal.
pub fn parse_u64(string: &str) -> (r: Result<u64, ParseError>)
    ensures
        r == match address_value(string@) {
            Some(v) => Ok(v as u64),
            None => Err(ParseError::InvalidNumber),
        },
{
    let n = string.unicode_len();
    let parsed = if n >= 2 && string.get_char(0) == '0' && (string.get_char(1) == 'x'
        || string.get_char(1) == 'X') {
        let digits = string.substring_char(2, n);
        assert(digits@ =~= string@.skip(2));
        u64_from_radix(digits, 16)
    } else {
        u64_from_radix(string, 10)
    };
    match parsed {
        Some(v) => Ok(v),
        None => Err(ParseError::InvalidNumber),
    }
}

/// The length of the first `:`-separated field of `s`.
pub open spec fn field_len(s: Seq<char>) -> nat
    decreases s.len(),
{
    if s.len() == 0 || s[0] == ':' {
        0
    } else {
        1 + field_len(s.skip(1))
    }
}

/// Finds where the first `:`-separated field of `s` starting at `from` ends.
fn field_end(s: &str, from: usize) -> (r: usize)
    requires
        from <= s@.len(),
    ensures
        r == from + field_len(s@.skip(from as int)),
        r <= s@.len(),
{
    let n = s.unicode_len();
    let mut i = from;
    while i < n && s.get_char(i) != ':'
        invariant
            n == s@.len(),
            from <= i <= n,
            field_len(s@.skip(from as int)) == (i - from) + field_len(s@.skip(i as int)),
        decreases n - i,
    {
        assert(s@.skip(i as int).skip(1) =~= s@.skip(i + 1));
        i = i + 1;
    }
    assert(i == n ==> s@.skip(i as int).len() == 0);
    i
}

/// The vendor and device fields of a `vendor:device` pair: the first two
/// `:`-separated fields, or `None` where there is no `:`.
pub open spec fn id_fields(s: Seq<char>) -> Option<(Seq<char>, Seq<char>)> {
    let c = field_len(s);
    if c >= s.len() {
        None
    } else {
        let rest = s.skip(c as int + 1);
        Some((s.take(c as int), rest.take(field_len(rest) as int)))
    }
}

/// Reads a `vendor:device` pair of hexadecimal 16-bit ids; anything after a
/// second `:` is ignored.
pub fn parse_device_id(string: &str) -> (r: Result<(u16, u16), ParseError>)
    ensures
        id_fields(string@) is None ==> r == Err::<(u16, u16), ParseError>(
            ParseError::MissingDeviceId,
        ),
        id_fields(string@) matches Some((v, d)) ==> {
            &&& hex_id_value(v) is None ==> r == Err::<(u16, u16), ParseError>(
                ParseError::InvalidVendorId,
            )
            &&& hex_id_value(v) is Some && hex_id_value(d) is None ==> r == Err::<
                (u16, u16),
                ParseError,
            >(ParseError::InvalidDeviceId)
            &&& (hex_id_value(v) is Some && hex_id_value(d) is Some) ==> r == Ok::<
                (u16, u16),
                ParseError,
            >((hex_id_value(v)->Some_0 as u16, hex_id_value(d)->Some_0 as u16))
        },
{
    let n = string.unicode_len();
    let c = field_end(string, 0);
    assert(string@.skip(0) =~= string@);
    if c >= n {
        return Err(ParseError::MissingDeviceId);
    }
    let e = field_end(string, c + 1);
    let vendor_text = string.substring_char(0, c);
    let device_text = string.substring_char(c + 1, e);
    assert(vendor_text@ =~= string@.take(c as int));
    assert(device_text@ =~= string@.skip(c + 1).take(field_len(string@.skip(c + 1)) as int));
    let vendor = match parse_id(vendor_text) {
        Ok(v) => v,
        Err(_) => {
            return Err(ParseError::InvalidVendorId);
        },
    };
    let device = match parse_id(device_text) {
        Ok(d) => d,
        Err(_) => {
            return Err(ParseError::InvalidDeviceId);
        },
    };
    Ok((vendor, device))
}

} // verus!
