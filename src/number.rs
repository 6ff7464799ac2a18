//! Unsigned numbers as std reads them from text.
use vstd::prelude::*;

verus! {

/// Value of `c` as a digit in base `radix` (at most 36), if it is one.
pub open spec fn digit_value(c: char, radix: int) -> Option<int> {
    let v = if '0' <= c && c <= '9' {
        c as int - '0' as int
    } else if 'a' <= c && c <= 'z' {
        c as int - 'a' as int + 10
    } else if 'A' <= c && c <= 'Z' {
        c as int - 'A' as int + 10
    } else {
        radix
    };
    if v < radix {
        Some(v)
    } else {
        None
    }
}

/// Whether `d` consists of digits in base `radix` only.
pub open spec fn all_digits(d: Seq<char>, radix: int) -> bool {
    forall|i: int| 0 <= i < d.len() ==> (#[trigger] digit_value(d[i], radix)) is Some
}

/// The number the digits `d` spell in base `radix`.
pub open spec fn digits_value(d: Seq<char>, radix: int) -> int
    decreases d.len(),
{
    if d.len() == 0 {
        0
    } else {
        digits_value(d.drop_last(), radix) * radix + match digit_value(d.last(), radix) {
            Some(v) => v,
            None => 0,
        }
    }
}

/// `s` read as an unsigned number in base `radix`: an optional `+`, then at
/// least one digit and nothing else, with a value of at most `max`.
pub open spec fn parsed_number(s: Seq<char>, radix: int, max: int) -> Option<int> {
    let d = if s.len() > 0 && s[0] == '+' {
        s.drop_first()
    } else {
        s
    };
    if d.len() > 0 && all_digits(d, radix) && digits_value(d, radix) <= max {
        Some(digits_value(d, radix))
    } else {
        None
    }
}

/// Relies on `str::parse::<u16>` (std's `FromStr` for `u16`): an optional
/// `+` followed by decimal digits only, of a value that fits.
#[verifier::external_body]
pub(crate) fn parse_u16(s: &str) -> (r: Option<u16>)
    ensures
        r matches Some(v) ==> parsed_number(s@, 10, u16::MAX as int) == Some(v as int),
        r is None ==> parsed_number(s@, 10, u16::MAX as int) is None,
{
    s.parse::<u16>().ok()
}

/// Relies on `str::parse::<u64>` (std's `FromStr` for `u64`): an optional
/// `+` followed by decimal digits only, of a value that fits.
#[verifier::external_body]
pub(crate) fn parse_u64(s: &str) -> (r: Option<u64>)
    ensures
        r matches Some(v) ==> parsed_number(s@, 10, u64::MAX as int) == Some(v as int),
        r is None ==> parsed_number(s@, 10, u64::MAX as int) is None,
{
    s.parse::<u64>().ok()
}

/// Relies on `u64::from_str_radix` in base 16: an optional `+` followed by
/// hexadecimal digits of either case only, of a value that fits.
#[verifier::external_body]
pub(crate) fn parse_hex_u64(s: &str) -> (r: Option<u64>)
    ensures
        r matches Some(v) ==> parsed_number(s@, 16, u64::MAX as int) == Some(v as int),
        r is None ==> parsed_number(s@, 16, u64::MAX as int) is None,
{
    u64::from_str_radix(s, 16).ok()
}

} // verus!
