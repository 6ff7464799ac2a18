//! Errors of setting up the display, with their exit codes.
use vstd::prelude::*;

use crate::number::{parse_hex_u64, parse_u64, parsed_number};

verus! {

/// No connection to the display could be opened.
pub const EXIT_NO_XDISPLAY: i32 = 100;

/// The display lacks the shared memory extension.
pub const EXIT_XSHM_UNSUPPORTED: i32 = 101;

/// The background colour could not be parsed.
pub const EXIT_UNKOWN_COLOR: i32 = 102;

/// The animation could not be read or decoded.
pub const EXIT_INVALID_FILE: i32 = 103;

/// The window-id could not be resolved.
pub const EXIT_INVALID_WINDOW_ID: i32 = 104;

/// A screen has no area, or lies beyond the coordinate space.
pub const EXIT_INVALID_SCREEN: i32 = 105;

/// The frames would not fit into memory.
pub const EXIT_TOO_LARGE: i32 = 106;

/// Shared memory could not be had for the frames.
pub const EXIT_SHARED_MEMORY: i32 = 107;

/// A failure to set up the display: the exit code and a message.
#[derive(Debug, Clone)]
pub struct XContextError {
    pub code: i32,
    pub message: String,
}

impl XContextError {
    /// An error with this code and message.
    pub fn with(code: i32, message: String) -> (r: XContextError)
        ensures
            r.code == code,
            r.message@ == message@,
    {
        XContextError { code, message }
    }

    /// The message, for display.
    pub fn to_string(&self) -> (r: String)
        ensures
            r@ == self.message@,
    {
        self.message.clone()
    }
}

/// Whether `s` starts with `0x`.
pub open spec fn has_hex_prefix(s: Seq<char>) -> bool {
    s.len() >= 2 && s[0] == '0' && s[1] == 'x'
}

/// `s` with all leading `0x` removed.
pub open spec fn without_hex_prefixes(s: Seq<char>) -> Seq<char>
    decreases s.len(),
{
    if has_hex_prefix(s) {
        without_hex_prefixes(s.skip(2))
    } else {
        s
    }
}

/// A window-id given as a number: decimal, else hexadecimal after a `0x`
/// prefix (repeated prefixes are all dropped). `None` where it is neither.
pub open spec fn window_number(s: Seq<char>) -> Option<u64> {
    match parsed_number(s, 10, u64::MAX as int) {
        Some(v) => Some(v as u64),
        None => if has_hex_prefix(s) {
            match parsed_number(without_hex_prefixes(s), 16, u64::MAX as int) {
                Some(v) => Some(v as u64),
                None => None,
            }
        } else {
            None
        },
    }
}

/// Relies on `str::starts_with` with the pattern `"0x"`.
#[verifier::external_body]
fn starts_with_hex_prefix(s: &str) -> (r: bool)
    ensures
        r == has_hex_prefix(s@),
{
    s.starts_with("0x")
}

/// Relies on `str::trim_start_matches` with the pattern `"0x"`, which removes
/// that prefix repeatedly.
#[verifier::external_body]
fn trim_hex_prefixes(s: &str) -> (r: &str)
    ensures
        r@ == without_hex_prefixes(s@),
{
    s.trim_start_matches("0x")
}

/// Reads a window-id given as a decimal number, or as a hexadecimal one
/// with `0x`-prefix. `None` where it is neither; it may then name an atom.
pub fn parse_window_number(window_id: &str) -> (r: Option<u64>)
    ensures
        r == window_number(window_id@),
{
    if let Some(decimal) = parse_u64(window_id) {
        return Some(decimal);
    }
    if starts_with_hex_prefix(window_id) {
        if let Some(hex) = parse_hex_u64(trim_hex_prefixes(window_id)) {
            return Some(hex);
        }
    }
    None
}

} // verus!
