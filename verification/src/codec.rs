//! The primitives of the canonical encoding that come from outside the
//! library: JSON rendering of scalars, SHA-256, and the wall clock.
//!
//! Nothing in this file is proved. Each function states what the library
//! relies on, and everything else is derived from these statements.

use sha2::Digest;
use vstd::prelude::*;

verus! {

/// The sixteen hexadecimal digits, lower case, in order.
pub open spec fn hex_digits() -> Seq<char> {
    seq!['0', '1', '2', '3', '4', '5', '6', '7', '8', '9', 'a', 'b', 'c', 'd', 'e', 'f']
}

/// How one character stands inside a JSON string: the quote, the backslash
/// and the control characters below U+0020 are escaped, the five of them
/// that have a short escape by it, the others by their code; every other
/// character stands for itself.
pub open spec fn json_escape(c: char) -> Seq<char> {
    let code = c as u32;
    if c == '"' {
        seq!['\\', '"']
    } else if c == '\\' {
        seq!['\\', '\\']
    } else if code == 0x08 {
        seq!['\\', 'b']
    } else if code == 0x09 {
        seq!['\\', 't']
    } else if code == 0x0a {
        seq!['\\', 'n']
    } else if code == 0x0c {
        seq!['\\', 'f']
    } else if code == 0x0d {
        seq!['\\', 'r']
    } else if code < 0x20 {
        seq!['\\', 'u', '0', '0', hex_digits()[code as int / 16], hex_digits()[code as int % 16]]
    } else {
        seq![c]
    }
}

/// The characters of a string as they stand inside a JSON string.
pub open spec fn json_escaped(s: Seq<char>) -> Seq<char>
    decreases s.len(),
{
    if s.len() == 0 {
        Seq::empty()
    } else {
        json_escaped(s.drop_last()) + json_escape(s.last())
    }
}

/// The JSON text of a string: its escaped characters between double quotes.
pub open spec fn json_string_text(s: Seq<char>) -> Seq<char> {
    seq!['"'] + json_escaped(s) + seq!['"']
}

/// The SHA-256 digest of a byte sequence.
pub uninterp spec fn sha256(bytes: Seq<u8>) -> Seq<u8>;

/// The ten decimal digits, in order.
pub open spec fn decimal_digits() -> Seq<char> {
    seq!['0', '1', '2', '3', '4', '5', '6', '7', '8', '9']
}

/// The decimal numeral of a natural number, without leading zeros.
pub open spec fn decimal_nat(n: nat) -> Seq<char>
    decreases n,
{
    if n < 10 {
        seq![decimal_digits()[n as int]]
    } else {
        decimal_nat(n / 10).push(decimal_digits()[(n % 10) as int])
    }
}

/// The decimal numeral of an integer: a minus sign before the numeral of the
/// magnitude when the integer is negative.
pub open spec fn decimal_text(n: int) -> Seq<char> {
    if n < 0 {
        seq!['-'] + decimal_nat((-n) as nat)
    } else {
        decimal_nat(n as nat)
    }
}

/// Calls `serde_json::to_string` on a string slice. Trusted: the result is
/// the JSON text of the string, with the escapes that `json_escape` lists
/// and no others. Writing a string into memory cannot fail, so the fallback
/// is never taken.
#[verifier::external_body]
pub(crate) fn json_of_str(s: &str) -> (out: String)
    ensures
        out@ == json_string_text(s@),
{
    serde_json::to_string(s).unwrap_or_default()
}

/// Calls `serde_json::to_string` on a signed 64-bit integer. Trusted: the
/// result is the integer's decimal numeral. Writing an integer into memory
/// cannot fail, so the fallback is never taken.
#[verifier::external_body]
pub(crate) fn json_of_int(n: i64) -> (out: String)
    ensures
        out@ == decimal_text(n as int),
{
    serde_json::to_string(&n).unwrap_or_default()
}

/// Calls `sha2::Sha256::digest`. Trusted: the result is the SHA-256 digest of
/// the bytes, the same for the same bytes, and has 32 bytes.
#[verifier::external_body]
pub(crate) fn sha256_of(data: &[u8]) -> (out: Vec<u8>)
    ensures
        out@ == sha256(data@),
        out@.len() == 32,
{
    sha2::Sha256::digest(data).to_vec()
}

/// Calls `time::now` and reads the seconds of its `to_timespec`. Nothing is
/// claimed of the value: it is whatever the clock says.
#[verifier::external_body]
pub(crate) fn unix_seconds() -> (secs: i64) {
    time::now().to_timespec().sec
}

} // verus!
