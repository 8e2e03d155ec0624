//! The few facts this library takes from outside: fresh identifiers, the
//! clock, operating-system randomness, Unicode case mapping, and how the
//! `uuid`, `serde_json` and `chrono` crates write values as text.
//!
//! Identifiers, the clock and randomness are not functions of their
//! arguments, so the verified code accepts whatever they give, failure
//! included; the text forms are stated or named as functions of the value.

use vstd::prelude::*;

verus! {

/// What is reported when the system clock cannot be read.
pub const CLOCK_UNAVAILABLE: &'static str = "the system clock is unavailable";

/// What is reported when the operating-system random source fails.
pub const RANDOM_UNAVAILABLE: &'static str = "the operating-system random source failed";

/// A fresh random (version 4) identifier as its 128-bit value: sixteen bytes
/// from `getrandom::fill`, stamped by `uuid::Builder::from_random_bytes`.
/// `None` when the operating-system random source reports an error, which
/// `getrandom::fill` returns rather than panicking. Nothing is claimed of
/// the value; the callers hold for every outcome.
#[verifier::external_body]
pub fn fresh_id() -> (id: Option<u128>) {
    let mut bytes = [0u8; 16];
    match getrandom::fill(&mut bytes) {
        Ok(()) => Some(uuid::Builder::from_random_bytes(bytes).into_uuid().as_u128()),
        Err(_) => None,
    }
}

/// The lowercase hexadecimal digit of `n` (below sixteen).
pub open spec fn hex_digit(n: int) -> char {
    if n < 10 {
        ((48 + n) as u32) as char
    } else {
        ((87 + n) as u32) as char
    }
}

/// The last `k` hexadecimal digits of `v`, most significant first.
pub open spec fn hex_digits(v: nat, k: nat) -> Seq<char>
    decreases k,
{
    if k == 0 {
        Seq::empty()
    } else {
        hex_digits(v / 16, (k - 1) as nat).push(hex_digit((v % 16) as int))
    }
}

/// The hyphenated lowercase text of a UUID value: its 32 hexadecimal digits,
/// most significant first, in groups of 8, 4, 4, 4 and 12.
pub open spec fn uuid_hyphenated(v: u128) -> Seq<char> {
    let h = hex_digits(v as nat, 32);
    h.subrange(0, 8) + "-"@ + h.subrange(8, 12) + "-"@ + h.subrange(12, 16) + "-"@ + h.subrange(16, 20)
        + "-"@ + h.subrange(20, 32)
}

/// `uuid::Uuid::from_u128(v).to_string()`: the value's big-endian bytes
/// written as `Display` writes a UUID, hyphenated lowercase hexadecimal
/// (`uuid_hyphenated`).
#[verifier::external_body]
pub fn uuid_text(v: u128) -> (r: String)
    ensures
        r@ == uuid_hyphenated(v),
{
    uuid::Uuid::from_u128(v).to_string()
}

/// How `serde_json` writes one character inside a string: the quote, the
/// backslash and the control characters escaped (the five with short
/// escapes, the others as `\u00` and two lowercase hexadecimal digits),
/// every other character as it is.
pub open spec fn json_char_text(c: char) -> Seq<char> {
    if c == '"' {
        seq!['\\', '"']
    } else if c == '\\' {
        seq!['\\', '\\']
    } else if c == '\u{8}' {
        seq!['\\', 'b']
    } else if c == '\u{c}' {
        seq!['\\', 'f']
    } else if c == '\n' {
        seq!['\\', 'n']
    } else if c == '\r' {
        seq!['\\', 'r']
    } else if c == '\t' {
        seq!['\\', 't']
    } else if (c as u32) < 0x20 {
        seq!['\\', 'u', '0', '0', hex_digit((c as int) / 16), hex_digit((c as int) % 16)]
    } else {
        seq![c]
    }
}

/// The characters of a string as `serde_json` writes them inside quotes.
pub open spec fn json_escaped(s: Seq<char>) -> Seq<char>
    decreases s.len(),
{
    if s.len() == 0 {
        Seq::empty()
    } else {
        json_escaped(s.drop_last()) + json_char_text(s.last())
    }
}

/// The JSON text of a string, as `serde_json` writes a `Value::String`.
#[verifier::opaque]
pub open spec fn json_string_text(s: Seq<char>) -> Seq<char> {
    seq!['"'] + json_escaped(s) + seq!['"']
}

/// `serde_json::Value::String(s).to_string()`: the string quoted, escaped
/// as `serde_json`'s escape table gives (`json_string_text`).
#[verifier::external_body]
pub fn json_string(s: &str) -> (r: String)
    ensures
        r@ == json_string_text(s@),
{
    serde_json::Value::String(s.to_owned()).to_string()
}

/// The current time in milliseconds since the Unix epoch, read from
/// `std::time::SystemTime::now()` by `duration_since(UNIX_EPOCH)`. `None`
/// when the clock stands before the epoch or the count does not fit in an
/// `i64`. Nothing is claimed of the value.
#[verifier::external_body]
pub fn now_millis() -> (t: Option<i64>) {
    match std::time::SystemTime::now().duration_since(std::time::UNIX_EPOCH) {
        Ok(d) => i64::try_from(d.as_millis()).ok(),
        Err(_) => None,
    }
}

/// The JSON text `serde_json` writes for the UTC instant `ms` milliseconds
/// after the Unix epoch (chrono's RFC 3339 form, quoted), or nothing when
/// chrono cannot represent that instant.
pub uninterp spec fn datetime_json_text(ms: i64) -> Option<Seq<char>>;

/// `chrono::DateTime::from_timestamp_millis(ms)` written by
/// `serde_json::to_string`; its result is named by `datetime_json_text`.
/// chrono returns `None` for an instant outside its range, and serialising a
/// `DateTime` does not fail.
#[verifier::external_body]
pub fn datetime_json(ms: i64) -> (r: Option<String>)
    ensures
        match r {
            Some(t) => datetime_json_text(ms) == Some(t@),
            None => datetime_json_text(ms) is None,
        },
{
    match chrono::DateTime::from_timestamp_millis(ms) {
        Some(d) => serde_json::to_string(&d).ok(),
        None => None,
    }
}

/// The error type of the operating-system random source.
#[verifier::external_type_specification]
#[verifier::external_body]
pub struct ExGetrandomError(getrandom::Error);

/// Thirty-two bytes from the operating-system random source:
/// `getrandom::fill` on a zeroed 32-byte buffer. The crate documents that
/// success fills the whole buffer; the bytes themselves are left unstated.
#[verifier::external_body]
pub fn random_bytes_32() -> (r: Result<Vec<u8>, getrandom::Error>)
    ensures
        r matches Ok(v) ==> v.len() == 32,
{
    let mut bytes = [0u8; 32];
    getrandom::fill(&mut bytes)?;
    Ok(bytes.to_vec())
}

/// The Unicode lowercase mapping of a string, as `str::to_lowercase` computes it.
pub uninterp spec fn unicode_lowercase(s: Seq<char>) -> Seq<char>;

/// `str::to_lowercase`: its result is named by `unicode_lowercase` (the
/// mapping is Unicode's `Lowercase` property). On ASCII text Unicode's
/// mapping is the ASCII one, `str::to_ascii_lowercase`; beyond ASCII nothing
/// more is stated.
#[verifier::external_body]
pub fn lowercase(s: &str) -> (r: String)
    ensures
        r@ == unicode_lowercase(s@),
        vstd::utf8::is_ascii_chars(s@) ==> r@ == crate::text::lower_seq(s@),
{
    s.to_lowercase()
}

} // verus!

verus! {

/// Whether this build runs on Windows, told by `std::path::MAIN_SEPARATOR`
/// (a backslash on Windows targets only). Nothing is claimed of the answer.
#[verifier::external_body]
pub fn host_is_windows() -> (b: bool) {
    std::path::MAIN_SEPARATOR == '\\'
}

} // verus!
