//! Byte encodings: base64 and UTF-8.

use base64::Engine;
use vstd::prelude::*;
use vstd::utf8::{decode_utf8, valid_utf8};

verus! {

/// Names the result of `STANDARD.encode`: the padded base64 text of `bytes`.
pub uninterp spec fn base64_text(bytes: Seq<u8>) -> Seq<char>;

/// Names the result of `STANDARD.decode`: the bytes that `text` stands for, or
/// the message of the decoding error.
pub uninterp spec fn base64_bytes(text: Seq<char>) -> Result<Seq<u8>, Seq<char>>;

/// Names the message of the error that `String::from_utf8` gives for bytes
/// that are not UTF-8.
pub uninterp spec fn utf8_error_text(bytes: Seq<u8>) -> Seq<char>;

/// The length of the padded base64 text of `n` bytes.
pub open spec fn base64_len(n: nat) -> nat {
    4 * ((n + 2) / 3)
}

/// Whether the base64 text of `n` bytes has a length that fits in `usize`.
pub open spec fn base64_fits(n: nat) -> bool {
    base64_len(n) <= usize::MAX
}

/// The outcome that holds `bytes`.
pub open spec fn bytes_ok(bytes: Seq<u8>) -> Result<Seq<u8>, Seq<char>> {
    Ok(bytes)
}

/// A byte result as mathematics.
pub open spec fn bytes_result(r: Result<Vec<u8>, String>) -> Result<Seq<u8>, Seq<char>> {
    match r {
        Ok(bytes) => Ok(bytes@),
        Err(message) => Err(message@),
    }
}

/// `base64::engine::general_purpose::STANDARD.encode`. The text depends on
/// the bytes alone. It has four characters for every three bytes begun, and
/// decoding it gives the bytes back. The call panics where that length
/// overflows `usize`, which `requires` leaves out.
#[verifier::external_body]
pub(crate) fn base64_encode(bytes: &[u8]) -> (text: String)
    requires
        base64_fits(bytes@.len()),
    ensures
        text@ == base64_text(bytes@),
        text@.len() == base64_len(bytes@.len()),
        base64_bytes(text@) == bytes_ok(bytes@),
{
    base64::engine::general_purpose::STANDARD.encode(bytes)
}

/// `base64::engine::general_purpose::STANDARD.decode`. The outcome, bytes or
/// the error's message, depends on the text alone.
#[verifier::external_body]
pub(crate) fn base64_decode(text: &str) -> (r: Result<Vec<u8>, String>)
    ensures
        bytes_result(r) == base64_bytes(text@),
{
    base64::engine::general_purpose::STANDARD.decode(text).map_err(|e| e.to_string())
}

/// `String::from_utf8`. It succeeds exactly on valid UTF-8, with the text
/// that the bytes encode; else the error's message depends on the bytes alone.
#[verifier::external_body]
pub(crate) fn text_from_utf8(bytes: Vec<u8>) -> (r: Result<String, String>)
    ensures
        match r {
            Ok(text) => valid_utf8(bytes@) && text@ == decode_utf8(bytes@),
            Err(message) => !valid_utf8(bytes@) && message@ == utf8_error_text(bytes@),
        },
{
    String::from_utf8(bytes).map_err(|e| e.to_string())
}

/// Whether `n` bytes can be given to `base64_encode`.
pub fn fits_base64(n: usize) -> (r: bool)
    ensures
        r == base64_fits(n as nat),
{
    n <= usize::MAX - 2 && (n + 2) / 3 <= usize::MAX / 4
}

} // verus!
