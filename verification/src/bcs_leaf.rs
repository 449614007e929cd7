//! Calls into the `bcs` crate for the leaf values of the package metadata.
use vstd::prelude::*;
use vstd::utf8::encode_utf8;
use crate::bcs_format::{framed, le_u64, fits_sequence};

verus! {

/// `bcs::to_bytes` on a `u8`. The `bcs` source writes the byte itself and has
/// no failing path for it, so the result is that one byte.
#[verifier::external_body]
pub(crate) fn bcs_u8(v: u8) -> (r: Vec<u8>)
    ensures
        r@ == seq![v],
{
    match bcs::to_bytes(&v) {
        Ok(b) => b,
        Err(_) => Vec::new(),
    }
}

/// `bcs::to_bytes` on a `u64`. The `bcs` source writes `to_le_bytes()` and has
/// no failing path for it, so the result is the eight little-endian bytes.
#[verifier::external_body]
pub(crate) fn bcs_u64(v: u64) -> (r: Vec<u8>)
    ensures
        r@ == le_u64(v),
{
    match bcs::to_bytes(&v) {
        Ok(b) => b,
        Err(_) => Vec::new(),
    }
}

/// `bcs::to_bytes` on a byte slice. The `bcs` source refuses a sequence longer
/// than `MAX_SEQUENCE_LENGTH` and otherwise writes the ULEB128 length followed
/// by the bytes; the result is `None` exactly in the refused case.
#[verifier::external_body]
pub(crate) fn bcs_byte_seq(b: &[u8]) -> (r: Option<Vec<u8>>)
    ensures
        r is Some <==> fits_sequence(b@.len()),
        r matches Some(e) ==> e@ == framed(b@),
{
    bcs::to_bytes(b).ok()
}

/// `bcs::to_bytes` on a string slice. The `bcs` source encodes a string as the
/// byte sequence of its UTF-8 form, with the same length limit as any sequence.
#[verifier::external_body]
pub(crate) fn bcs_str(s: &str) -> (r: Option<Vec<u8>>)
    ensures
        r is Some <==> fits_sequence(encode_utf8(s@).len()),
        r matches Some(e) ==> e@ == framed(encode_utf8(s@)),
{
    bcs::to_bytes(s).ok()
}

/// `bcs::to_bytes` on a 32-byte array, the form in which an account address
/// is written. The `bcs` source writes a fixed-size array as a tuple, with no
/// length prefix and no failing path: the result is the 32 bytes themselves.
#[verifier::external_body]
pub(crate) fn bcs_account_address(bytes: &[u8; 32]) -> (r: Vec<u8>)
    ensures
        r@ == bytes@,
{
    match bcs::to_bytes(bytes) {
        Ok(b) => b,
        Err(_) => Vec::new(),
    }
}

} // verus!
