//! The byte layout of Binary Canonical Serialization (BCS) as this library
//! uses it: ULEB128 length prefixes, little-endian integers and
//! length-prefixed byte strings.
use vstd::prelude::*;
use vstd::utf8::encode_utf8;

verus! {

/// Longest sequence that BCS accepts (`2^31 - 1` elements).
pub const MAX_SEQUENCE_LENGTH: usize = 0x7fff_ffff;

/// ULEB128 encoding of `n`: seven bits per byte, least significant group
/// first, the high bit set on every byte but the last.
pub open spec fn uleb128(n: nat) -> Seq<u8>
    decreases n,
{
    if n < 128 {
        seq![n as u8]
    } else {
        seq![(n % 128 + 128) as u8] + uleb128(n / 128)
    }
}

/// Whether a sequence of `n` elements can be encoded.
pub open spec fn fits_sequence(n: nat) -> bool {
    n <= MAX_SEQUENCE_LENGTH
}

/// BCS encoding of a byte sequence: its length, then the bytes.
pub open spec fn framed(b: Seq<u8>) -> Seq<u8> {
    uleb128(b.len()) + b
}

/// BCS encoding of a string: its UTF-8 bytes, framed.
pub open spec fn framed_str(s: Seq<char>) -> Seq<u8> {
    framed(encode_utf8(s))
}

/// Whether a string's UTF-8 form can be encoded.
pub open spec fn fits_str(s: Seq<char>) -> bool {
    fits_sequence(encode_utf8(s).len())
}

/// Little-endian bytes of a `u64`.
pub open spec fn le_u64(v: u64) -> Seq<u8> {
    seq![
        (v % 0x100) as u8,
        ((v / 0x100) % 0x100) as u8,
        ((v / 0x1_0000) % 0x100) as u8,
        ((v / 0x100_0000) % 0x100) as u8,
        ((v / 0x1_0000_0000) % 0x100) as u8,
        ((v / 0x100_0000_0000) % 0x100) as u8,
        ((v / 0x1_0000_0000_0000) % 0x100) as u8,
        ((v / 0x100_0000_0000_0000) % 0x100) as u8,
    ]
}

/// ULEB128 encoding of a sequence length.
pub fn uleb128_bytes(n: usize) -> (r: Vec<u8>)
    ensures
        r@ == uleb128(n as nat),
{
    let mut out: Vec<u8> = Vec::new();
    let mut v: usize = n;
    while v >= 128
        invariant
            out@ + uleb128(v as nat) == uleb128(n as nat),
        decreases v,
    {
        let byte: u8 = (v % 128 + 128) as u8;
        let ghost before = out@;
        out.push(byte);
        assert(uleb128(v as nat) == seq![byte] + uleb128((v / 128) as nat));
        assert(out@ + uleb128((v / 128) as nat) == before + (seq![byte] + uleb128(
            (v / 128) as nat,
        )));
        v = v / 128;
    }
    let ghost before = out@;
    out.push(v as u8);
    assert(out@ == before + uleb128(v as nat));
    out
}

} // verus!
