//! Group Code Recording (GCR) as written by the Commodore 1541 drive.
//!
//! Every nibble of a byte is stored on disk as a five-bit code, so four
//! bytes become five bytes on disk. Decoding itself is done by the
//! `cbm-dos` crate; this module states what that decoding returns.
use vstd::prelude::*;

verus! {

/// The nibble that a five-bit GCR code stands for, or `None` for the
/// sixteen codes that the 1541 never writes.
pub open spec fn gcr_nibble(code: int) -> Option<u8> {
    if code == 0x0a { Some(0u8) }
    else if code == 0x0b { Some(1u8) }
    else if code == 0x12 { Some(2u8) }
    else if code == 0x13 { Some(3u8) }
    else if code == 0x0e { Some(4u8) }
    else if code == 0x0f { Some(5u8) }
    else if code == 0x16 { Some(6u8) }
    else if code == 0x17 { Some(7u8) }
    else if code == 0x09 { Some(8u8) }
    else if code == 0x19 { Some(9u8) }
    else if code == 0x1a { Some(10u8) }
    else if code == 0x1b { Some(11u8) }
    else if code == 0x0d { Some(12u8) }
    else if code == 0x1d { Some(13u8) }
    else if code == 0x1e { Some(14u8) }
    else if code == 0x15 { Some(15u8) }
    else { None }
}

/// The 40-bit big-endian number formed by the first five bytes of `g`.
pub open spec fn gcr_group_value(g: Seq<u8>) -> int {
    g[0] * 0x1_0000_0000 + g[1] * 0x100_0000 + g[2] * 0x1_0000 + g[3] * 0x100 + g[4]
}

/// The `k`-th five-bit code (counted from the most significant end, `0 <= k < 8`)
/// of a five-byte group.
pub open spec fn gcr_code(g: Seq<u8>, k: int) -> int {
    let shift_factor: int = if k == 0 { 0x8_0000_0000 }
        else if k == 1 { 0x4000_0000 }
        else if k == 2 { 0x200_0000 }
        else if k == 3 { 0x10_0000 }
        else if k == 4 { 0x8000 }
        else if k == 5 { 0x400 }
        else if k == 6 { 0x20 }
        else { 1 };
    (gcr_group_value(g) / shift_factor) % 32
}

/// The `j`-th decoded byte (`0 <= j < 4`) of a five-byte group: the nibbles of
/// codes `2j` and `2j + 1`, high nibble first.
pub open spec fn gcr_group_byte(g: Seq<u8>, j: int) -> Option<u8> {
    match (gcr_nibble(gcr_code(g, 2 * j)), gcr_nibble(gcr_code(g, 2 * j + 1))) {
        (Some(hi), Some(lo)) => Some((hi * 16 + lo) as u8),
        _ => None,
    }
}

/// The four bytes that a five-byte group decodes to, or `None` when one of
/// its eight codes is not a GCR code.
#[verifier::opaque]
pub open spec fn gcr_decode_group(g: Seq<u8>) -> Option<Seq<u8>> {
    match (gcr_group_byte(g, 0), gcr_group_byte(g, 1), gcr_group_byte(g, 2), gcr_group_byte(g, 3)) {
        (Some(b0), Some(b1), Some(b2), Some(b3)) => Some(seq![b0, b1, b2, b3]),
        _ => None,
    }
}

/// GCR decoding of a byte string: every complete five-byte group in turn
/// (trailing bytes that do not fill a group are ignored); `None` as soon as one
/// group does not decode.
pub open spec fn gcr_decode(s: Seq<u8>) -> Option<Seq<u8>>
    decreases s.len(),
{
    if s.len() < 5 {
        Some(Seq::<u8>::empty())
    } else {
        match (gcr_decode_group(s.take(5)), gcr_decode(s.skip(5))) {
            (Some(head), Some(rest)) => Some(head + rest),
            _ => None,
        }
    }
}

#[verifier::external_type_specification]
#[verifier::external_body]
pub struct ExGcr(cbm_dos::GCR);

/// `cbm_dos::GCR::new` builds the decoder with its fixed lookup tables; its
/// fields are private, so nothing about it is stated.
pub assume_specification[ cbm_dos::GCR::new ]() -> (gcr: cbm_dos::GCR);

/// `cbm_dos::GCR::decode` walks the input in complete five-byte chunks, turns
/// each into a 40-bit big-endian number, maps its eight five-bit codes through
/// the table that `GCR::new` fills (the sixteen pairs listed in its doc
/// comment, every other code invalid), joins each pair of nibbles into a byte
/// and returns `None` as soon as a code is invalid. This contract claims that
/// the result is exactly `gcr_decode` of the input.
pub assume_specification[ cbm_dos::GCR::decode ](gcr: &cbm_dos::GCR, value: &[u8]) -> (res: Option<Vec<u8>>)
    ensures
        match res {
            Some(v) => gcr_decode(value@) == Some(v@),
            None => gcr_decode(value@) is None,
        },
;

/// A successful decode yields four bytes for every complete five-byte group.
pub proof fn lemma_gcr_decode_len(s: Seq<u8>)
    ensures
        gcr_decode(s) matches Some(d) ==> d.len() == 4 * (s.len() / 5),
    decreases s.len(),
{
    reveal(gcr_decode_group);
    if s.len() >= 5 {
        lemma_gcr_decode_len(s.skip(5));
    }
}

} // verus!
