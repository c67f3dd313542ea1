//! The calls into `hex` and `blake3`. Each item here is trusted: its contract
//! is read off the crate's source, not proved.

use crate::numeric::lower_hex;
use vstd::prelude::*;

verus! {

/// What `blake3::hash` gives for `data`, as its 32 output bytes.
pub uninterp spec fn blake3_digest(data: Seq<u8>) -> Seq<u8>;

/// `blake3::hash`, its output taken as bytes with `Hash::as_bytes`. Claimed:
/// the result is a function of `data` alone, and has `blake3::OUT_LEN` (32)
/// bytes.
#[verifier::external_body]
pub(crate) fn blake3_hash(data: &[u8]) -> (res: Vec<u8>)
    ensures
        res@ == blake3_digest(data@),
        res@.len() == 32,
{
    blake3::hash(data).as_bytes().to_vec()
}

/// `hex::encode`. Claimed: two lowercase hexadecimal characters per byte, high
/// nibble first.
#[verifier::external_body]
pub(crate) fn hex_encode(bytes: &[u8]) -> (res: String)
    ensures
        res@ == lower_hex(bytes@),
{
    hex::encode(bytes)
}

} // verus!
