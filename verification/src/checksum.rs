//! The content fingerprint that identifies an imported archive: the CRC-32
//! of its bytes, widened to the signed 64-bit column type the library table
//! stores. Identical bytes always give the identical checksum, which is
//! what makes the checksum usable as the durable join key between the
//! volatile in-memory book and its library row.

use vstd::prelude::*;

verus! {

/// The CRC-32 of a byte sequence, as `crc32fast` computes it.
pub uninterp spec fn crc32_of(bytes: Seq<u8>) -> u32;

/// Relies on `crc32fast::hash`: the CRC-32 (IEEE polynomial) of the bytes,
/// a function of the bytes alone.
#[verifier::external_body]
fn crc32_hash(bytes: &Vec<u8>) -> (r: u32)
    ensures
        r == crc32_of(bytes@),
{
    crc32fast::hash(bytes)
}

/// The checksum as stored in the library table.
pub open spec fn checksum_i64_of(bytes: Seq<u8>) -> i64 {
    crc32_of(bytes) as i64
}

/// Fingerprint the source archive bytes.
pub fn checksum_of_archive(bytes: &Vec<u8>) -> (r: i64)
    ensures
        r == checksum_i64_of(bytes@),
{
    crc32_hash(bytes) as i64
}

} // verus!
