use vstd::prelude::*;

verus! {

/// The draw seed carried by a 32-byte ledger hash: its first eight bytes read
/// as a little-endian unsigned integer. The remaining bytes are not used.
pub open spec fn seed_of(h: Seq<u8>) -> int {
    h[0] + 256 * (h[1] + 256 * (h[2] + 256 * (h[3] + 256 * (h[4] + 256 * (h[5] + 256 * (h[6]
        + 256 * h[7]))))))
}

/// Derives the draw seed from a recent block hash (see `seed_of`), so that any
/// observer can recompute it from the same hash.
pub fn seed_from_hash(hash: &[u8; 32]) -> (r: u64)
    ensures
        r == seed_of(hash@),
{
    let v7: u64 = hash[7] as u64;
    let v6: u64 = hash[6] as u64 + 256 * v7;
    let v5: u64 = hash[5] as u64 + 256 * v6;
    let v4: u64 = hash[4] as u64 + 256 * v5;
    let v3: u64 = hash[3] as u64 + 256 * v4;
    let v2: u64 = hash[2] as u64 + 256 * v3;
    let v1: u64 = hash[1] as u64 + 256 * v2;
    hash[0] as u64 + 256 * v1
}

} // verus!
