//! Content hashing: a 64-bit digest rendered as lower-case hex.

use vstd::prelude::*;

verus! {

/// The digest `twox_hash::XxHash64::oneshot` computes for a seed and a
/// byte string.
pub uninterp spec fn xxhash64_of(seed: u64, data: Seq<u8>) -> u64;

/// Relies on `twox_hash::XxHash64::oneshot`: the digest depends on the
/// seed and the bytes alone.
#[verifier::external_body]
pub fn xxhash64(seed: u64, data: &Vec<u8>) -> (r: u64)
    ensures
        r == xxhash64_of(seed, data@),
{
    twox_hash::XxHash64::oneshot(seed, data.as_slice())
}

/// The lower-case hex digits of a non-negative number, most significant
/// first, without leading zeroes.
pub open spec fn hex_of(n: int) -> Seq<u8>
    decreases n,
{
    if n < 16 {
        seq![hex_digit(if n < 0 {
            0int
        } else {
            n
        })]
    } else {
        hex_of(n / 16).push(hex_digit(n % 16))
    }
}

/// One hex digit: `0`-`9` then `a`-`f`.
pub open spec fn hex_digit(d: int) -> u8 {
    if d < 10 {
        (48 + d) as u8
    } else {
        (87 + d) as u8
    }
}

/// Render a number in lower-case hex.
pub fn u64_to_hex(n: u64) -> (r: Vec<u8>)
    ensures
        r@ == hex_of(n as int),
    decreases n,
{
    if n < 16 {
        let d = n as u8;
        let mut r: Vec<u8> = Vec::new();
        if d < 10 {
            r.push(48 + d);
        } else {
            r.push(87 + d);
        }
        proof {
            assert(r@ =~= hex_of(n as int));
        }
        r
    } else {
        let mut r = u64_to_hex(n / 16);
        let d = (n % 16) as u8;
        if d < 10 {
            r.push(48 + d);
        } else {
            r.push(87 + d);
        }
        r
    }
}

/// The hex-rendered 64-bit digest of a byte string, as used for on-disk
/// key derivation.
pub fn hash(v: &Vec<u8>) -> (r: Vec<u8>)
    ensures
        r@ == hex_of(xxhash64_of(0, v@) as int),
{
    u64_to_hex(xxhash64(0, v))
}

} // verus!
