//! The hash combiner: fixed-layout preimages hashed with ckb's blake2b-256.
//!
//! Two preimage layouts are frozen as part of the external contract:
//! merge-combine, `existingHash (32B) || existingWeight (16B LE) || newHash
//! (32B) || newWeight (16B LE)`, and bag-combine, `accumulator (32B) ||
//! peakHash (32B) || peakWeight (16B LE)`.

use vstd::prelude::*;

verus! {

/// The reserved all-zero digest: the bagging seed, and the root of a table
/// that holds no peaks.
pub open spec fn empty_digest() -> Seq<u8> {
    Seq::new(32, |i: int| 0u8)
}

/// Byte `i` of the 16-byte little-endian encoding of `w`.
pub open spec fn weight_le_byte(w: u128, i: int) -> u8 {
    ((w >> ((8 * i) as u128)) & 0xff) as u8
}

/// The 16-byte little-endian encoding of `w`.
pub open spec fn weight_le(w: u128) -> Seq<u8> {
    Seq::new(16, |i: int| weight_le_byte(w, i))
}

/// What ckb's blake2b-256 returns on a byte string.
pub uninterp spec fn blake2b_of(data: Seq<u8>) -> Seq<u8>;

/// Relies on `ckb_hash::blake2b_256`: the 32-byte blake2b digest, with
/// personalization `ckb-default-hash`, of the input bytes alone.
#[verifier::external_body]
fn blake2b_hash(data: &Vec<u8>) -> (r: [u8; 32])
    ensures
        r@ == blake2b_of(data@),
        r@.len() == 32,
{
    ckb_hash::blake2b_256(data.as_slice())
}

/// The merge-combine preimage: existing peak first, incoming carry second.
pub open spec fn merge_preimage(
    existing_hash: Seq<u8>,
    existing_weight: u128,
    leaf_hash: Seq<u8>,
    leaf_weight: u128,
) -> Seq<u8> {
    existing_hash + weight_le(existing_weight) + leaf_hash + weight_le(leaf_weight)
}

/// The digest that merging a carry into an occupied peak produces.
pub open spec fn merge_hash(
    existing_hash: Seq<u8>,
    existing_weight: u128,
    leaf_hash: Seq<u8>,
    leaf_weight: u128,
) -> Seq<u8> {
    blake2b_of(merge_preimage(existing_hash, existing_weight, leaf_hash, leaf_weight))
}

/// The bag-combine preimage: running accumulator, then one peak.
pub open spec fn bag_preimage(acc: Seq<u8>, peak_hash: Seq<u8>, peak_weight: u128) -> Seq<u8> {
    acc + peak_hash + weight_le(peak_weight)
}

/// The digest that folding one peak into the running accumulator produces.
pub open spec fn bag_hash(acc: Seq<u8>, peak_hash: Seq<u8>, peak_weight: u128) -> Seq<u8> {
    blake2b_of(bag_preimage(acc, peak_hash, peak_weight))
}

/// The all-zero digest as an executable value.
pub fn zero_digest() -> (r: [u8; 32])
    ensures
        r@ == empty_digest(),
{
    let r: [u8; 32] = [0u8; 32];
    proof {
        assert(r@ =~= empty_digest());
    }
    r
}

/// Appends the 32 bytes of a digest to a preimage under construction.
fn push_digest(out: &mut Vec<u8>, d: &[u8; 32])
    ensures
        final(out)@ == old(out)@ + d@,
{
    let mut i: usize = 0;
    while i < 32
        invariant
            i <= 32,
            out@ == old(out)@ + d@.take(i as int),
        decreases 32 - i,
    {
        let b: u8 = d[i];
        out.push(b);
        proof {
            assert(out@ =~= old(out)@ + d@.take(i + 1));
        }
        i = i + 1;
    }
    proof {
        assert(old(out)@ + d@.take(32) =~= old(out)@ + d@);
    }
}

/// Appends the 16-byte little-endian encoding of a weight to a preimage
/// under construction.
fn push_weight_le(out: &mut Vec<u8>, w: u128)
    ensures
        final(out)@ == old(out)@ + weight_le(w),
{
    let mut i: usize = 0;
    while i < 16
        invariant
            i <= 16,
            out@ == old(out)@ + weight_le(w).take(i as int),
        decreases 16 - i,
    {
        let shift: u128 = (8 * i) as u128;
        let masked: u128 = (w >> shift) & 0xff;
        proof {
            assert((w >> shift) & 0xff < 256) by (bit_vector);
        }
        let b: u8 = masked as u8;
        out.push(b);
        proof {
            assert(b == weight_le_byte(w, i as int));
            assert(out@ =~= old(out)@ + weight_le(w).take(i + 1));
        }
        i = i + 1;
    }
    proof {
        assert(old(out)@ + weight_le(w).take(16) =~= old(out)@ + weight_le(w));
    }
}

/// Merge-combine: hashes the two (hash, weight) pairs in the frozen layout,
/// existing peak first.
pub fn merge_combine(
    existing_hash: &[u8; 32],
    existing_weight: u128,
    leaf_hash: &[u8; 32],
    leaf_weight: u128,
) -> (r: [u8; 32])
    ensures
        r@ == merge_hash(existing_hash@, existing_weight, leaf_hash@, leaf_weight),
{
    let mut preimage: Vec<u8> = Vec::new();
    push_digest(&mut preimage, existing_hash);
    push_weight_le(&mut preimage, existing_weight);
    push_digest(&mut preimage, leaf_hash);
    push_weight_le(&mut preimage, leaf_weight);
    proof {
        assert(preimage@ =~= merge_preimage(
            existing_hash@,
            existing_weight,
            leaf_hash@,
            leaf_weight,
        ));
    }
    blake2b_hash(&preimage)
}

/// Bag-combine: folds one peak into the running accumulator in the frozen
/// layout.
pub fn bag_combine(acc: &[u8; 32], peak_hash: &[u8; 32], peak_weight: u128) -> (r: [u8; 32])
    ensures
        r@ == bag_hash(acc@, peak_hash@, peak_weight),
{
    let mut preimage: Vec<u8> = Vec::new();
    push_digest(&mut preimage, acc);
    push_digest(&mut preimage, peak_hash);
    push_weight_le(&mut preimage, peak_weight);
    proof {
        assert(preimage@ =~= bag_preimage(acc@, peak_hash@, peak_weight));
    }
    blake2b_hash(&preimage)
}

} // verus!
