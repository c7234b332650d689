//! Laws of the accumulator, proved once and for all over the mathematical
//! model: what single additions, carries, wrong block numbers, a full table
//! and repeated bagging do.

use vstd::prelude::*;

use crate::accumulator::{
    add_next, add_result, bag_from, bag_next, bag_root, block_ok, carry_hash, carry_weight,
    lemma_first_empty_is, mmr_wf, Error, MmrModel, PeakModel,
};
use crate::digest::{bag_hash, empty_digest, merge_hash};

verus! {

/// A fresh table, as `MmrPeaks::new` builds it: well-formed, every slot
/// empty, the highest-occupied marker at 0.
pub open spec fn fresh_table(m: MmrModel) -> bool {
    &&& mmr_wf(m)
    &&& m.highest == 0
    &&& forall|j: int| 0 <= j < 64 ==> m.peaks[j] is Empty
}

/// Law: on a fresh table an added leaf lands in slot 0 exactly as given,
/// every other slot stays empty, and the highest occupied height is 0.
pub proof fn lemma_single_leaf(m: MmrModel, h: Seq<u8>, w: u128, n: u64)
    requires
        fresh_table(m),
        block_ok(m.prev_block, n),
    ensures
        add_result(m, w, n) == Ok::<(), Error>(()),
        add_next(m, h, w, n).peaks[0] == (PeakModel::Occupied { hash: h, weight: w }),
        forall|j: int| 1 <= j < 64 ==> add_next(m, h, w, n).peaks[j] is Empty,
        add_next(m, h, w, n).highest == 0,
        add_next(m, h, w, n).prev_block == n,
{
    lemma_first_empty_is(m.peaks, 0);
}

/// Law: a second leaf added to a once-filled fresh table carries: slot 0
/// ends empty and slot 1 holds the merge of the two leaves, existing peak
/// first in the preimage, with the weights summed.
pub proof fn lemma_carry_pair(
    m: MmrModel,
    h1: Seq<u8>,
    w1: u128,
    h2: Seq<u8>,
    w2: u128,
    n1: u64,
    n2: u64,
)
    requires
        fresh_table(m),
        block_ok(m.prev_block, n1),
        block_ok(n1, n2),
        w1 + w2 <= u128::MAX,
    ensures
        ({
            let m1 = add_next(m, h1, w1, n1);
            let m2 = add_next(m1, h2, w2, n2);
            &&& add_result(m1, w2, n2) == Ok::<(), Error>(())
            &&& m2.peaks[0] is Empty
            &&& m2.peaks[1] == (PeakModel::Occupied {
                hash: merge_hash(h1, w1, h2, w2),
                weight: (w1 + w2) as u128,
            })
            &&& forall|j: int| 2 <= j < 64 ==> m2.peaks[j] is Empty
            &&& m2.highest == 1
        }),
{
    let m1 = add_next(m, h1, w1, n1);
    lemma_first_empty_is(m.peaks, 0);
    assert(m1.peaks[0] == (PeakModel::Occupied { hash: h1, weight: w1 }));
    assert(forall|j: int| 1 <= j < 64 ==> m1.peaks[j] is Empty);
    lemma_first_empty_is(m1.peaks, 1);
    assert(carry_weight(m1.peaks, w2, 1) == w2 + w1);
    assert(carry_hash(m1.peaks, h2, w2, 0) == h2);
    assert(carry_hash(m1.peaks, h2, w2, 1) == merge_hash(h1, w1, h2, w2));
}

/// Law: after three additions to a fresh table, slot 0 holds the third leaf
/// unmerged, slot 1 the merge of the first two, and the highest occupied
/// height is 1.
pub proof fn lemma_three_leaves(
    m: MmrModel,
    h1: Seq<u8>,
    w1: u128,
    h2: Seq<u8>,
    w2: u128,
    h3: Seq<u8>,
    w3: u128,
    n1: u64,
    n2: u64,
    n3: u64,
)
    requires
        fresh_table(m),
        block_ok(m.prev_block, n1),
        block_ok(n1, n2),
        block_ok(n2, n3),
        w1 + w2 <= u128::MAX,
    ensures
        ({
            let m3 = add_next(add_next(add_next(m, h1, w1, n1), h2, w2, n2), h3, w3, n3);
            &&& m3.peaks[0] == (PeakModel::Occupied { hash: h3, weight: w3 })
            &&& m3.peaks[1] == (PeakModel::Occupied {
                hash: merge_hash(h1, w1, h2, w2),
                weight: (w1 + w2) as u128,
            })
            &&& forall|j: int| 2 <= j < 64 ==> m3.peaks[j] is Empty
            &&& m3.highest == 1
        }),
{
    let m1 = add_next(m, h1, w1, n1);
    let m2 = add_next(m1, h2, w2, n2);
    lemma_carry_pair(m, h1, w1, h2, w2, n1, n2);
    lemma_first_empty_is(m2.peaks, 0);
    assert(carry_weight(m2.peaks, w3, 0) == w3);
    assert(carry_hash(m2.peaks, h3, w3, 0) == h3);
}

/// Law: with exactly two occupied peaks, at heights `a < b`, the root folds
/// the lower peak into the seed first and the higher one after it — bagging
/// runs in strictly increasing height order.
pub proof fn lemma_bag_two_peaks(m: MmrModel, a: int, b: int)
    requires
        mmr_wf(m),
        0 <= a < b < 64,
        m.peaks[a] is Occupied,
        m.peaks[b] is Occupied,
        forall|j: int| 0 <= j < 64 && j != a && j != b ==> m.peaks[j] is Empty,
    ensures
        bag_root(m.peaks) == bag_hash(
            bag_hash(empty_digest(), m.peaks[a]->hash, m.peaks[a]->weight),
            m.peaks[b]->hash,
            m.peaks[b]->weight,
        ),
{
    let x1 = bag_hash(empty_digest(), m.peaks[a]->hash, m.peaks[a]->weight);
    let x2 = bag_hash(x1, m.peaks[b]->hash, m.peaks[b]->weight);
    lemma_bag_from_skip(m.peaks, empty_digest(), 0, a);
    assert(bag_from(m.peaks, empty_digest(), a) == bag_from(m.peaks, x1, a + 1));
    lemma_bag_from_skip(m.peaks, x1, a + 1, b);
    assert(bag_from(m.peaks, x1, b) == bag_from(m.peaks, x2, b + 1));
    lemma_bag_from_skip(m.peaks, x2, b + 1, 64);
}

proof fn lemma_bag_from_skip(peaks: Seq<PeakModel>, acc: Seq<u8>, i: int, j: int)
    requires
        0 <= i <= j <= peaks.len(),
        forall|k: int| i <= k < j ==> peaks[k] is Empty,
    ensures
        bag_from(peaks, acc, i) == bag_from(peaks, acc, j),
    decreases j - i,
{
    if i < j {
        lemma_bag_from_skip(peaks, acc, i + 1, j);
    }
}

/// Law: bagging is idempotent — bagging again with no intervening addition
/// yields the same root and the same state, since bagging never touches the
/// peaks.
pub proof fn lemma_bag_idempotent(m: MmrModel)
    ensures
        bag_root(bag_next(m).peaks) == bag_root(m.peaks),
        bag_next(bag_next(m)) == bag_next(m),
{
}

/// Law: a block number that is not the successor of the last ingested one
/// is rejected with `InvalidArgument`, and the table is exactly unchanged.
pub proof fn lemma_wrong_block(m: MmrModel, h: Seq<u8>, w: u128, n: u64)
    requires
        n != m.prev_block + 1,
    ensures
        add_result(m, w, n) == Err::<(), Error>(Error::InvalidArgument),
        add_next(m, h, w, n) == m,
{
}

/// Law: with every slot occupied the cascade has nowhere to rest: the
/// addition fails with `IndexOutOfBound` and the table is exactly unchanged.
/// (A weight sum that already overflows fails earlier, with `Overflow`.)
pub proof fn lemma_capacity_exhausted(m: MmrModel, h: Seq<u8>, w: u128, n: u64)
    requires
        m.peaks.len() == 64,
        forall|j: int| 0 <= j < 64 ==> m.peaks[j] is Occupied,
        block_ok(m.prev_block, n),
        carry_weight(m.peaks, w, 64) <= u128::MAX,
    ensures
        add_result(m, w, n) == Err::<(), Error>(Error::IndexOutOfBound),
        add_next(m, h, w, n) == m,
{
    lemma_first_empty_is(m.peaks, 64);
}

/// Law: every failing addition leaves the table exactly as it was — the
/// carry cascade is atomic.
pub proof fn lemma_failure_unchanged(m: MmrModel, h: Seq<u8>, w: u128, n: u64)
    requires
        add_result(m, w, n) is Err,
    ensures
        add_next(m, h, w, n) == m,
{
}

} // verus!
