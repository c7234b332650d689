//! The peak table and the accumulator: `add_leaf` (carry-merge ingestion)
//! and `bag_peaks` (root computation).
//!
//! The table has one slot per height. An occupied slot at height `h` holds a
//! complete subtree of `2^h` leaves, so the table behaves like a binary
//! counter: adding a leaf carries through occupied slots, merging as it
//! climbs, until an empty slot absorbs the carry.

use vstd::prelude::*;
use vstd::pervasive::VecAdditionalExecFns;

use crate::digest::{
    bag_hash, empty_digest, merge_hash, zero_digest, bag_combine, merge_combine,
};

verus! {

/// Number of peak slots: one per height, so up to `2^64` leaves.
pub const CAPACITY: usize = 64;

/// One slot of the peak table. Occupancy is an explicit tag, never inferred
/// from an all-zero hash or a zero weight.
#[derive(Clone, Copy, Debug, PartialEq, Eq)]
pub enum MmrPeak {
    Empty,
    Occupied { hash: [u8; 32], weight: u128 },
}

/// The errors `add_leaf` can return. Every failure leaves the table
/// unchanged.
#[derive(Clone, Copy, Debug, PartialEq, Eq)]
pub enum Error {
    /// The block number is not the successor of the last ingested one.
    InvalidArgument,
    /// The carry cascade would climb past the last slot.
    IndexOutOfBound,
    /// The accumulated weight would not fit its 128-bit field.
    Overflow,
}

/// The mathematical value of one slot.
pub enum PeakModel {
    Empty,
    Occupied { hash: Seq<u8>, weight: u128 },
}

/// The mathematical value of the whole accumulator.
pub struct MmrModel {
    /// Slot per height, lowest first.
    pub peaks: Seq<PeakModel>,
    /// The highest height with an occupied peak (0 when the table is empty).
    pub highest: u8,
    /// The block number of the most recently ingested leaf.
    pub prev_block: u64,
    /// The cached root: the output of the last bagging, possibly stale.
    pub root: Seq<u8>,
}

impl View for MmrPeak {
    type V = PeakModel;

    open spec fn view(&self) -> PeakModel {
        match *self {
            MmrPeak::Empty => PeakModel::Empty,
            MmrPeak::Occupied { hash, weight } => PeakModel::Occupied {
                hash: hash@,
                weight,
            },
        }
    }
}

/// Well-formedness: 64 slots, the highest-occupied marker in range and
/// nothing occupied above it, and every digest 32 bytes wide.
pub open spec fn mmr_wf(m: MmrModel) -> bool {
    &&& m.peaks.len() == 64
    &&& m.highest < 64
    &&& forall|j: int| m.highest < j < 64 ==> m.peaks[j] is Empty
    &&& m.root.len() == 32
    &&& forall|j: int|
        0 <= j < 64 && m.peaks[j] is Occupied ==> (#[trigger] m.peaks[j])->hash.len() == 32
}

/// The first height at or above `i` whose slot is empty, or the table length
/// when every slot from `i` up is occupied.
pub open spec fn first_empty_from(peaks: Seq<PeakModel>, i: int) -> int
    decreases peaks.len() - i,
{
    if i < 0 || i >= peaks.len() {
        peaks.len() as int
    } else if peaks[i] is Empty {
        i
    } else {
        first_empty_from(peaks, i + 1)
    }
}

/// The height at which a carry cascade started at height 0 comes to rest.
pub open spec fn first_empty(peaks: Seq<PeakModel>) -> int {
    first_empty_from(peaks, 0)
}

/// The carried weight after the cascade has merged through slots `0..i`:
/// the leaf's weight plus those slots' accumulated weights, as an unbounded
/// integer so that overflow can be spoken of.
pub open spec fn carry_weight(peaks: Seq<PeakModel>, w: u128, i: int) -> int
    decreases i,
{
    if i <= 0 {
        w as int
    } else {
        carry_weight(peaks, w, i - 1) + peaks[i - 1]->weight
    }
}

/// The carried hash after the cascade has merged through slots `0..i`: each
/// merge combines the existing peak with the incoming carry and its weight.
pub open spec fn carry_hash(peaks: Seq<PeakModel>, h: Seq<u8>, w: u128, i: int) -> Seq<u8>
    decreases i,
{
    if i <= 0 {
        h
    } else {
        merge_hash(
            peaks[i - 1]->hash,
            peaks[i - 1]->weight,
            carry_hash(peaks, h, w, i - 1),
            carry_weight(peaks, w, i - 1) as u128,
        )
    }
}

/// Whether `n` is the successor of the last ingested block number.
pub open spec fn block_ok(prev: u64, n: u64) -> bool {
    n == prev + 1
}

/// What `add_leaf` returns: the block number is checked first; then the
/// cascade fails on the first weight sum that would not fit, and on a table
/// with no free slot.
pub open spec fn add_result(m: MmrModel, w: u128, n: u64) -> Result<(), Error> {
    if !block_ok(m.prev_block, n) {
        Err(Error::InvalidArgument)
    } else {
        let k = first_empty(m.peaks);
        if carry_weight(m.peaks, w, k) > u128::MAX {
            Err(Error::Overflow)
        } else if k >= 64 {
            Err(Error::IndexOutOfBound)
        } else {
            Ok(())
        }
    }
}

/// The table after `add_leaf`: on success the slots below the resting height
/// are cleared, the resting slot takes the fully merged carry, and the block
/// number advances; on any failure the table is exactly what it was.
pub open spec fn add_next(m: MmrModel, h: Seq<u8>, w: u128, n: u64) -> MmrModel {
    if add_result(m, w, n) is Ok {
        let k = first_empty(m.peaks);
        MmrModel {
            peaks: Seq::new(
                m.peaks.len(),
                |j: int|
                    if j < k {
                        PeakModel::Empty
                    } else if j == k {
                        PeakModel::Occupied {
                            hash: carry_hash(m.peaks, h, w, k),
                            weight: carry_weight(m.peaks, w, k) as u128,
                        }
                    } else {
                        m.peaks[j]
                    },
            ),
            highest: if k > m.highest {
                k as u8
            } else {
                m.highest
            },
            prev_block: n,
            root: m.root,
        }
    } else {
        m
    }
}

/// The accumulator folded from height 0 upward, starting from `acc`:
/// occupied slots are bag-combined in strictly increasing height order,
/// empty slots are skipped.
pub open spec fn bag_from(peaks: Seq<PeakModel>, acc: Seq<u8>, i: int) -> Seq<u8>
    decreases peaks.len() - i,
{
    if i < 0 || i >= peaks.len() {
        acc
    } else {
        let next = match peaks[i] {
            PeakModel::Occupied { hash, weight } => bag_hash(acc, hash, weight),
            PeakModel::Empty => acc,
        };
        bag_from(peaks, next, i + 1)
    }
}

/// The root: every occupied peak bagged in increasing height order, seeded
/// with the empty digest. An empty table bags to the empty digest itself.
pub open spec fn bag_root(peaks: Seq<PeakModel>) -> Seq<u8> {
    bag_from(peaks, empty_digest(), 0)
}

/// The accumulator after `bag_peaks`: only the cached root moves.
pub open spec fn bag_next(m: MmrModel) -> MmrModel {
    MmrModel { peaks: m.peaks, highest: m.highest, prev_block: m.prev_block, root: bag_root(m.peaks) }
}

/// The carried weight never shrinks as the cascade climbs.
pub proof fn lemma_carry_weight_mono(peaks: Seq<PeakModel>, w: u128, i: int, j: int)
    requires
        0 <= i <= j,
    ensures
        carry_weight(peaks, w, i) <= carry_weight(peaks, w, j),
    decreases j - i,
{
    if i < j {
        lemma_carry_weight_mono(peaks, w, i, j - 1);
    }
}

/// Pins `first_empty` down: occupied slots below `k` and an empty slot at
/// `k` (or a full table) put the cascade's rest height at `k`.
pub proof fn lemma_first_empty_is(peaks: Seq<PeakModel>, k: int)
    requires
        0 <= k <= peaks.len(),
        forall|j: int| 0 <= j < k ==> peaks[j] is Occupied,
        k < peaks.len() ==> peaks[k] is Empty,
    ensures
        first_empty(peaks) == k,
{
    lemma_first_empty_from(peaks, 0, k);
}

/// The cascade's rest height lies at or above any all-occupied prefix.
pub proof fn lemma_first_empty_lower(peaks: Seq<PeakModel>, k: int)
    requires
        0 <= k <= peaks.len(),
        forall|j: int| 0 <= j < k ==> peaks[j] is Occupied,
    ensures
        first_empty(peaks) >= k,
{
    lemma_first_empty_lower_from(peaks, 0, k);
}

proof fn lemma_first_empty_lower_from(peaks: Seq<PeakModel>, i: int, k: int)
    requires
        0 <= i <= k <= peaks.len(),
        forall|j: int| i <= j < k ==> peaks[j] is Occupied,
    ensures
        first_empty_from(peaks, i) >= k,
    decreases k - i,
{
    if i < k {
        lemma_first_empty_lower_from(peaks, i + 1, k);
    } else {
        lemma_first_empty_from_ge(peaks, i);
    }
}

proof fn lemma_first_empty_from_ge(peaks: Seq<PeakModel>, i: int)
    requires
        0 <= i <= peaks.len(),
    ensures
        first_empty_from(peaks, i) >= i,
    decreases peaks.len() - i,
{
    if i < peaks.len() && !(peaks[i] is Empty) {
        lemma_first_empty_from_ge(peaks, i + 1);
    }
}

proof fn lemma_first_empty_from(peaks: Seq<PeakModel>, i: int, k: int)
    requires
        0 <= i <= k <= peaks.len(),
        forall|j: int| i <= j < k ==> peaks[j] is Occupied,
        k < peaks.len() ==> peaks[k] is Empty,
    ensures
        first_empty_from(peaks, i) == k,
    decreases k - i,
{
    if i < k {
        lemma_first_empty_from(peaks, i + 1, k);
    }
}

/// Bagging walks over a run of empty slots without touching the accumulator.
pub proof fn lemma_bag_from_empty_tail(peaks: Seq<PeakModel>, acc: Seq<u8>, i: int)
    requires
        0 <= i,
        forall|j: int| i <= j < peaks.len() ==> peaks[j] is Empty,
    ensures
        bag_from(peaks, acc, i) == acc,
    decreases peaks.len() - i,
{
    if i < peaks.len() {
        lemma_bag_from_empty_tail(peaks, acc, i + 1);
    }
}

/// The accumulator. Owns the peak table; mutated only by `add_leaf`, read
/// by `bag_peaks`.
pub struct MmrPeaks {
    peaks: Vec<MmrPeak>,
    highest_peak: u8,
    previous_block: u64,
    mmr_root: [u8; 32],
}

impl View for MmrPeaks {
    type V = MmrModel;

    closed spec fn view(&self) -> MmrModel {
        MmrModel {
            peaks: self.peaks@.map(|j: int, p: MmrPeak| p@),
            highest: self.highest_peak,
            prev_block: self.previous_block,
            root: self.mmr_root@,
        }
    }
}

impl MmrPeaks {
    /// A fresh table: every slot empty, the cached root the empty digest,
    /// and `prev_block` the declared starting point.
    pub fn new(prev_block: u64) -> (r: Self)
        ensures
            mmr_wf(r@),
            forall|j: int| 0 <= j < 64 ==> r@.peaks[j] is Empty,
            r@.highest == 0,
            r@.prev_block == prev_block,
            r@.root == empty_digest(),
    {
        let mut peaks: Vec<MmrPeak> = Vec::new();
        let mut i: usize = 0;
        while i < CAPACITY
            invariant
                i <= 64,
                peaks@.len() == i,
                forall|j: int| 0 <= j < i ==> peaks@[j] is Empty,
            decreases 64 - i,
        {
            peaks.push(MmrPeak::Empty);
            i = i + 1;
        }
        let r = MmrPeaks {
            peaks,
            highest_peak: 0,
            previous_block: prev_block,
            mmr_root: zero_digest(),
        };
        proof {
            assert(forall|j: int| 0 <= j < 64 ==> r@.peaks[j] is Empty);
        }
        r
    }

    /// Rebuilds an accumulator from persisted parts; `None` when they do not
    /// form a well-formed table.
    pub fn from_parts(
        slots: Vec<MmrPeak>,
        highest_peak: u8,
        previous_block: u64,
        root: [u8; 32],
    ) -> (r: Option<MmrPeaks>)
        ensures
            ({
                let m = MmrModel {
                    peaks: slots@.map(|j: int, p: MmrPeak| p@),
                    highest: highest_peak,
                    prev_block: previous_block,
                    root: root@,
                };
                if mmr_wf(m) {
                    r matches Some(t) && t@ == m
                } else {
                    r is None
                }
            }),
    {
        let ghost m = MmrModel {
            peaks: slots@.map(|j: int, p: MmrPeak| p@),
            highest: highest_peak,
            prev_block: previous_block,
            root: root@,
        };
        if slots.len() != CAPACITY || highest_peak >= 64 {
            return None;
        }
        let mut j: usize = highest_peak as usize + 1;
        while j < CAPACITY
            invariant
                highest_peak < j <= 64,
                slots@.len() == 64,
                m.highest == highest_peak,
                m.peaks == slots@.map(|j: int, p: MmrPeak| p@),
                forall|i: int| highest_peak < i < j ==> m.peaks[i] is Empty,
            decreases 64 - j,
        {
            let slot = slots[j];
            match slot {
                MmrPeak::Empty => {
                    proof {
                        assert(m.peaks[j as int] == slot@);
                    }
                },
                MmrPeak::Occupied { .. } => {
                    proof {
                        assert(m.peaks[j as int] == slot@);
                        assert(exists|i: int|
                            #![trigger m.peaks[i]]
                            m.highest < i < 64 && !(m.peaks[i] is Empty));
                        assert(!mmr_wf(m));
                    }
                    return None;
                },
            }
            j = j + 1;
        }
        let r = MmrPeaks { peaks: slots, highest_peak, previous_block, mmr_root: root };
        proof {
            assert(forall|i: int|
                0 <= i < 64 && m.peaks[i] is Occupied ==> (#[trigger] m.peaks[i])->hash.len()
                    == 32);
            assert(mmr_wf(m));
            assert(r@ == m);
        }
        Some(r)
    }

    /// The slot at a height, for inspection and persistence.
    pub fn peak_at(&self, height: usize) -> (r: MmrPeak)
        requires
            mmr_wf(self@),
            height < 64,
        ensures
            r@ == self@.peaks[height as int],
    {
        self.peaks[height]
    }

    /// The highest height with an occupied peak.
    pub fn highest_peak(&self) -> (r: u8)
        ensures
            r == self@.highest,
    {
        self.highest_peak
    }

    /// The block number of the most recently ingested leaf.
    pub fn previous_block(&self) -> (r: u64)
        ensures
            r == self@.prev_block,
    {
        self.previous_block
    }

    /// The cached root: the output of the last bagging, stale after any
    /// later `add_leaf`.
    pub fn root(&self) -> (r: [u8; 32])
        ensures
            r@ == self@.root,
    {
        self.mmr_root
    }

    /// Ingests one header: checks the block number, carries the leaf through
    /// occupied slots (merging hashes and weights as it climbs) until an
    /// empty slot absorbs it. Any failure leaves the table exactly as it
    /// was.
    pub fn add_leaf(&mut self, header_hash: [u8; 32], difficulty: u128, block_number: u64) -> (r:
        Result<(), Error>)
        requires
            mmr_wf(old(self)@),
        ensures
            mmr_wf(final(self)@),
            r == add_result(old(self)@, difficulty, block_number),
            final(self)@ == add_next(old(self)@, header_hash@, difficulty, block_number),
    {
        let ghost m0 = self@;
        if block_number == 0 || block_number - 1 != self.previous_block {
            return Err(Error::InvalidArgument);
        }
        // Pre-check the whole cascade so that nothing is mutated on failure:
        // find the resting height and prove every weight sum fits.
        let mut k: usize = 0;
        let mut acc: u128 = difficulty;
        loop
            invariant
                mmr_wf(m0),
                self@ == m0,
                block_ok(m0.prev_block, block_number),
                k <= 64,
                forall|j: int| 0 <= j < k ==> m0.peaks[j] is Occupied,
                acc == carry_weight(m0.peaks, difficulty, k as int),
            ensures
                k < 64,
                m0.peaks[k as int] is Empty,
                forall|j: int| 0 <= j < k ==> m0.peaks[j] is Occupied,
                acc == carry_weight(m0.peaks, difficulty, k as int),
                self@ == m0,
            decreases 64 - k,
        {
            if k == CAPACITY {
                proof {
                    lemma_first_empty_is(m0.peaks, 64);
                }
                return Err(Error::IndexOutOfBound);
            }
            let slot = self.peaks[k];
            proof {
                assert(m0.peaks[k as int] == slot@);
            }
            match slot {
                MmrPeak::Empty => {
                    break;
                },
                MmrPeak::Occupied { hash: _, weight } => {
                    if acc > u128::MAX - weight {
                        proof {
                            assert(m0.peaks[k as int]->weight == weight);
                            assert(carry_weight(m0.peaks, difficulty, k + 1) > u128::MAX);
                            lemma_first_empty_lower(m0.peaks, k + 1);
                            lemma_carry_weight_mono(
                                m0.peaks,
                                difficulty,
                                k + 1,
                                first_empty(m0.peaks),
                            );
                        }
                        return Err(Error::Overflow);
                    }
                    acc = acc + weight;
                    k = k + 1;
                },
            }
        }
        // Here slot `k` is the cascade's rest: everything below is occupied,
        // every weight sum fits.
        proof {
            lemma_first_empty_is(m0.peaks, k as int);
        }
        let rest: usize = k;
        let mut carry: [u8; 32] = header_hash;
        let mut cw: u128 = difficulty;
        let mut h: usize = 0;
        while h < rest
            invariant
                mmr_wf(m0),
                h <= rest < 64,
                m0.peaks.len() == 64,
                first_empty(m0.peaks) == rest,
                forall|j: int| 0 <= j < rest ==> m0.peaks[j] is Occupied,
                carry_weight(m0.peaks, difficulty, rest as int) <= u128::MAX,
                self@.peaks.len() == 64,
                forall|j: int| 0 <= j < h ==> self@.peaks[j] is Empty,
                forall|j: int| h <= j < 64 ==> self@.peaks[j] == m0.peaks[j],
                self@.highest == m0.highest,
                self@.prev_block == m0.prev_block,
                self@.root == m0.root,
                carry@ == carry_hash(m0.peaks, header_hash@, difficulty, h as int),
                cw == carry_weight(m0.peaks, difficulty, h as int),
            decreases rest - h,
        {
            let slot = self.peaks[h];
            proof {
                assert(self@.peaks[h as int] == slot@);
                assert(m0.peaks[h as int] == slot@);
            }
            match slot {
                MmrPeak::Occupied { hash, weight } => {
                    let merged = merge_combine(&hash, weight, &carry, cw);
                    proof {
                        assert(m0.peaks[h as int]->weight == weight);
                        assert(m0.peaks[h as int]->hash == hash@);
                        lemma_carry_weight_mono(m0.peaks, difficulty, h + 1, rest as int);
                    }
                    cw = cw + weight;
                    carry = merged;
                    let ghost prev = self@;
                    self.peaks.set(h, MmrPeak::Empty);
                    proof {
                        assert(self@.peaks =~= prev.peaks.update(h as int, PeakModel::Empty));
                    }
                },
                MmrPeak::Empty => {
                    proof {
                        assert(false);
                    }
                },
            }
            h = h + 1;
        }
        let ghost prev = self@;
        self.peaks.set(rest, MmrPeak::Occupied { hash: carry, weight: cw });
        proof {
            lemma_carry_weight_mono(m0.peaks, difficulty, 0, rest as int);
            assert(self@.peaks =~= prev.peaks.update(
                rest as int,
                PeakModel::Occupied { hash: carry@, weight: cw },
            ));
        }
        if self.highest_peak < rest as u8 {
            self.highest_peak = rest as u8;
        }
        self.previous_block = block_number;
        proof {
            let m1 = add_next(m0, header_hash@, difficulty, block_number);
            assert(self@.peaks =~= m1.peaks);
            assert(self@ == m1);
        }
        Ok(())
    }

    /// Folds every occupied peak, lowest height first, into a single root,
    /// caches it, and returns it. The peaks themselves are untouched.
    pub fn bag_peaks(&mut self) -> (r: [u8; 32])
        requires
            mmr_wf(old(self)@),
        ensures
            mmr_wf(final(self)@),
            r@ == bag_root(old(self)@.peaks),
            final(self)@ == bag_next(old(self)@),
    {
        let ghost m0 = self@;
        let mut acc: [u8; 32] = zero_digest();
        let top: usize = self.highest_peak as usize;
        let mut h: usize = 0;
        while h <= top
            invariant
                mmr_wf(m0),
                self@ == m0,
                top == m0.highest,
                top < 64,
                h <= top + 1,
                bag_root(m0.peaks) == bag_from(m0.peaks, acc@, h as int),
            decreases top + 1 - h,
        {
            let slot = self.peaks[h];
            match slot {
                MmrPeak::Occupied { hash, weight } => {
                    acc = bag_combine(&acc, &hash, weight);
                },
                MmrPeak::Empty => {},
            }
            h = h + 1;
        }
        proof {
            lemma_bag_from_empty_tail(m0.peaks, acc@, h as int);
        }
        self.mmr_root = acc;
        proof {
            assert(self@ == bag_next(m0));
        }
        acc
    }
}

} // verus!
