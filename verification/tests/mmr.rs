use mmr_peaks::accumulator::{Error, MmrPeak, MmrPeaks};

/// The merge-combine preimage, recomputed independently of the library:
/// existing hash, existing weight (16B LE), new hash, new weight (16B LE).
fn merge_combine_ref(eh: &[u8; 32], ew: u128, nh: &[u8; 32], nw: u128) -> [u8; 32] {
    let mut pre: Vec<u8> = Vec::new();
    pre.extend_from_slice(eh);
    pre.extend_from_slice(&ew.to_le_bytes());
    pre.extend_from_slice(nh);
    pre.extend_from_slice(&nw.to_le_bytes());
    ckb_hash::blake2b_256(&pre)
}

/// The bag-combine preimage, recomputed independently of the library:
/// accumulator, peak hash, peak weight (16B LE).
fn bag_combine_ref(acc: &[u8; 32], ph: &[u8; 32], pw: u128) -> [u8; 32] {
    let mut pre: Vec<u8> = Vec::new();
    pre.extend_from_slice(acc);
    pre.extend_from_slice(ph);
    pre.extend_from_slice(&pw.to_le_bytes());
    ckb_hash::blake2b_256(&pre)
}

fn occupied(hash: [u8; 32], weight: u128) -> MmrPeak {
    MmrPeak::Occupied { hash, weight }
}

#[test]
fn fresh_table_is_empty() {
    let t = MmrPeaks::new(99);
    for h in 0..64 {
        assert_eq!(t.peak_at(h), MmrPeak::Empty);
    }
    assert_eq!(t.highest_peak(), 0);
    assert_eq!(t.previous_block(), 99);
    assert_eq!(t.root(), [0u8; 32]);
}

#[test]
fn single_leaf() {
    let h = [0x11u8; 32];
    let mut t = MmrPeaks::new(99);
    assert_eq!(t.add_leaf(h, 7, 100), Ok(()));
    assert_eq!(t.peak_at(0), occupied(h, 7));
    for j in 1..64 {
        assert_eq!(t.peak_at(j), MmrPeak::Empty);
    }
    assert_eq!(t.highest_peak(), 0);
    assert_eq!(t.previous_block(), 100);
}

#[test]
fn two_leaves_carry() {
    let h1 = [0x11u8; 32];
    let h2 = [0x22u8; 32];
    let mut t = MmrPeaks::new(99);
    assert_eq!(t.add_leaf(h1, 1, 100), Ok(()));
    assert_eq!(t.add_leaf(h2, 2, 101), Ok(()));
    assert_eq!(t.peak_at(0), MmrPeak::Empty);
    assert_eq!(t.peak_at(1), occupied(merge_combine_ref(&h1, 1, &h2, 2), 3));
    for j in 2..64 {
        assert_eq!(t.peak_at(j), MmrPeak::Empty);
    }
    assert_eq!(t.highest_peak(), 1);
    assert_eq!(t.previous_block(), 101);
}

#[test]
fn three_leaves() {
    let h1 = [0x11u8; 32];
    let h2 = [0x22u8; 32];
    let h3 = [0x33u8; 32];
    let mut t = MmrPeaks::new(99);
    assert_eq!(t.add_leaf(h1, 1, 100), Ok(()));
    assert_eq!(t.add_leaf(h2, 2, 101), Ok(()));
    assert_eq!(t.add_leaf(h3, 4, 102), Ok(()));
    assert_eq!(t.peak_at(0), occupied(h3, 4));
    assert_eq!(t.peak_at(1), occupied(merge_combine_ref(&h1, 1, &h2, 2), 3));
    assert_eq!(t.highest_peak(), 1);
}

#[test]
fn four_leaves_cascade() {
    // Two carries in a row: the fourth leaf merges through heights 0 and 1.
    let h1 = [0x41u8; 32];
    let h2 = [0x42u8; 32];
    let h3 = [0x43u8; 32];
    let h4 = [0x44u8; 32];
    let mut t = MmrPeaks::new(0);
    assert_eq!(t.add_leaf(h1, 10, 1), Ok(()));
    assert_eq!(t.add_leaf(h2, 20, 2), Ok(()));
    assert_eq!(t.add_leaf(h3, 30, 3), Ok(()));
    assert_eq!(t.add_leaf(h4, 40, 4), Ok(()));
    let m12 = merge_combine_ref(&h1, 10, &h2, 20);
    let m34 = merge_combine_ref(&h3, 30, &h4, 40);
    let m = merge_combine_ref(&m12, 30, &m34, 70);
    assert_eq!(t.peak_at(0), MmrPeak::Empty);
    assert_eq!(t.peak_at(1), MmrPeak::Empty);
    assert_eq!(t.peak_at(2), occupied(m, 100));
    assert_eq!(t.highest_peak(), 2);
}

#[test]
fn bag_order_is_low_to_high() {
    // Peaks at heights 0 and 2; bagging must fold the height-0 peak first.
    let a = [0x0au8; 32];
    let b = [0x0bu8; 32];
    let mut slots = vec![MmrPeak::Empty; 64];
    slots[0] = occupied(a, 5);
    slots[2] = occupied(b, 9);
    let mut t = MmrPeaks::from_parts(slots, 2, 7, [0u8; 32]).unwrap();
    let root = t.bag_peaks();
    let zero = [0u8; 32];
    let increasing = bag_combine_ref(&bag_combine_ref(&zero, &a, 5), &b, 9);
    let decreasing = bag_combine_ref(&bag_combine_ref(&zero, &b, 9), &a, 5);
    assert_eq!(root, increasing);
    assert_ne!(root, decreasing);
}

#[test]
fn bag_twice_same_root() {
    let mut t = MmrPeaks::new(99);
    assert_eq!(t.add_leaf([0x51u8; 32], 3, 100), Ok(()));
    assert_eq!(t.add_leaf([0x52u8; 32], 5, 101), Ok(()));
    assert_eq!(t.add_leaf([0x53u8; 32], 8, 102), Ok(()));
    let r1 = t.bag_peaks();
    let r2 = t.bag_peaks();
    assert_eq!(r1, r2);
    assert_eq!(t.root(), r1);
}

#[test]
fn bag_of_empty_table_is_zero() {
    let mut t = MmrPeaks::new(0);
    assert_eq!(t.bag_peaks(), [0u8; 32]);
}

#[test]
fn wrong_block_number_rejected_unchanged() {
    let h = [0x61u8; 32];
    let mut t = MmrPeaks::new(99);
    assert_eq!(t.add_leaf(h, 1, 99), Err(Error::InvalidArgument));
    assert_eq!(t.add_leaf(h, 1, 101), Err(Error::InvalidArgument));
    assert_eq!(t.add_leaf(h, 1, 0), Err(Error::InvalidArgument));
    for j in 0..64 {
        assert_eq!(t.peak_at(j), MmrPeak::Empty);
    }
    assert_eq!(t.highest_peak(), 0);
    assert_eq!(t.previous_block(), 99);
    assert_eq!(t.root(), [0u8; 32]);
}

#[test]
fn block_number_after_max_rejected() {
    // u64::MAX has no successor, so nothing more can be ingested.
    let mut t = MmrPeaks::new(u64::MAX);
    assert_eq!(t.add_leaf([0x62u8; 32], 1, 0), Err(Error::InvalidArgument));
    assert_eq!(t.previous_block(), u64::MAX);
}

#[test]
fn capacity_exhaustion_rejected_unchanged() {
    // All 64 slots occupied: the cascade runs off the top.
    let mut slots = Vec::new();
    for i in 0..64u8 {
        slots.push(occupied([i; 32], 1));
    }
    let mut t = MmrPeaks::from_parts(slots, 63, 10, [0u8; 32]).unwrap();
    assert_eq!(t.add_leaf([0x70u8; 32], 1, 11), Err(Error::IndexOutOfBound));
    for j in 0..64 {
        assert_eq!(t.peak_at(j), occupied([j as u8; 32], 1));
    }
    assert_eq!(t.highest_peak(), 63);
    assert_eq!(t.previous_block(), 10);
}

#[test]
fn weight_overflow_rejected_unchanged() {
    let h1 = [0x71u8; 32];
    let mut t = MmrPeaks::new(99);
    assert_eq!(t.add_leaf(h1, u128::MAX, 100), Ok(()));
    assert_eq!(t.add_leaf([0x72u8; 32], 1, 101), Err(Error::Overflow));
    assert_eq!(t.peak_at(0), occupied(h1, u128::MAX));
    assert_eq!(t.previous_block(), 100);
}

#[test]
fn from_parts_validates() {
    // Wrong slot count.
    assert!(MmrPeaks::from_parts(vec![MmrPeak::Empty; 63], 0, 0, [0u8; 32]).is_none());
    // Highest-occupied marker out of range.
    assert!(MmrPeaks::from_parts(vec![MmrPeak::Empty; 64], 64, 0, [0u8; 32]).is_none());
    // A peak above the marker.
    let mut slots = vec![MmrPeak::Empty; 64];
    slots[5] = occupied([1u8; 32], 1);
    assert!(MmrPeaks::from_parts(slots.clone(), 3, 0, [0u8; 32]).is_none());
    // The same peaks with the marker high enough are accepted.
    let t = MmrPeaks::from_parts(slots, 5, 42, [9u8; 32]).unwrap();
    assert_eq!(t.peak_at(5), occupied([1u8; 32], 1));
    assert_eq!(t.highest_peak(), 5);
    assert_eq!(t.previous_block(), 42);
    assert_eq!(t.root(), [9u8; 32]);
}

#[test]
fn end_to_end_vector() {
    // Three headers, weights 1, 2, 4, block numbers 100..102, from an empty
    // table at previous block 99. The table ends with the third leaf at
    // height 0 and the merge of the first two at height 1; the root bags
    // them in increasing height order.
    let h1 = [0xa1u8; 32];
    let h2 = [0xa2u8; 32];
    let h3 = [0xa3u8; 32];
    let mut t = MmrPeaks::new(99);
    assert_eq!(t.add_leaf(h1, 1, 100), Ok(()));
    assert_eq!(t.add_leaf(h2, 2, 101), Ok(()));
    assert_eq!(t.add_leaf(h3, 4, 102), Ok(()));
    let root = t.bag_peaks();
    let zero = [0u8; 32];
    let m12 = merge_combine_ref(&h1, 1, &h2, 2);
    let expected = bag_combine_ref(&bag_combine_ref(&zero, &h3, 4), &m12, 3);
    assert_eq!(root, expected);
    assert_eq!(t.root(), expected);
}

#[test]
fn add_after_bag_leaves_cached_root_stale() {
    let mut t = MmrPeaks::new(99);
    assert_eq!(t.add_leaf([0x91u8; 32], 1, 100), Ok(()));
    let r1 = t.bag_peaks();
    assert_eq!(t.add_leaf([0x92u8; 32], 2, 101), Ok(()));
    // The cache still holds the old root until the next bagging.
    assert_eq!(t.root(), r1);
    let r2 = t.bag_peaks();
    assert_ne!(r1, r2);
    assert_eq!(t.root(), r2);
}
