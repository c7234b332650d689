//! A Merkle Mountain Range accumulator over block headers.
//!
//! Each leaf carries a proof-of-work difficulty weight. The accumulator keeps
//! one slot per height (a peak holds a complete subtree of `2^height` leaves),
//! ingests headers one at a time with a binary-counter carry cascade, and
//! folds the live peaks into a single 32-byte commitment.

pub mod accumulator;
pub mod digest;
pub mod laws;
