//! Inference for a weightless neural network whose classes are banks of
//! Bloom filters.
//!
//! An image is binarised against per-pixel thresholds, the resulting bits are
//! reordered by a fixed permutation and cut into tuples, every tuple is hashed
//! into addresses of one Bloom filter per class, and the class whose filters
//! respond most often wins.

pub mod encode;
pub mod error;
pub mod hash;
pub mod io;
pub mod permute;
pub mod tensor;
pub mod wnn;
