//! Fingerprints of normalized functions.

pub mod cfg;
pub mod hash;
