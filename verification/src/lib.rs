//! Combinatorial core of cohomological reward-hacking detection.
//!
//! The detector integrates the value 1-form of an agent around its loop of
//! states and flags reward hacking when the holonomy is non-zero while the
//! agent improves locally and cycles globally.  All real-valued arithmetic
//! (distances, integrals, singular values) happens around this crate; what
//! stands here, with its contracts, are the detector's combinatorial
//! decisions: which edges close the loop, which edges a face walks and in
//! which orientation, the coboundary and difference operators' entries, which
//! edges can be checked, the H¹ channel count, the step counters and sticky
//! flags of the trackers, the final verdict, and the fleet's agent registry.
//! Guards that merely return early on an empty input stay with the
//! real-valued code around it.

pub mod cochain;
pub mod dec;
pub mod h1;
pub mod streak;
pub mod divergence;
pub mod verdict;
pub mod conservation;
pub mod fleet;
