//! Process-wide constants of the engine.

use vstd::prelude::*;

verus! {

/// Number of sacred traditions the content catalog exposes.
pub const TRADITION_COUNT: usize = 26;

/// Number of Governor Angels the content catalog exposes.
pub const GOVERNOR_COUNT: usize = 91;

/// Number of Aethyr tiers gating content availability.
pub const AETHYR_COUNT: usize = 30;

/// Scale of fixed-point scores: 1000 thousandths stand for a score of 1.0.
pub const SCORE_SCALE: i64 = 1000;

/// Minimum authenticity score for quest registration, in thousandths (0.95).
pub const AUTHENTICITY_THRESHOLD_MILLI: i64 = 950;

/// Required weighting of the Enochian tradition, in thousandths (0.6).
pub const ENOCHIAN_WEIGHTING_MILLI: i64 = 600;

/// Maximum energy a player can hold; energy always stays in `[0, MAX_ENERGY]`.
pub const MAX_ENERGY: u32 = 25;

/// Maximum inscription payload size in bytes (1 MiB).
pub const MAX_ORDINALS_SIZE: usize = 1048576;

} // verus!
