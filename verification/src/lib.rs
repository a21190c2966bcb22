//! Quest state-transition and consensus-gating engine for a narrative RPG.
//!
//! The crate owns canonical player state and a write-once quest registry,
//! translates player actions into deterministic consequence lists, tracks a
//! player's story progression as a hash-chained sequence of states, and
//! finalizes proposed transitions once a quorum of validator signatures has
//! been collected.
//!
//! Score-like quantities (mastery, relationships, reputation, authenticity)
//! are fixed-point integers counted in thousandths, so that a score of `1.0`
//! is the integer `1000`.

use vstd::prelude::*;

pub mod assoc;
pub mod catalog;
mod clock;
pub mod constants;
pub mod ordinals;
pub mod registry;
pub mod scores;
pub mod store;
pub mod strutil;
pub mod trac;

verus! {

/// The failure kinds that library operations report.
///
/// Every validation failure is returned to the caller as one of these typed
/// values; nothing is retried and no partial mutation survives a failure.
#[derive(Clone, Copy, Debug, PartialEq, Eq, Structural)]
pub enum EnochianError {
    /// The named player id is not in the store.
    PlayerNotFound,
    /// The named quest id is not in the registry.
    QuestNotFound,
    /// The named transition id is not pending.
    TransitionNotFound,
    /// A player with this id already exists.
    PlayerAlreadyExists,
    /// A quest with this id is already registered; registration is write-once.
    QuestAlreadyExists,
    /// The quest's authenticity score is below the configured threshold.
    AuthenticityBelowThreshold,
    /// The quest's difficulty is outside the range 1 to 10.
    InvalidDifficulty,
    /// The quest requires more energy than a player can ever hold.
    EnergyRequirementTooHigh,
    /// The player's current energy is below the quest's requirement.
    InsufficientEnergy,
    /// The player already has the maximum number of concurrent active quests.
    ConcurrencyLimitReached,
    /// The quest was completed earlier and cannot be started again.
    QuestAlreadyCompleted,
    /// The quest is already in the player's active set.
    QuestAlreadyActive,
    /// The quest is not in the player's active set.
    QuestNotActive,
    /// No story state has been initialized for the transition log.
    NoCurrentState,
    /// The validator has already signed this transition; one attestation
    /// per validator counts toward the quorum.
    ValidatorAlreadySigned,
    /// The pending-transition collection is full.
    PendingLimitReached,
    /// A supplied value is outside its declared bound.
    InvariantViolation,
    /// A payload at the boundary is malformed.
    SerializationError,
    /// A process-wide configuration constraint does not hold.
    SacredConstraintViolation,
}

/// Checks the process-wide content constraints: the catalog must expose the
/// expected tradition and governor counts, and the Enochian tradition must
/// carry its required weighting.
pub fn validate_sacred_constraints() -> (r: Result<(), EnochianError>)
    ensures
        r is Ok,
{
    if catalog::get_tradition_count() != constants::TRADITION_COUNT {
        return Err(EnochianError::SacredConstraintViolation);
    }
    if catalog::get_governor_count() != constants::GOVERNOR_COUNT {
        return Err(EnochianError::SacredConstraintViolation);
    }
    if catalog::get_tradition_weight("Enochian") != constants::ENOCHIAN_WEIGHTING_MILLI {
        return Err(EnochianError::SacredConstraintViolation);
    }
    Ok(())
}

/// Initializes the engine by checking the process-wide constraints.
pub fn initialize() -> (r: Result<(), EnochianError>)
    ensures
        r is Ok,
{
    validate_sacred_constraints()
}

} // verus!
