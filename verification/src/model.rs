//! The interface to the delivery-outcome models.
//!
//! A model consumes a read-only snapshot of the match (striker, non-striker,
//! bowler, conditions) and produces one [`crate::game::DeliveryOutcome`].
//! The engine treats that outcome as opaque input, so the models themselves
//! (and their probability math) live outside the verified core; only the
//! rating marker types they hang player data on are defined here.

use vstd::prelude::*;

pub mod naive_stats;
pub mod null;
pub use naive_stats::NaiveStatsModel;
pub use null::{NullModel, PlayerRatingNull};

verus! {

/// Marker capability for a player-rating scheme a model can consume.
pub trait PlayerRating {}

} // verus!
