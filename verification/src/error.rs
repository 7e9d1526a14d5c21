//! Library-specific error type.

use vstd::prelude::*;
use crate::player::PlayerId;

verus! {

/// Every recoverable failure the engine can hand back to a caller.
#[derive(Debug)]
pub enum Error {
    /// Could not find a player with the given ID.
    PlayerNotFound(PlayerId),
    /// The given player ID was already registered.
    DuplicatePlayerId(PlayerId),
    /// The match is complete; no further mutation or role query is possible.
    MatchComplete,
    /// A rotation or registry unexpectedly could not produce a required value.
    MissingData(String),
}

} // verus!
