//! Rating types for a model that doesn't depend on any data.

use vstd::prelude::*;
use crate::model::PlayerRating;

verus! {

/// All skill ratings grouped; every group is empty.
#[derive(Debug, Default)]
pub struct PlayerRatingNull {
    pub batting: BatRatingNull,
    pub bowling: BowlRatingNull,
    pub fielding: FieldRatingNull,
}

impl PlayerRating for PlayerRatingNull {}

#[derive(Debug, Default)]
pub struct BatRatingNull {}

#[derive(Debug, Default)]
pub struct BowlRatingNull {}

/// Ratings for fielding and wicket-keeping.
#[derive(Debug, Default)]
pub struct FieldRatingNull {}

/// A very simple model that doesn't use player stats.
pub struct NullModel {}

} // verus!
