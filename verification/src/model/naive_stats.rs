//! A model that just uses the batters' and bowlers' career averages. The
//! probability math lives with the model's host, outside the verified core.

use vstd::prelude::*;

verus! {

/// The career-averages model.
pub struct NaiveStatsModel {}

} // verus!
