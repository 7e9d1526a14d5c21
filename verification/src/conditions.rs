//! Conditions of a match such as weather and ball state.

use vstd::prelude::*;

verus! {

/// The style and manufacturer of the cricket ball.
#[derive(Clone, Copy, PartialEq, Eq, Structural, Debug)]
pub enum BallType {
    /// Used in test matches.
    RedLeather,
    /// White ball is used in limited overs for visibility under floodlights.
    WhiteLeather,
}

/// Style and conditions of a ball: two wear proxies updated once per delivery.
#[derive(Clone, Copy, Debug)]
pub struct Ball {
    /// The style of ball.
    pub ball_type: BallType,
    /// A proxy for wear-and-tear due to scuffing the pitch.
    pub deliveries: u16,
    /// A proxy for wear-and-tear due to batting.
    pub runs: u16,
}

#[derive(Clone, Copy, Debug)]
pub struct Weather {}

/// Tracks other conditions not related to the players or sides.
#[derive(Clone, Copy, Debug)]
pub struct Conditions {
    pub ball: Ball,
    pub weather: Weather,
}

} // verus!
