//! Delivery-by-delivery simulation engine for a multi-innings bat-and-ball
//! match: match state machine, innings statistics, and lineup rotation.

pub mod conditions;
pub mod error;
pub mod form;
pub mod game;
pub mod model;
pub mod player;
pub mod team;
