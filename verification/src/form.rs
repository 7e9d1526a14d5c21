//! Struct to define the format of a match.

use vstd::prelude::*;
use crate::conditions::{Ball, BallType};

verus! {

/// Defines the format of a match.
#[derive(Clone, Copy, Debug)]
pub struct Form {
    /// The type and style of ball used.
    pub ball_type: BallType,
    /// The number of turns each side has to bat.
    pub innings: u8,
    /// The number of overs in an innings, if limited.
    pub overs_per_innings: Option<u16>,
    /// The number of balls per over.
    pub balls_per_over: u8,
    /// The number of batters each side may send in per innings.
    pub batsmen_per_side: u8,
}

impl Form {
    /// A format is usable when every side has a turn to bat, overs are
    /// non-empty, an overs cap (if any) admits at least one over, and there
    /// are always two batters to stand at the crease.
    pub open spec fn wf(self) -> bool {
        &&& self.innings >= 1
        &&& self.balls_per_over >= 1
        &&& self.batsmen_per_side >= 2
        &&& (match self.overs_per_innings {
            Some(c) => c >= 1,
            None => true,
        })
    }

    /// Standard test format. Could also be called first_class.
    pub fn test() -> (f: Form)
        ensures
            f == Form::default_spec(),
            f.wf(),
    {
        Form::default()
    }

    /// List-A, e.g. One Day International (ODI).
    pub fn odi() -> (f: Form)
        ensures
            f == (Form {
                innings: 1,
                overs_per_innings: Some(50u16),
                ball_type: BallType::WhiteLeather,
                ..Form::default_spec()
            }),
            f.wf(),
    {
        Form {
            innings: 1,
            overs_per_innings: Some(50),
            ball_type: BallType::WhiteLeather,
            ..Form::default()
        }
    }

    /// Twenty20.
    pub fn t20() -> (f: Form)
        ensures
            f == (Form {
                innings: 1,
                overs_per_innings: Some(20u16),
                ball_type: BallType::WhiteLeather,
                ..Form::default_spec()
            }),
            f.wf(),
    {
        Form {
            innings: 1,
            overs_per_innings: Some(20),
            ball_type: BallType::WhiteLeather,
            ..Form::default()
        }
    }

    /// The two-innings, unlimited-overs format with eleven batters a side.
    pub open spec fn default_spec() -> Form {
        Form {
            innings: 2,
            overs_per_innings: None,
            balls_per_over: 6,
            batsmen_per_side: 11,
            ball_type: BallType::RedLeather,
        }
    }

    /// Generate a fresh ball of this format's type.
    pub(crate) fn new_ball(&self) -> (b: Ball)
        ensures
            b == (Ball { ball_type: self.ball_type, deliveries: 0u16, runs: 0u16 }),
    {
        Ball { ball_type: self.ball_type, deliveries: 0, runs: 0 }
    }
}

impl Default for Form {
    fn default() -> (f: Form)
        ensures
            f == Form::default_spec(),
            f.wf(),
    {
        Form {
            innings: 2,
            overs_per_innings: None,
            balls_per_over: 6,
            batsmen_per_side: 11,
            ball_type: BallType::RedLeather,
        }
    }
}

} // verus!
