//! Scenario tests for the laws the engine states.

use cricket_sim::conditions::BallType;
use cricket_sim::error::Error;
use cricket_sim::form::Form;
use cricket_sim::game::stats::InningsStats;
use cricket_sim::game::{DeliveryOutcome, Dismissal, Extra, GameState, Runs};
use cricket_sim::team::Team;

fn team_of_n(id: u16, label: &str, n: usize) -> Team {
    let mut players = Vec::new();
    for i in 0..n {
        // Use ids disjoint between sides.
        players.push(((id as usize) * 100 + i, format!("{}_{}", label, i)));
    }
    Team { id, name: format!("team_{}", label), players }
}

fn dot() -> DeliveryOutcome {
    DeliveryOutcome::dot()
}

fn bowled_of(st: &InningsStats) -> DeliveryOutcome {
    DeliveryOutcome::bowled(st.batting_stats.striker(), "bowler")
}

/// Over and ball accounting: after seven legal deliveries of a six-ball
/// over, one over is complete and one ball of the next has been bowled.
#[test]
fn over_ball_accounting() {
    let batting = team_of_n(1, "BAT", 11);
    let bowling = team_of_n(2, "BOWL", 11);
    let mut st = InningsStats::new(&batting, &bowling, 6).unwrap();
    for _ in 0..7 {
        st.update(&dot()).unwrap();
    }
    assert_eq!(st.overs, 1);
    assert_eq!(st.balls, 1);
    // A wide does not count toward the over.
    let wide = DeliveryOutcome {
        wicket: None,
        runs: Runs::Running(0),
        extras: vec![Extra::Wide],
    };
    st.update(&wide).unwrap();
    assert_eq!(st.overs, 1);
    assert_eq!(st.balls, 1);
}

/// Batter runs plus team extras always equal the team-runs query.
#[test]
fn team_runs_decomposition() {
    let batting = team_of_n(1, "BAT", 11);
    let bowling = team_of_n(2, "BOWL", 11);
    let mut st = InningsStats::new(&batting, &bowling, 6).unwrap();
    st.update(&DeliveryOutcome::running(3)).unwrap();
    st.update(&DeliveryOutcome::four()).unwrap();
    let with_extras = DeliveryOutcome {
        wicket: None,
        runs: Runs::Running(1),
        extras: vec![Extra::Wide, Extra::Bye(Runs::Running(2)), Extra::Penalty(5)],
    };
    st.update(&with_extras).unwrap();
    let batter_runs: u16 = st.batting_stats.batters.iter().map(|(_, b)| b.runs).sum();
    assert_eq!(batter_runs, 3 + 4 + 1);
    assert_eq!(st.batting_stats.extras, 1 + 2 + 5);
    assert_eq!(st.runs(), batter_runs + st.batting_stats.extras);
    assert_eq!(st.runs(), 16);
}

/// Three batters a side: eleven dots, a wicket, dots, and the second wicket
/// cannot be replaced, so the innings ends all out with two wickets and no
/// runs.
#[test]
fn all_out_with_three_batters() {
    let batting = team_of_n(1, "BAT", 3);
    let bowling = team_of_n(2, "BOWL", 11);
    let mut st = InningsStats::new(&batting, &bowling, 6).unwrap();
    for _ in 0..11 {
        st.update(&dot()).unwrap();
    }
    assert!(!st.all_out());
    let w1 = bowled_of(&st);
    st.update(&w1).unwrap();
    assert!(!st.all_out());
    for _ in 0..3 {
        st.update(&dot()).unwrap();
    }
    let w2 = bowled_of(&st);
    st.update(&w2).unwrap();
    assert!(st.all_out());
    assert_eq!(st.wickets(), 2);
    assert_eq!(st.runs(), 0);
}

/// Odd running runs rotate the strike; even runs and boundaries never do;
/// odd bye sub-runs compose with the running runs by parity.
#[test]
fn strike_rotation_parity() {
    let batting = team_of_n(1, "BAT", 11);
    let bowling = team_of_n(2, "BOWL", 11);
    let mut st = InningsStats::new(&batting, &bowling, 60).unwrap();
    let opener = st.batting_stats.striker();
    let other = st.batting_stats.non_striker();

    st.update(&DeliveryOutcome::running(1)).unwrap();
    assert_eq!(st.batting_stats.striker(), other);
    st.update(&DeliveryOutcome::running(3)).unwrap();
    assert_eq!(st.batting_stats.striker(), opener);
    st.update(&DeliveryOutcome::running(2)).unwrap();
    assert_eq!(st.batting_stats.striker(), opener);
    st.update(&DeliveryOutcome::four()).unwrap();
    assert_eq!(st.batting_stats.striker(), opener);
    st.update(&DeliveryOutcome::six()).unwrap();
    assert_eq!(st.batting_stats.striker(), opener);
    // One run and one bye: the two rotations cancel.
    let run_and_bye = DeliveryOutcome {
        wicket: None,
        runs: Runs::Running(1),
        extras: vec![Extra::Bye(Runs::Running(1))],
    };
    st.update(&run_and_bye).unwrap();
    assert_eq!(st.batting_stats.striker(), opener);
    // A lone odd leg-bye rotates.
    let leg_bye = DeliveryOutcome {
        wicket: None,
        runs: Runs::Running(0),
        extras: vec![Extra::LegBye(Runs::Running(1))],
    };
    st.update(&leg_bye).unwrap();
    assert_eq!(st.batting_stats.striker(), other);
}

/// No bowler bowls two consecutive overs; the reference rotation alternates
/// between the two designated bowlers.
#[test]
fn no_consecutive_overs() {
    let batting = team_of_n(1, "BAT", 11);
    let bowling = team_of_n(2, "BOWL", 11);
    let mut st = InningsStats::new(&batting, &bowling, 6).unwrap();
    let first = st.bowling_stats.current_bowler();
    let mut last = first;
    for _over in 0..6 {
        for _ in 0..6 {
            st.update(&dot()).unwrap();
        }
        let next = st.bowling_stats.current_bowler();
        assert_ne!(next, last);
        last = next;
    }
}

/// The follow-on fires at a deficit of exactly 150 at the midpoint of the
/// schedule: the side that trails bats again.
#[test]
fn follow_on_at_exactly_150() {
    let team_a = team_of_n(1, "A", 11);
    let team_b = team_of_n(2, "B", 11);
    let a_id = team_a.id;
    let b_id = team_b.id;
    let mut state = GameState::new(Form::test(), team_a, team_b).unwrap();
    // Side A bats first and declares at 150.
    state.update(&DeliveryOutcome::running(150)).unwrap();
    state.declare().unwrap();
    // Side B declares with nothing on the board: it trails by exactly 150
    // after an even number of completed innings, so it bats again.
    state.declare().unwrap();
    assert!(!state.complete());
    state.update(&DeliveryOutcome::running(1)).unwrap();
    let a_ref = team_of_n(a_id, "A", 11);
    let b_ref = team_of_n(b_id, "B", 11);
    assert_eq!(state.team_score(&a_ref), 150);
    assert_eq!(state.team_score(&b_ref), 1);
}

/// One run short of the follow-on threshold, the sides swap as normal.
#[test]
fn no_follow_on_at_149() {
    let team_a = team_of_n(1, "A", 11);
    let team_b = team_of_n(2, "B", 11);
    let a_id = team_a.id;
    let mut state = GameState::new(Form::test(), team_a, team_b).unwrap();
    state.update(&DeliveryOutcome::running(149)).unwrap();
    state.declare().unwrap();
    state.declare().unwrap();
    assert!(!state.complete());
    state.update(&DeliveryOutcome::running(1)).unwrap();
    let a_ref = team_of_n(a_id, "A", 11);
    // Side A is batting again (normal swap), so the run went to A.
    assert_eq!(state.team_score(&a_ref), 150);
}

/// In the last scheduled innings the match completes the moment the batting
/// side overtakes, and no further delivery is accepted.
#[test]
fn chase_completes_match() {
    let team_a = team_of_n(1, "A", 11);
    let team_b = team_of_n(2, "B", 11);
    let mut form = Form::t20();
    form.overs_per_innings = Some(20);
    let mut state = GameState::new(form, team_a, team_b).unwrap();
    state.update(&DeliveryOutcome::running(10)).unwrap();
    state.declare().unwrap();
    // Side B chases 10 in the last scheduled innings.
    state.update(&DeliveryOutcome::running(10)).unwrap();
    assert!(!state.complete());
    state.update(&DeliveryOutcome::running(1)).unwrap();
    assert!(state.complete());
    let again = state.update(&DeliveryOutcome::dot());
    assert!(matches!(again, Err(Error::MatchComplete)));
}

/// An innings closes the moment the overs cap is reached.
#[test]
fn overs_cap_closes_innings() {
    let team_a = team_of_n(1, "A", 11);
    let team_b = team_of_n(2, "B", 11);
    let form = Form {
        innings: 1,
        overs_per_innings: Some(1),
        balls_per_over: 2,
        batsmen_per_side: 11,
        ball_type: BallType::WhiteLeather,
    };
    let mut state = GameState::new(form, team_a, team_b).unwrap();
    state.update(&dot()).unwrap();
    state.update(&dot()).unwrap();
    // First innings closed on the cap; the other side is now batting.
    assert!(!state.complete());
    state.update(&dot()).unwrap();
    state.update(&dot()).unwrap();
    assert!(state.complete());
}

/// When the side that just batted is still behind with no batting
/// opportunity left to it, the match is called without playing the final
/// scheduled innings.
#[test]
fn early_call_when_chase_impossible() {
    let team_a = team_of_n(1, "A", 11);
    let team_b = team_of_n(2, "B", 11);
    let mut state = GameState::new(Form::test(), team_a, team_b).unwrap();
    state.declare().unwrap();
    state.update(&DeliveryOutcome::running(10)).unwrap();
    state.declare().unwrap();
    state.update(&DeliveryOutcome::running(5)).unwrap();
    state.declare().unwrap();
    // Three of four scheduled innings played, and the side that just batted
    // trails ten to five: the last innings is never played.
    assert!(state.complete());
    let a_ref = team_of_n(1, "A", 11);
    let b_ref = team_of_n(2, "B", 11);
    assert_eq!(state.team_score(&a_ref), 5);
    assert_eq!(state.team_score(&b_ref), 10);
}

/// Replaying the same delivery log against a fresh match twice yields
/// identical cards.
#[test]
fn replay_is_deterministic() {
    let log = vec![
        DeliveryOutcome::running(1),
        DeliveryOutcome::four(),
        DeliveryOutcome {
            wicket: None,
            runs: Runs::Running(0),
            extras: vec![Extra::Wide, Extra::LegBye(Runs::Running(1))],
        },
        DeliveryOutcome::dot(),
        DeliveryOutcome::six(),
        DeliveryOutcome::running(2),
        DeliveryOutcome::dot(),
    ];
    let run = |log: &Vec<DeliveryOutcome>| -> GameState {
        let team_a = team_of_n(1, "A", 11);
        let team_b = team_of_n(2, "B", 11);
        let mut state = GameState::new(Form::test(), team_a, team_b).unwrap();
        for ball in log {
            state.update(ball).unwrap();
        }
        state
    };
    let s1 = run(&log);
    let s2 = run(&log);
    let a_ref = team_of_n(1, "A", 11);
    let b_ref = team_of_n(2, "B", 11);
    assert_eq!(s1.team_score(&a_ref), s2.team_score(&a_ref));
    assert_eq!(s1.team_score(&b_ref), s2.team_score(&b_ref));
    let i1 = s1.current_innings_stats.as_ref().unwrap();
    let i2 = s2.current_innings_stats.as_ref().unwrap();
    assert_eq!(i1.overs, i2.overs);
    assert_eq!(i1.balls, i2.balls);
    assert_eq!(i1.batting_stats.batters.len(), i2.batting_stats.batters.len());
    for (r1, r2) in i1.batting_stats.batters.iter().zip(i2.batting_stats.batters.iter()) {
        assert_eq!(r1.0, r2.0);
        assert_eq!(r1.1.runs, r2.1.runs);
        assert_eq!(r1.1.balls, r2.1.balls);
        assert_eq!(r1.1.fours, r2.1.fours);
        assert_eq!(r1.1.sixes, r2.1.sixes);
        assert_eq!(r1.1.out.is_some(), r2.1.out.is_some());
    }
    for (b1, b2) in i1.bowling_stats.bowler_stats.iter().zip(
        i2.bowling_stats.bowler_stats.iter(),
    ) {
        assert_eq!(b1.0, b2.0);
        assert_eq!(b1.1.balls, b2.1.balls);
        assert_eq!(b1.1.runs, b2.1.runs);
        assert_eq!(b1.1.wickets, b2.1.wickets);
        assert_eq!(b1.1.maiden_overs, b2.1.maiden_overs);
        assert_eq!(b1.1.wides, b2.1.wides);
        assert_eq!(b1.1.no_balls, b2.1.no_balls);
    }
}

/// A maiden over is credited only when the bowler concedes no chargeable
/// run; byes do not spoil it, a wide does.
#[test]
fn maiden_overs_credited() {
    let batting = team_of_n(1, "BAT", 11);
    let bowling = team_of_n(2, "BOWL", 11);
    let mut st = InningsStats::new(&batting, &bowling, 6).unwrap();
    let opener_bowler = st.bowling_stats.current_bowler();
    // A maiden of dots and byes: byes are the team's, not the bowler's.
    for _ in 0..5 {
        st.update(&dot()).unwrap();
    }
    let bye = DeliveryOutcome {
        wicket: None,
        runs: Runs::Running(0),
        extras: vec![Extra::Bye(Runs::Running(2))],
    };
    st.update(&bye).unwrap();
    assert_eq!(st.bowling_stats.bowler_stats[0].1.maiden_overs, 1);
    assert_eq!(st.bowling_stats.bowler_stats[0].1.runs, 0);
    // A wide spoils the next over's maiden and costs a run.
    let wide = DeliveryOutcome {
        wicket: None,
        runs: Runs::Running(0),
        extras: vec![Extra::Wide],
    };
    st.update(&wide).unwrap();
    for _ in 0..6 {
        st.update(&dot()).unwrap();
    }
    let second = &st.bowling_stats.bowler_stats[1];
    assert_ne!(second.0, opener_bowler);
    assert_eq!(second.1.maiden_overs, 0);
    assert_eq!(second.1.runs, 1);
    assert_eq!(second.1.wides, 1);
}

/// The ball-wear counters track every delivery and every run.
#[test]
fn ball_wear_counters() {
    let team_a = team_of_n(1, "A", 11);
    let team_b = team_of_n(2, "B", 11);
    let mut state = GameState::new(Form::test(), team_a, team_b).unwrap();
    assert_eq!(state.conditions.ball.ball_type, BallType::RedLeather);
    state.update(&DeliveryOutcome::four()).unwrap();
    let with_extras = DeliveryOutcome {
        wicket: None,
        runs: Runs::Running(1),
        extras: vec![Extra::NoBall, Extra::Penalty(2)],
    };
    state.update(&with_extras).unwrap();
    assert_eq!(state.conditions.ball.deliveries, 2);
    assert_eq!(state.conditions.ball.runs, 4 + 1 + 1 + 2);
}

/// A dismissal must name the batter its kind removes: anyone else is
/// rejected with a not-found error and the state is untouched.
#[test]
fn wicket_must_name_the_crease() {
    let team_a = team_of_n(1, "A", 11);
    let team_b = team_of_n(2, "B", 11);
    let mut state = GameState::new(Form::test(), team_a, team_b).unwrap();
    let bogus = DeliveryOutcome::bowled(9999, "bowler");
    let r = state.update(&bogus);
    assert!(matches!(r, Err(Error::PlayerNotFound(9999))));
    assert_eq!(state.conditions.ball.deliveries, 0);
    // The non-striker run-out names the non-striker, and only that batter.
    let st = state.current_innings_stats.as_ref().unwrap();
    let non_striker = st.batting_stats.non_striker();
    let run_out = DeliveryOutcome {
        wicket: Some((non_striker, Dismissal::RunOutNonStriker("fielder".to_string()))),
        runs: Runs::Running(0),
        extras: vec![],
    };
    state.update(&run_out).unwrap();
    let st = state.current_innings_stats.as_ref().unwrap();
    assert_eq!(st.wickets(), 1);
}
