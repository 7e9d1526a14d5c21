//! Unit tests for the value types, rotations, and the player registry.

use cricket_sim::conditions::BallType;
use cricket_sim::error::Error;
use cricket_sim::form::Form;
use cricket_sim::game::{DeliveryOutcome, Dismissal, Extra, GameState, Runs};
use cricket_sim::model::PlayerRatingNull;
use cricket_sim::player::PlayerDb;
use cricket_sim::team::Team;

fn roster(id: u16, label: &str, n: usize) -> Team {
    let mut players = Vec::new();
    for i in 0..n {
        players.push(((id as usize) * 100 + i, format!("{}_{}", label, i)));
    }
    Team { id, name: format!("team_{}", label), players }
}

#[test]
fn form_presets() {
    let t = Form::test();
    assert_eq!(t.innings, 2);
    assert_eq!(t.overs_per_innings, None);
    assert_eq!(t.balls_per_over, 6);
    assert_eq!(t.batsmen_per_side, 11);
    assert_eq!(t.ball_type, BallType::RedLeather);

    let odi = Form::odi();
    assert_eq!(odi.innings, 1);
    assert_eq!(odi.overs_per_innings, Some(50));
    assert_eq!(odi.ball_type, BallType::WhiteLeather);

    let t20 = Form::t20();
    assert_eq!(t20.innings, 1);
    assert_eq!(t20.overs_per_innings, Some(20));
}

#[test]
fn runs_values() {
    assert_eq!(Runs::Running(0).runs(), 0);
    assert_eq!(Runs::Running(3).runs(), 3);
    assert_eq!(Runs::Four.runs(), 4);
    assert_eq!(Runs::Six.runs(), 6);
}

#[test]
fn extra_values() {
    assert_eq!(Extra::NoBall.runs(), 1);
    assert_eq!(Extra::Wide.runs(), 1);
    assert_eq!(Extra::Bye(Runs::Running(2)).runs(), 2);
    assert_eq!(Extra::LegBye(Runs::Four).runs(), 4);
    assert_eq!(Extra::Penalty(5).runs(), 5);
}

#[test]
fn legality() {
    assert!(DeliveryOutcome::dot().legal());
    assert!(DeliveryOutcome::four().legal());
    let wide = DeliveryOutcome {
        wicket: None,
        runs: Runs::Running(0),
        extras: vec![Extra::Wide],
    };
    assert!(!wide.legal());
    let no_ball = DeliveryOutcome {
        wicket: None,
        runs: Runs::Running(2),
        extras: vec![Extra::Penalty(1), Extra::NoBall],
    };
    assert!(!no_ball.legal());
    let byes_only = DeliveryOutcome {
        wicket: None,
        runs: Runs::Running(0),
        extras: vec![Extra::Bye(Runs::Running(1)), Extra::LegBye(Runs::Running(3))],
    };
    assert!(byes_only.legal());
}

#[test]
fn outcome_constructors() {
    let b = DeliveryOutcome::bowled(7, "quick");
    match &b.wicket {
        Some((id, Dismissal::Bowled { bowler })) => {
            assert_eq!(*id, 7);
            assert_eq!(bowler, "quick");
        },
        _ => panic!("expected a bowled dismissal"),
    }
    assert_eq!(b.runs.runs(), 0);
    assert!(b.extras.is_empty());

    let c = DeliveryOutcome::caught(8, "quick", "keeper");
    match &c.wicket {
        Some((id, Dismissal::Caught { caught, bowler })) => {
            assert_eq!(*id, 8);
            assert_eq!(caught, "keeper");
            assert_eq!(bowler, "quick");
        },
        _ => panic!("expected a caught dismissal"),
    }

    let l = DeliveryOutcome::lbw(9, "spinner");
    assert!(matches!(&l.wicket, Some((9, Dismissal::Lbw { .. }))));

    let r = DeliveryOutcome::running(2);
    assert!(r.wicket.is_none());
    assert_eq!(r.runs.runs(), 2);
    assert_eq!(DeliveryOutcome::six().runs.runs(), 6);
}

#[test]
fn batting_order_walks_the_roster() {
    let team = roster(3, "T", 11);
    let mut order = team.batting_order();
    for i in 0..11 {
        assert_eq!(order.next(), Some(300 + i));
    }
    assert_eq!(order.next(), None);
    assert_eq!(order.next(), None);
}

#[test]
fn bowlers_alternate_without_repeat() {
    let team = roster(3, "T", 11);
    let mut bowlers = team.bowlers();
    // The rotation draws from roster positions 6 through 11, back to front.
    let first = bowlers.next().unwrap();
    assert_eq!(first, 310);
    let mut last = first;
    for _ in 0..10 {
        let next = bowlers.next().unwrap();
        assert_ne!(next, last);
        assert!(next == 310 || next == 309);
        last = next;
    }
}

#[test]
fn team_name_lookup() {
    let team = roster(3, "T", 11);
    assert_eq!(team.get_name(302), Some("T_2"));
    assert_eq!(team.get_name(999), None);
}

#[test]
fn registry_add_and_get() {
    let mut db: PlayerDb<PlayerRatingNull> = PlayerDb::new();
    assert!(db.get(0).is_none());
    let id0 = db.add("alpha".to_string(), PlayerRatingNull::default()).unwrap().id;
    let id1 = db.add("beta".to_string(), PlayerRatingNull::default()).unwrap().id;
    assert_ne!(id0, id1);
    assert_eq!(db.get(id0).unwrap().name, "alpha");
    assert_eq!(db.get(id1).unwrap().name, "beta");
    assert!(db.get(id1 + 1).is_none());
}

#[test]
fn new_match_requires_eleven() {
    let short = roster(1, "A", 10);
    let full = roster(2, "B", 11);
    let r = GameState::new(Form::test(), short, full);
    assert!(matches!(r, Err(Error::MissingData(_))));
}

#[test]
fn declare_after_completion_fails() {
    let team_a = roster(1, "A", 11);
    let team_b = roster(2, "B", 11);
    let mut state = GameState::new(Form::t20(), team_a, team_b).unwrap();
    state.declare().unwrap();
    state.declare().unwrap();
    assert!(state.complete());
    assert!(matches!(state.declare(), Err(Error::MatchComplete)));
    assert!(matches!(state.update(&DeliveryOutcome::dot()), Err(Error::MatchComplete)));
}

#[test]
fn snapshot_roles_and_errors() {
    let mut db: PlayerDb<PlayerRatingNull> = PlayerDb::new();
    let mut players_a = Vec::new();
    for i in 0..11 {
        let p = db.add(format!("A_{}", i), PlayerRatingNull::default()).unwrap();
        players_a.push((p.id, p.name.clone()));
    }
    let mut players_b = Vec::new();
    for i in 0..11 {
        let p = db.add(format!("B_{}", i), PlayerRatingNull::default()).unwrap();
        players_b.push((p.id, p.name.clone()));
    }
    let striker_id = players_a[0].0;
    let non_striker_id = players_a[1].0;
    let opening_bowler_id = players_b[10].0;
    let team_a = Team { id: 1, name: "team_A".to_string(), players: players_a };
    let team_b = Team { id: 2, name: "team_B".to_string(), players: players_b };
    let state = GameState::new(Form::test(), team_a, team_b).unwrap();
    let snap = state.snapshot(&db).unwrap();
    assert_eq!(snap.striker.id, striker_id);
    assert_eq!(snap.non_striker.id, non_striker_id);
    assert_eq!(snap.bowler.id, opening_bowler_id);

    // A registry that does not know the players yields a not-found error.
    let empty: PlayerDb<PlayerRatingNull> = PlayerDb::new();
    assert!(matches!(state.snapshot(&empty), Err(Error::PlayerNotFound(_))));
}

/// Declaring swaps the batting side, and scores accrue to the side batting.
#[test]
fn declare_swaps_sides() {
    let team_a = roster(1, "A", 11);
    let team_b = roster(2, "B", 11);
    let mut state = GameState::new(Form::test(), team_a, team_b).unwrap();
    state.update(&DeliveryOutcome::four()).unwrap();
    state.declare().unwrap();
    state.update(&DeliveryOutcome::six()).unwrap();
    let a_ref = roster(1, "A", 11);
    let b_ref = roster(2, "B", 11);
    assert_eq!(state.team_score(&a_ref), 4);
    assert_eq!(state.team_score(&b_ref), 6);
}
