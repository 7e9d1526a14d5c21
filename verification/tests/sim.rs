//! End-to-end simulation of a full match with a simple random model.

use cricket_sim::error::Error;
use cricket_sim::form::Form;
use cricket_sim::game::{DeliveryOutcome, GameSnapshot, GameState};
use cricket_sim::model::PlayerRatingNull;
use cricket_sim::player::PlayerDb;
use cricket_sim::team::Team;
use rand::Rng;

fn test_team(
    db: &mut PlayerDb<PlayerRatingNull>,
    id: u16,
    label: &str,
) -> Result<Team, Error> {
    const N_PLAYERS: usize = 11;
    let name = format!("team_{}", label);
    let mut players = Vec::new();
    for i in 0..N_PLAYERS {
        let player = db.add(format!("{}_{}", label, i), PlayerRatingNull::default())?;
        players.push((player.id, player.name.clone()));
    }
    Ok(Team { id, name, players })
}

/// The data-free model: mostly dots, some singles and boundaries, a wicket
/// about once in fifty deliveries.
fn generate_delivery(
    rng: &mut impl Rng,
    state: GameSnapshot<PlayerRatingNull>,
) -> DeliveryOutcome {
    let striker_id = state.striker.id;
    let bowler = state.bowler;
    let rand: f64 = rng.gen_range(0.0..1.0);
    if rand < 0.01 {
        DeliveryOutcome::caught(striker_id, &bowler.name, "?fielder")
    } else if rand <= 0.015 {
        DeliveryOutcome::bowled(striker_id, &bowler.name)
    } else if rand <= 0.02 {
        DeliveryOutcome::lbw(striker_id, &bowler.name)
    } else if rand <= 0.4 {
        DeliveryOutcome::running(1)
    } else if rand <= 0.42 {
        DeliveryOutcome::four()
    } else if rand <= 0.424 {
        DeliveryOutcome::six()
    } else {
        DeliveryOutcome::dot()
    }
}

#[test]
fn sim() -> Result<(), Error> {
    let rules = Form::test();
    let mut db = PlayerDb::new();
    let team_a = test_team(&mut db, 1, "AUS")?;
    let team_b = test_team(&mut db, 5, "NZ")?;
    let db = db;
    let mut state = GameState::new(rules, team_a, team_b)?;
    let mut rng = rand::thread_rng();

    while !state.complete() {
        let ball = generate_delivery(&mut rng, state.snapshot(&db)?);
        state.update(&ball)?;
    }
    assert!(state.complete());
    Ok(())
}
