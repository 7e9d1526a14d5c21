//! Description of the state and events of a match.

use vstd::prelude::*;
use crate::conditions::{Ball, Conditions, Weather};
use crate::error::Error;
use crate::form::Form;
use crate::model::PlayerRating;
use crate::player::{Player, PlayerDb, PlayerId};
use crate::team::{distinct_roster, Team};

pub mod stats;

use stats::{
    batting_fits, bowling_update_ok, innings_init, innings_step, lemma_sum_runs_nonneg,
    sum_batter_runs, wicket_names_crease, InningsStats, InningsView,
};

verus! {

/// Runs scored by the batting side of one innings: each batter's runs plus
/// the team's extras.
pub open spec fn innings_runs(iv: InningsView) -> int {
    iv.batting.team_runs()
}

/// The completed innings' runs credited to one side.
pub open spec fn innings_runs_for(s: Seq<InningsView>, team: u16) -> int
    decreases s.len(),
{
    if s.len() == 0 {
        0
    } else {
        innings_runs_for(s.drop_last(), team) + if s.last().batting_team == team {
            innings_runs(s.last())
        } else {
            0
        }
    }
}

/// The completed innings' runs, both sides together.
pub open spec fn innings_runs_all(s: Seq<InningsView>) -> int
    decreases s.len(),
{
    if s.len() == 0 {
        0
    } else {
        innings_runs_all(s.drop_last()) + innings_runs(s.last())
    }
}

/// No innings carries a negative extras total. (True of every innings the
/// engine builds; stated so the score lemmas can quantify over lists.)
pub open spec fn nonneg_extras(s: Seq<InningsView>) -> bool {
    forall|i: int| 0 <= i < s.len() ==> (#[trigger] s[i]).batting.extras >= 0
}

pub proof fn lemma_innings_runs_nonneg(s: Seq<InningsView>, team: u16)
    requires
        nonneg_extras(s),
    ensures
        0 <= innings_runs_for(s, team),
        innings_runs_for(s, team) <= innings_runs_all(s),
        0 <= innings_runs_all(s),
    decreases s.len(),
{
    if s.len() > 0 {
        assert(forall|i: int| 0 <= i < s.len() - 1 ==> #[trigger] s.drop_last()[i] == s[i]);
        lemma_innings_runs_nonneg(s.drop_last(), team);
        assert(s[s.len() - 1] == s.last());
        lemma_sum_runs_nonneg(s.last().batting.batters);
    }
}

pub proof fn lemma_innings_runs_take_succ(s: Seq<InningsView>, team: u16, i: int)
    requires
        0 <= i < s.len(),
    ensures
        innings_runs_for(s.take(i + 1), team) == innings_runs_for(s.take(i), team) + if s[i].batting_team
            == team {
            innings_runs(s[i])
        } else {
            0int
        },
{
    assert(s.take(i + 1).drop_last() =~= s.take(i));
    assert(s.take(i + 1).last() == s[i]);
}

pub proof fn lemma_innings_runs_take_le(s: Seq<InningsView>, team: u16, i: int)
    requires
        nonneg_extras(s),
        0 <= i <= s.len(),
    ensures
        innings_runs_for(s.take(i), team) <= innings_runs_for(s, team),
    decreases s.len(),
{
    if i == s.len() {
        assert(s.take(i) =~= s);
    } else {
        assert(s.drop_last().take(i) =~= s.take(i));
        assert(forall|j: int| 0 <= j < s.len() - 1 ==> #[trigger] s.drop_last()[j] == s[j]);
        lemma_innings_runs_take_le(s.drop_last(), team, i);
        assert(s[s.len() - 1] == s.last());
        lemma_sum_runs_nonneg(s.last().batting.batters);
    }
}

pub proof fn lemma_innings_runs_push(s: Seq<InningsView>, team: u16, iv: InningsView)
    ensures
        innings_runs_for(s.push(iv), team) == innings_runs_for(s, team) + if iv.batting_team
            == team {
            innings_runs(iv)
        } else {
            0int
        },
        innings_runs_all(s.push(iv)) == innings_runs_all(s) + innings_runs(iv),
{
    assert(s.push(iv).drop_last() =~= s);
    assert(s.push(iv).last() == iv);
}

pub proof fn lemma_innings_runs_split(s: Seq<InningsView>, a: u16, b: u16)
    requires
        a != b,
        forall|i: int|
            0 <= i < s.len() ==> ((#[trigger] s[i]).batting_team == a || s[i].batting_team == b),
    ensures
        innings_runs_for(s, a) + innings_runs_for(s, b) == innings_runs_all(s),
    decreases s.len(),
{
    if s.len() > 0 {
        assert(forall|j: int| 0 <= j < s.len() - 1 ==> #[trigger] s.drop_last()[j] == s[j]);
        lemma_innings_runs_split(s.drop_last(), a, b);
        assert(s[s.len() - 1] == s.last());
    }
}

/// The whole match, abstracted: the format, the two sides, the innings in
/// progress (absent once the match is over), the archive of completed
/// innings, and the shared conditions.
#[verifier::ext_equal]
pub struct GameView {
    pub form: Form,
    pub team_a: Team,
    pub team_b: Team,
    pub innings: Option<InningsView>,
    pub prev: Seq<InningsView>,
    pub conditions: Conditions,
}

/// A side's score: its completed innings' runs, plus the current innings'
/// runs if that side is batting now.
pub open spec fn score_spec(g: GameView, team: u16) -> int {
    innings_runs_for(g.prev, team) + match g.innings {
        Some(iv) => if iv.batting_team == team {
            innings_runs(iv)
        } else {
            0int
        },
        None => 0int,
    }
}

/// Every run scored in the match so far, both sides together.
pub open spec fn total_match_runs(g: GameView) -> int {
    innings_runs_all(g.prev) + match g.innings {
        Some(iv) => innings_runs(iv),
        None => 0int,
    }
}

/// The side with the given identity.
pub open spec fn team_of(g: GameView, id: u16) -> Team {
    if id == g.team_a.id {
        g.team_a
    } else {
        g.team_b
    }
}

/// An innings is played between the match's two sides.
pub open spec fn sides_ok(iv: InningsView, g: GameView) -> bool {
    ||| (iv.batting_team == g.team_a.id && iv.bowling_team == g.team_b.id)
    ||| (iv.batting_team == g.team_b.id && iv.bowling_team == g.team_a.id)
}

/// The two sides' scores partition the match total: every innings is
/// batted by one of them.
pub proof fn lemma_scores_split(g: GameView)
    requires
        g.team_a.id != g.team_b.id,
        forall|i: int| 0 <= i < g.prev.len() ==> sides_ok(#[trigger] g.prev[i], g),
        g.innings matches Some(iv) ==> sides_ok(iv, g),
    ensures
        score_spec(g, g.team_a.id) + score_spec(g, g.team_b.id) == total_match_runs(g),
{
    assert(forall|i: int|
        0 <= i < g.prev.len() ==> ((#[trigger] g.prev[i]).batting_team == g.team_a.id
            || g.prev[i].batting_team == g.team_b.id));
    lemma_innings_runs_split(g.prev, g.team_a.id, g.team_b.id);
}

/// Closing the current innings: archive it; if all scheduled innings are
/// done, or the side that just batted can no longer catch up with no innings
/// left to it, the match is over. Otherwise the next batting side is chosen:
/// the same side again when the follow-on fires (it trails by 150 or more at
/// the midpoint of the schedule), the other side otherwise.
pub open spec fn close_innings(g: GameView) -> GameView
    recommends
        g.innings is Some,
{
    let iv = g.innings->Some_0;
    let prev1 = g.prev.push(iv);
    let base = GameView { innings: None, prev: prev1, ..g };
    if prev1.len() >= 2 * (g.form.innings as int) {
        base
    } else if prev1.len() + 1 == 2 * (g.form.innings as int) && score_spec(base, iv.batting_team)
        < score_spec(base, iv.bowling_team) {
        base
    } else {
        let follow_on = prev1.len() % 2 == 0 && score_spec(base, iv.batting_team) + 150
            <= score_spec(base, iv.bowling_team);
        let nb = if follow_on {
            iv.batting_team
        } else {
            iv.bowling_team
        };
        let nw = if follow_on {
            iv.bowling_team
        } else {
            iv.batting_team
        };
        GameView {
            innings: Some(
                innings_init(team_of(g, nb), team_of(g, nw), g.form.balls_per_over),
            ),
            ..base
        }
    }
}

/// What one delivery does to the whole match: the ball wears, the innings
/// advances, and the innings is closed if the batting side is all out, the
/// overs cap is reached, or the batting side has just overtaken in the last
/// scheduled innings.
pub open spec fn game_step(g: GameView, ball: DeliveryOutcome) -> GameView
    recommends
        g.innings is Some,
{
    let iv0 = g.innings->Some_0;
    let c1 = Conditions {
        ball: Ball {
            ball_type: g.conditions.ball.ball_type,
            deliveries: (g.conditions.ball.deliveries + 1) as u16,
            runs: (g.conditions.ball.runs + outcome_total_runs(ball)) as u16,
        },
        weather: g.conditions.weather,
    };
    let iv1 = innings_step(iv0, ball);
    let g1 = GameView { conditions: c1, innings: Some(iv1), ..g };
    let close = iv1.batting.all_out() || (match g.form.overs_per_innings {
        Some(c) => iv1.overs >= c,
        None => false,
    }) || (g.prev.len() + 1 == 2 * (g.form.innings as int) && score_spec(g1, iv1.batting_team)
        > score_spec(g1, iv1.bowling_team));
    if close {
        close_innings(g1)
    } else {
        g1
    }
}

/// The match's fixed-width counters have room for what the delivery adds:
/// the innings' own counters, the ball-wear counters, and the match total
/// that the score queries sum.
pub open spec fn delivery_fits(g: GameView, ball: DeliveryOutcome) -> bool {
    match g.innings {
        None => true,
        Some(iv) => {
            &&& batting_fits(iv.batting, ball)
            &&& bowling_update_ok(iv.bowling, ball)
            &&& ((legal_spec(ball) && iv.balls + 1 >= iv.balls_per_over) ==> {
                let bowl1 = stats::bowling_step(iv.bowling, ball);
                &&& iv.overs < u16::MAX
                &&& (bowl1.maiden ==> bowl1.stats[bowl1.idx].1.maiden_overs < u16::MAX)
            })
            &&& total_match_runs(g) + outcome_total_runs(ball) <= u16::MAX
            &&& g.conditions.ball.deliveries < u16::MAX
            &&& g.conditions.ball.runs + outcome_total_runs(ball) <= u16::MAX
        },
    }
}

/// Tracks the state of an ongoing match.
pub struct GameState {
    /// The rules of the match.
    pub form: Form,
    /// The home team.
    pub team_a: Team,
    /// The visiting team.
    pub team_b: Team,
    /// Current innings in progress. Is None when the game is complete.
    pub current_innings_stats: Option<InningsStats>,
    /// Previous innings stats.
    pub previous_innings: Vec<InningsStats>,
    /// Other conditions.
    pub conditions: Conditions,
}

impl View for GameState {
    type V = GameView;

    open spec fn view(&self) -> GameView {
        GameView {
            form: self.form,
            team_a: self.team_a,
            team_b: self.team_b,
            innings: match self.current_innings_stats {
                Some(st) => Some(st@),
                None => None,
            },
            prev: self.previous_innings@.map(|i: int, st: InningsStats| st@),
            conditions: self.conditions,
        }
    }
}

impl GameState {
    /// Everything that holds of the match even in the instant between an
    /// innings ending and its being archived: the format and sides are
    /// valid, every stored innings is well formed and played between the two
    /// sides, and the match total fits the score queries' width.
    pub open spec fn wf0(self) -> bool {
        &&& self.form.wf()
        &&& distinct_roster(self.team_a)
        &&& distinct_roster(self.team_b)
        &&& self.team_a.id != self.team_b.id
        &&& self.team_a.players@.len() >= 11
        &&& self.team_b.players@.len() >= 11
        &&& (self.current_innings_stats matches Some(st) ==> {
            &&& st.wf()
            &&& sides_ok(st@, self@)
            &&& st@.balls_per_over == self.form.balls_per_over
            &&& self.previous_innings@.len() < 2 * (self.form.innings as int)
        })
        &&& (forall|i: int|
            0 <= i < self.previous_innings@.len() ==> {
                &&& (#[trigger] self.previous_innings@[i]).wf()
                &&& sides_ok(self.previous_innings@[i]@, self@)
            })
        &&& self.previous_innings@.len() <= 2 * (self.form.innings as int)
        &&& total_match_runs(self@) <= u16::MAX
    }

    /// Full well-formedness: additionally, an innings in progress is open
    /// and under the overs cap.
    pub open spec fn wf(self) -> bool {
        &&& self.wf0()
        &&& (self.current_innings_stats matches Some(st) ==> {
            &&& !st@.batting.all_out()
            &&& (match self.form.overs_per_innings {
                Some(c) => st@.overs < c,
                None => true,
            })
        })
    }

    /// Open a match: the home team bats first. Fails if either side cannot
    /// field eleven, since both must bat at least two openers and bowl from
    /// their designated sub-roster.
    pub fn new(rules: Form, team_a: Team, team_b: Team) -> (r: Result<GameState, Error>)
        requires
            rules.wf(),
            distinct_roster(team_a),
            distinct_roster(team_b),
            team_a.id != team_b.id,
        ensures
            match r {
                Ok(g) => {
                    &&& team_a.players@.len() >= 11
                    &&& team_b.players@.len() >= 11
                    &&& g.wf()
                    &&& g@ == (GameView {
                        form: rules,
                        team_a: team_a,
                        team_b: team_b,
                        innings: Some(innings_init(team_a, team_b, rules.balls_per_over)),
                        prev: Seq::<InningsView>::empty(),
                        conditions: Conditions {
                            ball: Ball {
                                ball_type: rules.ball_type,
                                deliveries: 0u16,
                                runs: 0u16,
                            },
                            weather: Weather {},
                        },
                    })
                },
                Err(e) => e is MissingData && (team_a.players@.len() < 11 || team_b.players@.len()
                    < 11),
            },
    {
        if team_a.players.len() < 11 || team_b.players.len() < 11 {
            return Err(Error::MissingData("Not enough players to field a side".to_owned()));
        }
        let current = match InningsStats::new(&team_a, &team_b, rules.balls_per_over) {
            Ok(st) => st,
            Err(e) => {
                return Err(e);
            },
        };
        let ball = rules.new_ball();
        let g = GameState {
            form: rules,
            team_a,
            team_b,
            current_innings_stats: Some(current),
            previous_innings: Vec::new(),
            conditions: Conditions { ball, weather: Weather {} },
        };
        proof {
            assert(g@.prev =~= Seq::<InningsView>::empty());
            assert(sum_batter_runs(
                innings_init(g.team_a, g.team_b, rules.balls_per_over).batting.batters,
            ) == 0) by {
                reveal_with_fuel(stats::sum_batter_runs, 3);
            }
            assert(g@ =~= (GameView {
                form: rules,
                team_a: g.team_a,
                team_b: g.team_b,
                innings: Some(innings_init(g.team_a, g.team_b, rules.balls_per_over)),
                prev: Seq::<InningsView>::empty(),
                conditions: Conditions {
                    ball: Ball { ball_type: rules.ball_type, deliveries: 0u16, runs: 0u16 },
                    weather: Weather {},
                },
            }));
        }
        Ok(g)
    }

    /// Whether the match is finished.
    pub fn complete(&self) -> (r: bool)
        ensures
            r == (self@.innings is None),
    {
        self.current_innings_stats.is_none()
    }

    /// Batting team declares to complete their innings, regardless of
    /// wickets and overs. Fails if the match is already complete.
    pub fn declare(&mut self) -> (r: Result<(), Error>)
        requires
            old(self).wf(),
        ensures
            match r {
                Ok(_) => {
                    &&& old(self)@.innings is Some
                    &&& final(self).wf()
                    &&& final(self)@ == close_innings(old(self)@)
                },
                Err(e) => {
                    &&& e is MatchComplete
                    &&& old(self)@.innings is None
                    &&& *final(self) == *old(self)
                },
            },
    {
        self.new_innings()
    }

    /// Returns the given team's current score: the sum of its completed
    /// innings' runs, plus the current innings' runs if it is batting.
    pub fn team_score(&self, team: &Team) -> (r: u16)
        requires
            self.wf0(),
        ensures
            r as int == score_spec(self@, team.id),
    {
        let ghost prevs = self@.prev;
        proof {
            assert(nonneg_extras(prevs)) by {
                assert(forall|i: int|
                    0 <= i < prevs.len() ==> (#[trigger] prevs[i]).batting.extras >= 0);
            }
            assert(prevs.take(0) =~= Seq::<InningsView>::empty());
            lemma_innings_runs_nonneg(prevs, team.id);
        }
        let mut score: u16 = 0;
        let mut i: usize = 0;
        while i < self.previous_innings.len()
            invariant
                self.wf0(),
                prevs == self@.prev,
                i <= prevs.len(),
                score as int == innings_runs_for(prevs.take(i as int), team.id),
            decreases prevs.len() - i,
        {
            proof {
                assert(nonneg_extras(prevs));
                lemma_innings_runs_take_succ(prevs, team.id, i as int);
                lemma_innings_runs_take_le(prevs, team.id, i + 1);
                lemma_innings_runs_nonneg(prevs, team.id);
                lemma_innings_runs_nonneg(prevs.take(i as int), team.id);
                assert(prevs[i as int] == self.previous_innings@[i as int]@);
                if self@.innings is Some {
                    lemma_sum_runs_nonneg(self@.innings->Some_0.batting.batters);
                }
                assert(innings_runs_for(prevs, team.id) + (match self@.innings {
                    Some(iv) => if iv.batting_team == team.id {
                        innings_runs(iv)
                    } else {
                        0int
                    },
                    None => 0int,
                }) <= total_match_runs(self@)) by {
                    lemma_innings_runs_nonneg(prevs, team.id);
                }
            }
            let st = &self.previous_innings[i];
            if st.batting_team == team.id {
                score = score + st.batting_stats.team_runs();
            }
            i += 1;
        }
        proof {
            assert(prevs.take(prevs.len() as int) =~= prevs);
            lemma_innings_runs_nonneg(prevs, team.id);
            if self@.innings is Some {
                lemma_sum_runs_nonneg(self@.innings->Some_0.batting.batters);
            }
        }
        if let Some(st) = &self.current_innings_stats {
            if st.batting_team == team.id {
                score = score + st.batting_stats.team_runs();
            }
        }
        score
    }

    /// Whether the engine's fixed-width counters have room for what this
    /// delivery would add: the one condition `update` asks of its callers
    /// beyond well-formedness. A caller that cannot know its totals stay
    /// small can test this before applying the delivery.
    pub fn fits(&self, ball: &DeliveryOutcome) -> (b: bool)
        requires
            self.wf(),
        ensures
            b == delivery_fits(self@, *ball),
    {
        let st = match &self.current_innings_stats {
            None => {
                return true;
            },
            Some(st) => st,
        };
        proof {
            lemma_extras_nonneg(ball.extras@);
            lemma_sum_runs_nonneg(st@.batting.batters);
            assert(ball.extras@.take(0) =~= Seq::<Extra>::empty());
        }
        let mut total: u32 = 0;
        let mut nbw: u32 = 0;
        let mut wides: u32 = 0;
        let mut no_balls: u32 = 0;
        let mut i: usize = 0;
        while i < ball.extras.len()
            invariant
                self.wf(),
                self.current_innings_stats is Some,
                st == self.current_innings_stats->Some_0,
                i <= ball.extras@.len(),
                total as int == extras_total(ball.extras@.take(i as int)),
                nbw as int == count_no_ball_or_wide(ball.extras@.take(i as int)),
                wides as int == count_wides(ball.extras@.take(i as int)),
                no_balls as int == count_no_balls(ball.extras@.take(i as int)),
                total <= 65535 && nbw <= 65535 && wides <= 65535 && no_balls <= 65535,
            decreases ball.extras@.len() - i,
        {
            proof {
                lemma_extras_take_succ(ball.extras@, i as int);
                lemma_extras_take_le(ball.extras@, i + 1);
                lemma_extras_nonneg(ball.extras@.take(i as int));
            }
            match &ball.extras[i] {
                Extra::NoBall => {
                    nbw = nbw + 1;
                    no_balls = no_balls + 1;
                },
                Extra::Wide => {
                    nbw = nbw + 1;
                    wides = wides + 1;
                },
                _ => {},
            }
            total = total + ball.extras[i].runs() as u32;
            i += 1;
            if total > 65535 || nbw > 65535 || wides > 65535 || no_balls > 65535 {
                proof {
                    lemma_extras_take_le(ball.extras@, i as int);
                    lemma_sum_runs_nonneg(st@.batting.batters);
                }
                return false;
            }
        }
        proof {
            assert(ball.extras@.take(ball.extras@.len() as int) =~= ball.extras@);
        }
        let legal = ball.legal();
        let runs_v = ball.runs.runs() as u32;
        let out_total = runs_v + total;

        // The batting half's counters.
        let team_runs = st.batting_stats.team_runs() as u32;
        if team_runs + out_total > 65535 {
            return false;
        }
        let striker_idx = if st.batting_stats.striker_a {
            st.batting_stats.batter_a
        } else {
            st.batting_stats.batter_b
        };
        let srec = &st.batting_stats.batters[striker_idx].1;
        if legal && srec.balls == 65535 {
            return false;
        }
        match &ball.runs {
            Runs::Four => {
                if srec.fours == 255 {
                    return false;
                }
            },
            Runs::Six => {
                if srec.sixes == 255 {
                    return false;
                }
            },
            _ => {},
        }

        // The bowling half's counters.
        let bidx = st.bowling_stats.current_bowler_index;
        let brec = &st.bowling_stats.bowler_stats[bidx].1;
        let chargeable = runs_v + nbw;
        if legal && brec.balls == 65535 {
            return false;
        }
        if (brec.runs as u32) + chargeable > 65535 {
            return false;
        }
        if (brec.wides as u32) + wides > 65535 {
            return false;
        }
        if (brec.no_balls as u32) + no_balls > 65535 {
            return false;
        }
        if ball.wicket.is_some() && brec.wickets == 255 {
            return false;
        }

        // Completing an over must leave room for its bookkeeping.
        if legal && (st.balls as u16) + 1 >= (st.balls_per_over as u16) {
            if st.overs == 65535 {
                return false;
            }
            if st.bowling_stats.current_over_maiden && chargeable == 0 && brec.maiden_overs
                == 65535 {
                return false;
            }
        }

        // The match total the score queries sum.
        let score_a = self.team_score(&self.team_a) as u32;
        let score_b = self.team_score(&self.team_b) as u32;
        proof {
            lemma_scores_split(self@);
        }
        if score_a + score_b + out_total > 65535 {
            return false;
        }

        // The shared ball-wear counters.
        if self.conditions.ball.deliveries == 65535 {
            return false;
        }
        if (self.conditions.ball.runs as u32) + out_total > 65535 {
            return false;
        }
        proof {
            let iv = st@;
            let bowl1 = stats::bowling_step(iv.bowling, *ball);
            assert(stats::chargeable_runs(*ball) == chargeable);
            assert(bowl1.stats == iv.bowling.stats.update(
                iv.bowling.idx,
                (iv.bowling.stats[iv.bowling.idx].0, bowl1.stats[iv.bowling.idx].1),
            ));
            assert(bowl1.stats[bowl1.idx].1.maiden_overs
                == iv.bowling.stats[iv.bowling.idx].1.maiden_overs);
            assert(delivery_fits(self@, *ball));
        }
        true
    }

    /// Update the game state based on the outcome of a delivery: the single
    /// mutation entry point. Fails (leaving the state untouched) if the
    /// match is complete, or if the outcome's dismissal names a batter who
    /// is not the one its kind removes.
    pub fn update(&mut self, ball: &DeliveryOutcome) -> (r: Result<(), Error>)
        requires
            old(self).wf(),
            delivery_fits(old(self)@, *ball),
        ensures
            match r {
                Ok(_) => {
                    &&& old(self)@.innings is Some
                    &&& wicket_names_crease(old(self)@.innings->Some_0.batting, *ball)
                    &&& final(self).wf()
                    &&& final(self)@ == game_step(old(self)@, *ball)
                },
                Err(e) => {
                    &&& *final(self) == *old(self)
                    &&& match e {
                        Error::MatchComplete => old(self)@.innings is None,
                        Error::PlayerNotFound(id) => {
                            &&& old(self)@.innings is Some
                            &&& !wicket_names_crease(old(self)@.innings->Some_0.batting, *ball)
                            &&& ball.wicket matches Some(w) && w.0 == id
                        },
                        _ => false,
                    }
                },
            },
    {
        let ghost g0 = self@;

        // Validate the outcome against the crease before touching anything:
        // a typed failure must leave no partial mutation behind.
        match &self.current_innings_stats {
            None => {
                return Err(Error::MatchComplete);
            },
            Some(st) => {
                if let Some((out_id, wicket)) = &ball.wicket {
                    let target = if matches!(wicket, Dismissal::RunOutNonStriker(_)) {
                        st.batting_stats.non_striker()
                    } else {
                        st.batting_stats.striker()
                    };
                    if *out_id != target {
                        return Err(Error::PlayerNotFound(*out_id));
                    }
                }
            },
        }

        // Shared ball-wear counters.
        let total = outcome_total(ball);
        self.conditions.ball.deliveries = self.conditions.ball.deliveries + 1;
        self.conditions.ball.runs = self.conditions.ball.runs + total;

        // Forward the outcome to the innings in play.
        let mut st = match self.current_innings_stats.take() {
            Some(st) => st,
            None => {
                return Err(Error::MatchComplete);
            },
        };
        match st.update(ball) {
            Ok(_) => {},
            Err(e) => {
                return Err(e);
            },
        }
        let all_out = st.all_out();
        let overs_now = st.overs;
        let batting_team = st.batting_team;
        let bowling_team = st.bowling_team;
        self.current_innings_stats = Some(st);

        // Check if we need to change to a new innings.
        let mut new_innings = false;
        if all_out {
            new_innings = true;
        }
        if let Some(opi) = self.form.overs_per_innings {
            if overs_now >= opi {
                new_innings = true;
            }
        }
        // If this is the last innings and the batting team caught up, end
        // the match.
        proof {
            assert(self@.prev =~= g0.prev);
        }
        let bat_ref = if batting_team == self.team_a.id {
            &self.team_a
        } else {
            &self.team_b
        };
        let bowl_ref = if bowling_team == self.team_a.id {
            &self.team_a
        } else {
            &self.team_b
        };
        if self.previous_innings.len() + 1 == 2 * (self.form.innings as usize) && self.team_score(
            bat_ref,
        ) > self.team_score(bowl_ref) {
            new_innings = true;
        }
        if new_innings {
            match self.new_innings() {
                Ok(_) => {},
                Err(e) => {
                    return Err(e);
                },
            }
            proof {
                assert(self@ =~= game_step(g0, *ball));
            }
        } else {
            proof {
                assert(self@ =~= game_step(g0, *ball));
            }
        }
        Ok(())
    }

    /// Initiate a new innings: archive the one in play and, unless the match
    /// is thereby over, open the next one for the side the rules pick.
    fn new_innings(&mut self) -> (r: Result<(), Error>)
        requires
            old(self).wf0(),
        ensures
            match r {
                Ok(_) => {
                    &&& old(self)@.innings is Some
                    &&& final(self).wf()
                    &&& final(self)@ == close_innings(old(self)@)
                },
                Err(e) => {
                    &&& e is MatchComplete
                    &&& old(self)@.innings is None
                    &&& *final(self) == *old(self)
                },
            },
    {
        let ghost g0 = self@;
        let last_innings_stats = match self.current_innings_stats.take() {
            Some(st) => st,
            None => {
                return Err(Error::MatchComplete);
            },
        };
        let last_batting_team = last_innings_stats.batting_team;
        let last_bowling_team = last_innings_stats.bowling_team;
        let ghost last_iv = last_innings_stats@;
        self.previous_innings.push(last_innings_stats);
        proof {
            assert(self@.prev =~= g0.prev.push(last_iv));
            lemma_innings_runs_push(g0.prev, last_batting_team, last_iv);
            lemma_innings_runs_push(g0.prev, last_bowling_team, last_iv);
            assert(self@ =~= (GameView { innings: None, prev: g0.prev.push(last_iv), ..g0 }));
        }
        // If all innings have been played, the match is over.
        if self.previous_innings.len() >= 2 * (self.form.innings as usize) {
            return Ok(());
        }
        let last_batting_runs = self.team_score(
            if last_batting_team == self.team_a.id {
                &self.team_a
            } else {
                &self.team_b
            },
        );
        let last_bowling_runs = self.team_score(
            if last_bowling_team == self.team_a.id {
                &self.team_a
            } else {
                &self.team_b
            },
        );

        // If the team just batting has run out of opportunities to overtake,
        // the match is called.
        if self.previous_innings.len() + 1 == 2 * (self.form.innings as usize) && last_batting_runs
            < last_bowling_runs {
            return Ok(());
        }

        // Make the trailing team bat again if it is behind by 150 or more
        // and both teams have had equal opportunities so far.
        let follow_on = self.previous_innings.len() % 2 == 0 && (last_batting_runs as u32) + 150
            <= (last_bowling_runs as u32);
        let next_batting_id = if follow_on {
            last_batting_team
        } else {
            last_bowling_team
        };
        let next_batting = if next_batting_id == self.team_a.id {
            &self.team_a
        } else {
            &self.team_b
        };
        let next_bowling = if next_batting_id == self.team_a.id {
            &self.team_b
        } else {
            &self.team_a
        };
        let next = match InningsStats::new(next_batting, next_bowling, self.form.balls_per_over) {
            Ok(st) => st,
            Err(e) => {
                return Err(e);
            },
        };
        self.current_innings_stats = Some(next);
        proof {
            assert(sum_batter_runs(self@.innings->Some_0.batting.batters) == 0) by {
                reveal_with_fuel(stats::sum_batter_runs, 3);
            }
            assert(self@ =~= close_innings(g0));
        }
        Ok(())
    }
}

/// What a delivery does to the strike: an odd count of running runs
/// rotates it; even running runs and boundary fours and sixes never do;
/// and each odd bye or leg-bye contributes one further rotation, composing
/// with the running runs by parity.
pub proof fn lemma_strike_rotation(ball: DeliveryOutcome)
    ensures
        (ball.runs is Four || ball.runs is Six) ==> switches_strike(ball) == extras_switch_strike(
            ball.extras@,
        ),
        ball.runs is Running ==> switches_strike(ball) == ((ball.runs->Running_0 % 2 == 1)
            != extras_switch_strike(ball.extras@)),
{
}

/// One delivery applied the way the engine applies it: the state advances
/// by [`game_step`] exactly when the match is open, the outcome names the
/// batter its dismissal removes, and the counters have room; on any other
/// input the state is left untouched.
pub open spec fn apply_outcome(g: GameView, ball: DeliveryOutcome) -> GameView {
    if g.innings is Some && wicket_names_crease(g.innings->Some_0.batting, ball) && delivery_fits(
        g,
        ball,
    ) {
        game_step(g, ball)
    } else {
        g
    }
}

/// Replay an ordered delivery log from a starting state.
pub open spec fn replay(g: GameView, log: Seq<DeliveryOutcome>) -> GameView
    decreases log.len(),
{
    if log.len() == 0 {
        g
    } else {
        replay(apply_outcome(g, log[0]), log.skip(1))
    }
}

/// Replaying the exact same ordered delivery log against the same fresh
/// match state twice yields the same final state, and so bit-identical
/// batting and bowling cards: the match advances as a function of the
/// prior state and the outcome alone, with no hidden input.
pub proof fn lemma_replay_deterministic(g1: GameView, g2: GameView, log: Seq<DeliveryOutcome>)
    requires
        g1 == g2,
    ensures
        replay(g1, log) == replay(g2, log),
{
}

/// The snapshot at a moment (striker, bowler, non-striker, conditions),
/// handed to a delivery-outcome model.
pub struct GameSnapshot<'a, R> where R: PlayerRating {
    pub bowler: &'a Player<R>,
    pub striker: &'a Player<R>,
    pub non_striker: &'a Player<R>,
    pub conditions: Conditions,
}

impl GameState {
    /// The identity of the current bowler, unless the match is complete.
    fn bowler(&self) -> (r: Option<PlayerId>)
        requires
            self.wf(),
        ensures
            match r {
                Some(id) => self@.innings matches Some(iv) && id == iv.bowling.current(),
                None => self@.innings is None,
            },
    {
        match &self.current_innings_stats {
            Some(st) => Some(st.bowling_stats.current_bowler()),
            None => None,
        }
    }

    /// The identity of the current striker, unless the match is complete.
    fn striker(&self) -> (r: Option<PlayerId>)
        requires
            self.wf(),
        ensures
            match r {
                Some(id) => self@.innings matches Some(iv) && id == iv.batting.batters[
                    iv.batting.striker_idx()
                ].0,
                None => self@.innings is None,
            },
    {
        match &self.current_innings_stats {
            Some(st) => Some(st.batting_stats.striker()),
            None => None,
        }
    }

    /// The identity of the current non-striker, unless the match is
    /// complete.
    fn non_striker(&self) -> (r: Option<PlayerId>)
        requires
            self.wf(),
        ensures
            match r {
                Some(id) => self@.innings matches Some(iv) && id == iv.batting.batters[
                    iv.batting.non_striker_idx()
                ].0,
                None => self@.innings is None,
            },
    {
        match &self.current_innings_stats {
            Some(st) => Some(st.batting_stats.non_striker()),
            None => None,
        }
    }

    /// Assemble the read-only snapshot a delivery-outcome model consumes.
    /// Fails if the match is complete, or if a player at the crease or on
    /// the mark is not in the registry.
    pub fn snapshot<'b, R>(&self, db: &'b PlayerDb<R>) -> (r: Result<
        GameSnapshot<'b, R>,
        Error,
    >) where R: PlayerRating
        requires
            self.wf(),
        ensures
            match r {
                Ok(snap) => self@.innings matches Some(iv) && {
                    &&& db.map@.contains_key(iv.bowling.current())
                    &&& *snap.bowler == db.map@[iv.bowling.current()]
                    &&& db.map@.contains_key(iv.batting.batters[iv.batting.striker_idx()].0)
                    &&& *snap.striker == db.map@[iv.batting.batters[iv.batting.striker_idx()].0]
                    &&& db.map@.contains_key(iv.batting.batters[iv.batting.non_striker_idx()].0)
                    &&& *snap.non_striker == db.map@[iv.batting.batters[
                        iv.batting.non_striker_idx()
                    ].0]
                    &&& snap.conditions == self.conditions
                },
                Err(e) => match e {
                    Error::MatchComplete => self@.innings is None,
                    Error::PlayerNotFound(id) => self@.innings is Some
                        && !db.map@.contains_key(id),
                    _ => false,
                },
            },
    {
        let bowler_id = match self.bowler() {
            Some(id) => id,
            None => {
                return Err(Error::MatchComplete);
            },
        };
        let striker_id = match self.striker() {
            Some(id) => id,
            None => {
                return Err(Error::MatchComplete);
            },
        };
        let non_striker_id = match self.non_striker() {
            Some(id) => id,
            None => {
                return Err(Error::MatchComplete);
            },
        };
        let bowler = match db.get(bowler_id) {
            Some(p) => p,
            None => {
                return Err(Error::PlayerNotFound(bowler_id));
            },
        };
        let striker = match db.get(striker_id) {
            Some(p) => p,
            None => {
                return Err(Error::PlayerNotFound(striker_id));
            },
        };
        let non_striker = match db.get(non_striker_id) {
            Some(p) => p,
            None => {
                return Err(Error::PlayerNotFound(non_striker_id));
            },
        };
        let conditions = self.conditions;
        Ok(GameSnapshot { bowler, striker, non_striker, conditions })
    }
}

/// Compute the total runs a delivery awards.
fn outcome_total(ball: &DeliveryOutcome) -> (r: u16)
    requires
        outcome_total_runs(*ball) <= u16::MAX,
    ensures
        r as int == outcome_total_runs(*ball),
{
    proof {
        lemma_extras_nonneg(ball.extras@);
        assert(ball.extras@.take(0) =~= Seq::<Extra>::empty());
    }
    let mut ex: u16 = 0;
    let mut i: usize = 0;
    while i < ball.extras.len()
        invariant
            i <= ball.extras@.len(),
            ex as int == extras_total(ball.extras@.take(i as int)),
            extras_total(ball.extras@) + runs_value(ball.runs) <= u16::MAX,
            0 <= runs_value(ball.runs),
        decreases ball.extras@.len() - i,
    {
        proof {
            lemma_extras_take_succ(ball.extras@, i as int);
            lemma_extras_take_le(ball.extras@, i + 1);
            lemma_extras_nonneg(ball.extras@.take(i as int));
        }
        ex = ex + ball.extras[i].runs() as u16;
        i += 1;
    }
    proof {
        assert(ball.extras@.take(ball.extras@.len() as int) =~= ball.extras@);
    }
    ball.runs.runs() as u16 + ex
}

/// Methods of dismissal. Each carries the names of the bowler/fielders
/// involved for display purposes only; the kind never changes control flow
/// beyond which batter is removed.
#[derive(Debug)]
pub enum Dismissal {
    /// Legitimate delivery hits wicket and puts it down.
    Bowled { bowler: String },
    /// Ball is hit in the air and caught in-bounds.
    Caught { caught: String, bowler: String },
    /// Leg before wicket: a delivery that would have hit the wickets instead
    /// first makes contact with the striker (not the bat).
    Lbw { bowler: String },
    /// The striker is put out while running (fielder).
    RunOutStriker(String),
    /// The only method by which the non-striker can be dismissed.
    RunOutNonStriker(String),
    /// The wicket-keeper puts down the wicket while the striker is out of the
    /// crease. Takes precedence over run-out.
    Stumped { keeper: String },
}

impl Clone for Dismissal {
    fn clone(&self) -> (r: Self)
        ensures
            r == *self,
    {
        match self {
            Dismissal::Bowled { bowler } => Dismissal::Bowled { bowler: bowler.clone() },
            Dismissal::Caught { caught, bowler } => Dismissal::Caught {
                caught: caught.clone(),
                bowler: bowler.clone(),
            },
            Dismissal::Lbw { bowler } => Dismissal::Lbw { bowler: bowler.clone() },
            Dismissal::RunOutStriker(fielder) => Dismissal::RunOutStriker(fielder.clone()),
            Dismissal::RunOutNonStriker(fielder) => Dismissal::RunOutNonStriker(fielder.clone()),
            Dismissal::Stumped { keeper } => Dismissal::Stumped { keeper: keeper.clone() },
        }
    }
}

/// Normal runs.
pub enum Runs {
    /// Runs acquired by running. Batsmen change ends if this is odd.
    /// This includes dots (value of 0).
    Running(u8),
    /// Ball reaches boundary after bouncing.
    Four,
    /// Ball crosses boundary in the air.
    Six,
}

/// The run value of a run result.
pub open spec fn runs_value(r: Runs) -> int {
    match r {
        Runs::Running(n) => n as int,
        Runs::Four => 4,
        Runs::Six => 6,
    }
}

/// Whether a run result is an odd number of running runs, which rotates the
/// strike. Boundaries never rotate the strike, however many runs they score.
pub open spec fn running_is_odd(r: Runs) -> bool {
    match r {
        Runs::Running(n) => n % 2 == 1,
        Runs::Four => false,
        Runs::Six => false,
    }
}

impl Runs {
    pub fn runs(&self) -> (n: u8)
        ensures
            n as int == runs_value(*self),
    {
        match self {
            Runs::Running(n) => *n,
            Runs::Four => 4,
            Runs::Six => 6,
        }
    }
}

/// Extra runs scored for a team that are not credited to an individual batter.
pub enum Extra {
    /// One penalty run. Additional runs can still be scored off a no-ball.
    /// These are counted against the bowler.
    NoBall,
    /// One penalty run is awarded if the ball is judged to not be hittable
    /// with a normal cricket swing. Wides are counted against the bowler.
    Wide,
    /// A bye in which the batter does not make contact and the wicket is not
    /// made; the sub-runs are credited to the team, not to the bowler.
    Bye(Runs),
    /// Similar to a bye, but with contact off the batter (not the bat) that
    /// is not LBW. Not counted against the bowler.
    LegBye(Runs),
    /// Penalty runs can also be awarded for various breaches of conduct.
    Penalty(u8),
}

/// The run value of one extra.
pub open spec fn extra_runs(e: Extra) -> int {
    match e {
        Extra::NoBall => 1,
        Extra::Wide => 1,
        Extra::Bye(r) => runs_value(r),
        Extra::LegBye(r) => runs_value(r),
        Extra::Penalty(n) => n as int,
    }
}

impl Extra {
    pub fn runs(&self) -> (n: u8)
        ensures
            n as int == extra_runs(*self),
    {
        match self {
            Extra::NoBall => 1,
            Extra::Wide => 1,
            Extra::Bye(runs) => runs.runs(),
            Extra::LegBye(runs) => runs.runs(),
            Extra::Penalty(n) => *n,
        }
    }
}

/// Whether an extra makes the delivery illegal (not counted toward the over).
pub open spec fn is_illegal_extra(e: Extra) -> bool {
    e is NoBall || e is Wide
}

/// Total run value of a list of extras.
pub open spec fn extras_total(s: Seq<Extra>) -> int
    decreases s.len(),
{
    if s.len() == 0 {
        0
    } else {
        extras_total(s.drop_last()) + extra_runs(s.last())
    }
}

/// How many of the extras are no-balls or wides. Each is worth one penalty
/// run charged to the bowler.
pub open spec fn count_no_ball_or_wide(s: Seq<Extra>) -> int
    decreases s.len(),
{
    if s.len() == 0 {
        0
    } else {
        count_no_ball_or_wide(s.drop_last()) + if is_illegal_extra(s.last()) {
            1int
        } else {
            0int
        }
    }
}

/// How many of the extras are wides.
pub open spec fn count_wides(s: Seq<Extra>) -> int
    decreases s.len(),
{
    if s.len() == 0 {
        0
    } else {
        count_wides(s.drop_last()) + if s.last() is Wide {
            1int
        } else {
            0int
        }
    }
}

/// How many of the extras are no-balls.
pub open spec fn count_no_balls(s: Seq<Extra>) -> int
    decreases s.len(),
{
    if s.len() == 0 {
        0
    } else {
        count_no_balls(s.drop_last()) + if s.last() is NoBall {
            1int
        } else {
            0int
        }
    }
}

/// Whether one extra's bye or leg-bye sub-runs are odd, which rotates the
/// strike independently of the running runs.
pub open spec fn extra_switches_strike(e: Extra) -> bool {
    match e {
        Extra::Bye(r) => running_is_odd(r),
        Extra::LegBye(r) => running_is_odd(r),
        _ => false,
    }
}

/// Net strike rotation contributed by the extras: each odd bye or leg-bye
/// toggles it.
pub open spec fn extras_switch_strike(s: Seq<Extra>) -> bool
    decreases s.len(),
{
    if s.len() == 0 {
        false
    } else {
        extras_switch_strike(s.drop_last()) != extra_switches_strike(s.last())
    }
}

pub proof fn lemma_extras_nonneg(s: Seq<Extra>)
    ensures
        0 <= extras_total(s),
        0 <= count_no_ball_or_wide(s) <= s.len(),
        0 <= count_wides(s) <= s.len(),
        0 <= count_no_balls(s) <= s.len(),
    decreases s.len(),
{
    if s.len() > 0 {
        lemma_extras_nonneg(s.drop_last());
    }
}

/// Extending a prefix of the extras by one element extends each running
/// total by that element's contribution.
pub proof fn lemma_extras_take_succ(s: Seq<Extra>, i: int)
    requires
        0 <= i < s.len(),
    ensures
        extras_total(s.take(i + 1)) == extras_total(s.take(i)) + extra_runs(s[i]),
        count_no_ball_or_wide(s.take(i + 1)) == count_no_ball_or_wide(s.take(i)) + if is_illegal_extra(s[i]) {
            1int
        } else {
            0int
        },
        count_wides(s.take(i + 1)) == count_wides(s.take(i)) + if s[i] is Wide {
            1int
        } else {
            0int
        },
        count_no_balls(s.take(i + 1)) == count_no_balls(s.take(i)) + if s[i] is NoBall {
            1int
        } else {
            0int
        },
        extras_switch_strike(s.take(i + 1)) == (extras_switch_strike(s.take(i))
            != extra_switches_strike(s[i])),
{
    assert(s.take(i + 1).drop_last() =~= s.take(i));
    assert(s.take(i + 1).last() == s[i]);
}

pub proof fn lemma_extras_take_le(s: Seq<Extra>, i: int)
    requires
        0 <= i <= s.len(),
    ensures
        extras_total(s.take(i)) <= extras_total(s),
        count_no_ball_or_wide(s.take(i)) <= count_no_ball_or_wide(s),
        count_wides(s.take(i)) <= count_wides(s),
        count_no_balls(s.take(i)) <= count_no_balls(s),
    decreases s.len(),
{
    if i == s.len() {
        assert(s.take(i) =~= s);
    } else {
        assert(s.drop_last().take(i) =~= s.take(i));
        lemma_extras_take_le(s.drop_last(), i);
        lemma_extras_nonneg(s);
    }
}

/// The outcome of a single delivery. Also known as a "ball", although a
/// delivery can result in a no-ball.
pub struct DeliveryOutcome {
    /// Whether a batter is dismissed along with the method. The ball is dead
    /// upon a dismissal so there are no double-plays.
    pub wicket: Option<(PlayerId, Dismissal)>,
    /// Runs scored by batting the ball into play.
    pub runs: Runs,
    /// Any extra runs accrued on the play.
    pub extras: Vec<Extra>,
}

/// A delivery is legal when no no-ball or wide was called on it. Only legal
/// deliveries count toward the over and toward balls faced/bowled.
pub open spec fn legal_spec(b: DeliveryOutcome) -> bool {
    forall|i: int| 0 <= i < b.extras@.len() ==> !is_illegal_extra(#[trigger] b.extras@[i])
}

/// Sub-runs on a bye or leg-bye are always running runs: a delivery whose
/// byes are recorded as boundaries is outside the model.
pub open spec fn outcome_wf(b: DeliveryOutcome) -> bool {
    forall|i: int| 0 <= i < b.extras@.len() ==> match #[trigger] b.extras@[i] {
        Extra::Bye(r) => r is Running,
        Extra::LegBye(r) => r is Running,
        _ => true,
    }
}

/// Total runs awarded by the delivery: off-the-bat runs plus all extras.
pub open spec fn outcome_total_runs(b: DeliveryOutcome) -> int {
    runs_value(b.runs) + extras_total(b.extras@)
}

/// Whether the delivery leaves the batters at swapped ends: an odd number of
/// running runs toggles it, and so does each odd bye or leg-bye.
pub open spec fn switches_strike(b: DeliveryOutcome) -> bool {
    running_is_odd(b.runs) != extras_switch_strike(b.extras@)
}

impl DeliveryOutcome {
    /// Whether the delivery should count as a legal ball.
    pub fn legal(&self) -> (r: bool)
        ensures
            r == legal_spec(*self),
    {
        let mut i: usize = 0;
        while i < self.extras.len()
            invariant
                i <= self.extras@.len(),
                forall|j: int| 0 <= j < i ==> !is_illegal_extra(#[trigger] self.extras@[j]),
            decreases self.extras@.len() - i,
        {
            match self.extras[i] {
                Extra::NoBall => {
                    return false;
                },
                Extra::Wide => {
                    return false;
                },
                _ => {},
            }
            i += 1;
        }
        true
    }

    /// A wicket falling to the bowler: bowled.
    pub fn bowled(striker_id: PlayerId, bowler_name: &str) -> (r: Self)
        ensures
            r.wicket matches Some((id, Dismissal::Bowled { bowler }))
                && id == striker_id && bowler@ == bowler_name@,
            r.runs is Running && runs_value(r.runs) == 0,
            r.extras@.len() == 0,
    {
        DeliveryOutcome {
            wicket: Some((striker_id, Dismissal::Bowled { bowler: bowler_name.to_owned() })),
            ..DeliveryOutcome::default()
        }
    }

    /// A wicket falling to a catch in the field.
    pub fn caught(striker_id: PlayerId, bowler_name: &str, catcher_name: &str) -> (r: Self)
        ensures
            r.wicket matches Some((id, Dismissal::Caught { caught, bowler }))
                && id == striker_id && caught@ == catcher_name@ && bowler@ == bowler_name@,
            r.runs is Running && runs_value(r.runs) == 0,
            r.extras@.len() == 0,
    {
        DeliveryOutcome {
            wicket: Some(
                (
                    striker_id,
                    Dismissal::Caught {
                        caught: catcher_name.to_owned(),
                        bowler: bowler_name.to_owned(),
                    },
                ),
            ),
            ..DeliveryOutcome::default()
        }
    }

    /// A wicket falling leg-before-wicket.
    pub fn lbw(striker_id: PlayerId, bowler_name: &str) -> (r: Self)
        ensures
            r.wicket matches Some((id, Dismissal::Lbw { bowler }))
                && id == striker_id && bowler@ == bowler_name@,
            r.runs is Running && runs_value(r.runs) == 0,
            r.extras@.len() == 0,
    {
        DeliveryOutcome {
            wicket: Some((striker_id, Dismissal::Lbw { bowler: bowler_name.to_owned() })),
            ..DeliveryOutcome::default()
        }
    }

    /// A dot ball: no runs, no wicket, no extras.
    pub fn dot() -> (r: Self)
        ensures
            r.wicket is None,
            r.runs is Running && runs_value(r.runs) == 0,
            r.extras@.len() == 0,
    {
        DeliveryOutcome::default()
    }

    /// A boundary four.
    pub fn four() -> (r: Self)
        ensures
            r.wicket is None,
            r.runs is Four,
            r.extras@.len() == 0,
    {
        DeliveryOutcome { runs: Runs::Four, ..DeliveryOutcome::default() }
    }

    /// A boundary six.
    pub fn six() -> (r: Self)
        ensures
            r.wicket is None,
            r.runs is Six,
            r.extras@.len() == 0,
    {
        DeliveryOutcome { runs: Runs::Six, ..DeliveryOutcome::default() }
    }

    /// A given number of running runs.
    pub fn running(runs: u8) -> (r: Self)
        ensures
            r.wicket is None,
            r.runs == Runs::Running(runs),
            r.extras@.len() == 0,
    {
        DeliveryOutcome { runs: Runs::Running(runs), ..DeliveryOutcome::default() }
    }
}

impl Default for DeliveryOutcome {
    fn default() -> (r: Self)
        ensures
            r.wicket is None,
            r.runs is Running && runs_value(r.runs) == 0,
            r.extras@.len() == 0,
    {
        DeliveryOutcome { wicket: None, runs: Runs::Running(0), extras: Vec::new() }
    }
}

} // verus!
