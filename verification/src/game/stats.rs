//! Player and team stats from a match.

use vstd::prelude::*;
use crate::error::Error;
use crate::game::{
    count_no_ball_or_wide, count_no_balls, count_wides, extras_switch_strike, extras_total,
    legal_spec, lemma_extras_nonneg, lemma_extras_take_le, lemma_extras_take_succ,
    outcome_total_runs, running_is_odd, runs_value, switches_strike, DeliveryOutcome, Dismissal,
    Extra, Runs,
};
use crate::player::PlayerId;
use crate::team::{distinct_roster, player_ids, BattingOrder, Bowlers, Team};

verus! {

/// The stats of a batter for a single innings.
#[derive(Debug)]
pub struct BatterInningsStats {
    /// Runs scored by this batter.
    pub runs: u16,
    /// Legal deliveries made to this batter.
    pub balls: u16,
    /// Whether the batter has been made out.
    pub out: Option<Dismissal>,
    /// Number of fours scored (the runs are also included in `runs`).
    pub fours: u8,
    /// Number of sixes scored (the runs are also included in `runs`).
    pub sixes: u8,
}

/// A batter's record before they have faced a ball.
pub open spec fn blank_batter() -> BatterInningsStats {
    BatterInningsStats { runs: 0u16, balls: 0u16, out: None, fours: 0u8, sixes: 0u8 }
}

impl Default for BatterInningsStats {
    /// Initialize all stats to zero, not out.
    fn default() -> (r: Self)
        ensures
            r == blank_batter(),
    {
        BatterInningsStats { runs: 0, balls: 0, out: None, fours: 0, sixes: 0 }
    }
}

/// Sum of the individual batters' runs.
pub open spec fn sum_batter_runs(s: Seq<(PlayerId, BatterInningsStats)>) -> int
    decreases s.len(),
{
    if s.len() == 0 {
        0
    } else {
        sum_batter_runs(s.drop_last()) + s.last().1.runs
    }
}

/// Number of batters already dismissed.
pub open spec fn count_out(s: Seq<(PlayerId, BatterInningsStats)>) -> int
    decreases s.len(),
{
    if s.len() == 0 {
        0
    } else {
        count_out(s.drop_last()) + if s.last().1.out is Some {
            1int
        } else {
            0int
        }
    }
}

/// The identities in a batting list, in order.
pub open spec fn ids_of(s: Seq<(PlayerId, BatterInningsStats)>) -> Seq<PlayerId> {
    s.map(|i: int, p: (PlayerId, BatterInningsStats)| p.0)
}

pub proof fn lemma_sum_runs_nonneg(s: Seq<(PlayerId, BatterInningsStats)>)
    ensures
        0 <= sum_batter_runs(s),
    decreases s.len(),
{
    if s.len() > 0 {
        lemma_sum_runs_nonneg(s.drop_last());
    }
}

pub proof fn lemma_count_out_bounds(s: Seq<(PlayerId, BatterInningsStats)>)
    ensures
        0 <= count_out(s) <= s.len(),
    decreases s.len(),
{
    if s.len() > 0 {
        lemma_count_out_bounds(s.drop_last());
    }
}

pub proof fn lemma_sum_runs_take_succ(s: Seq<(PlayerId, BatterInningsStats)>, i: int)
    requires
        0 <= i < s.len(),
    ensures
        sum_batter_runs(s.take(i + 1)) == sum_batter_runs(s.take(i)) + s[i].1.runs,
        count_out(s.take(i + 1)) == count_out(s.take(i)) + if s[i].1.out is Some {
            1int
        } else {
            0int
        },
{
    assert(s.take(i + 1).drop_last() =~= s.take(i));
    assert(s.take(i + 1).last() == s[i]);
}

pub proof fn lemma_sum_runs_take_le(s: Seq<(PlayerId, BatterInningsStats)>, i: int)
    requires
        0 <= i <= s.len(),
    ensures
        sum_batter_runs(s.take(i)) <= sum_batter_runs(s),
    decreases s.len(),
{
    if i == s.len() {
        assert(s.take(i) =~= s);
    } else {
        assert(s.drop_last().take(i) =~= s.take(i));
        lemma_sum_runs_take_le(s.drop_last(), i);
    }
}

pub proof fn lemma_sum_runs_elem_le(s: Seq<(PlayerId, BatterInningsStats)>, i: int)
    requires
        0 <= i < s.len(),
    ensures
        s[i].1.runs <= sum_batter_runs(s),
    decreases s.len(),
{
    if i == s.len() - 1 {
        lemma_sum_runs_nonneg(s.drop_last());
    } else {
        lemma_sum_runs_elem_le(s.drop_last(), i);
    }
}

pub proof fn lemma_sum_runs_update(
    s: Seq<(PlayerId, BatterInningsStats)>,
    i: int,
    p: (PlayerId, BatterInningsStats),
)
    requires
        0 <= i < s.len(),
    ensures
        sum_batter_runs(s.update(i, p)) == sum_batter_runs(s) - s[i].1.runs + p.1.runs,
        count_out(s.update(i, p)) == count_out(s) - (if s[i].1.out is Some {
            1int
        } else {
            0int
        }) + (if p.1.out is Some {
            1int
        } else {
            0int
        }),
    decreases s.len(),
{
    if i == s.len() - 1 {
        assert(s.update(i, p).drop_last() =~= s.drop_last());
        assert(s.update(i, p).last() == p);
    } else {
        assert(s.update(i, p).drop_last() =~= s.drop_last().update(i, p));
        assert(s.update(i, p).last() == s.last());
        lemma_sum_runs_update(s.drop_last(), i, p);
    }
}

pub proof fn lemma_sum_runs_push(
    s: Seq<(PlayerId, BatterInningsStats)>,
    p: (PlayerId, BatterInningsStats),
)
    ensures
        sum_batter_runs(s.push(p)) == sum_batter_runs(s) + p.1.runs,
        count_out(s.push(p)) == count_out(s) + if p.1.out is Some {
            1int
        } else {
            0int
        },
{
    assert(s.push(p).drop_last() =~= s);
    assert(s.push(p).last() == p);
}

/// The batting half of an innings, abstracted: the upcoming order, the
/// batting list so far, the team's extras, the two crease slots, and which
/// of them is on strike.
#[verifier::ext_equal]
pub struct BattingView {
    pub order: Seq<PlayerId>,
    pub batters: Seq<(PlayerId, BatterInningsStats)>,
    pub extras: int,
    pub batter_a: int,
    pub batter_b: int,
    pub striker_a: bool,
}

impl BattingView {
    /// Index of the striker's row in `batters`.
    pub open spec fn striker_idx(self) -> int {
        if self.striker_a {
            self.batter_a
        } else {
            self.batter_b
        }
    }

    /// Index of the non-striker's row in `batters`.
    pub open spec fn non_striker_idx(self) -> int {
        if self.striker_a {
            self.batter_b
        } else {
            self.batter_a
        }
    }

    /// A crease slot points past the end of the list: too few batters remain
    /// to field a pair, so the innings must end.
    pub open spec fn all_out(self) -> bool {
        self.batter_a >= self.batters.len() || self.batter_b >= self.batters.len()
    }

    /// Total team runs: every batter's runs plus the team's extras.
    pub open spec fn team_runs(self) -> int {
        sum_batter_runs(self.batters) + self.extras
    }

    /// Wickets fallen.
    pub open spec fn wickets(self) -> int {
        count_out(self.batters)
    }

    /// The number of batters this innings can ever see: those already at or
    /// past the crease plus those still waiting.
    pub open spec fn lineup_len(self) -> int {
        self.batters.len() + self.order.len() as int
    }

    /// Every identity in the innings, batting list first, then the waiting
    /// order.
    pub open spec fn all_ids(self) -> Seq<PlayerId> {
        ids_of(self.batters) + self.order
    }

    /// Well-formedness of the batting half.
    ///
    /// While the innings is open the two crease slots are distinct rows of
    /// not-out batters and every other row is out; once it is closed, the
    /// waiting order is exhausted and exactly one slot dangles past the end,
    /// so the wickets equal the lineup size less the one not-out survivor.
    pub open spec fn wf(self) -> bool {
        &&& 2 <= self.batters.len()
        &&& self.lineup_len() <= 255
        &&& 0 <= self.extras
        &&& self.team_runs() <= u16::MAX
        &&& (forall|i: int, j: int|
            0 <= i < j < self.all_ids().len() ==> self.all_ids()[i] != self.all_ids()[j])
        &&& if !self.all_out() {
            &&& 0 <= self.batter_a < self.batters.len()
            &&& 0 <= self.batter_b < self.batters.len()
            &&& self.batter_a != self.batter_b
            &&& self.batters[self.batter_a].1.out is None
            &&& self.batters[self.batter_b].1.out is None
            &&& count_out(self.batters) == self.batters.len() - 2
        } else {
            &&& self.order.len() == 0
            &&& count_out(self.batters) == self.batters.len() - 1
            &&& ((self.batter_a == self.batters.len() && 0 <= self.batter_b
                < self.batters.len() && self.batters[self.batter_b].1.out is None) || (
            self.batter_b == self.batters.len() && 0 <= self.batter_a < self.batters.len()
                && self.batters[self.batter_a].1.out is None))
        }
    }
}

/// The striker's record after one delivery: charged a ball if the delivery
/// was legal, credited the off-the-bat runs, and the boundary counters
/// bumped.
pub open spec fn bump_striker(st: BatterInningsStats, ball: DeliveryOutcome) -> BatterInningsStats {
    BatterInningsStats {
        runs: (st.runs + runs_value(ball.runs)) as u16,
        balls: if legal_spec(ball) {
            (st.balls + 1) as u16
        } else {
            st.balls
        },
        out: st.out,
        fours: if ball.runs is Four {
            (st.fours + 1) as u8
        } else {
            st.fours
        },
        sixes: if ball.runs is Six {
            (st.sixes + 1) as u8
        } else {
            st.sixes
        },
    }
}

/// The batting list with the dismissal recorded against row `i`.
pub open spec fn mark_out(
    s: Seq<(PlayerId, BatterInningsStats)>,
    i: int,
    d: Dismissal,
) -> Seq<(PlayerId, BatterInningsStats)> {
    s.update(i, (s[i].0, BatterInningsStats { out: Some(d), ..s[i].1 }))
}

/// Refill one crease slot: if its row is out, the slot moves past the end of
/// the list and, when the order still has a batter, that batter's fresh row
/// is appended there; a slot left dangling is the all-out signal.
pub open spec fn refill(
    batters: Seq<(PlayerId, BatterInningsStats)>,
    order: Seq<PlayerId>,
    slot: int,
) -> (int, Seq<(PlayerId, BatterInningsStats)>, Seq<PlayerId>) {
    if batters[slot].1.out is Some {
        if order.len() > 0 {
            (batters.len() as int, batters.push((order[0], blank_batter())), order.skip(1))
        } else {
            (batters.len() as int, batters, order)
        }
    } else {
        (slot, batters, order)
    }
}

/// What one delivery does to the batting half.
pub open spec fn batting_step(v: BattingView, ball: DeliveryOutcome) -> BattingView {
    let si = v.striker_idx();
    let b1 = v.batters.update(si, (v.batters[si].0, bump_striker(v.batters[si].1, ball)));
    let e1 = v.extras + extras_total(ball.extras@);
    let b2 = match ball.wicket {
        Some(w) => mark_out(
            b1,
            if w.1 is RunOutNonStriker {
                v.non_striker_idx()
            } else {
                si
            },
            w.1,
        ),
        None => b1,
    };
    let ra = refill(b2, v.order, v.batter_a);
    let rb = refill(ra.1, ra.2, v.batter_b);
    BattingView {
        order: rb.2,
        batters: rb.1,
        extras: e1,
        batter_a: ra.0,
        batter_b: rb.0,
        striker_a: if switches_strike(ball) {
            !v.striker_a
        } else {
            v.striker_a
        },
    }
}

/// A dismissal names the batter it removes: the striker, unless the kind is
/// the non-striker run-out. This is the outcome's validity against the
/// current crease.
pub open spec fn wicket_names_crease(v: BattingView, ball: DeliveryOutcome) -> bool {
    match ball.wicket {
        Some(w) => if w.1 is RunOutNonStriker {
            w.0 == v.batters[v.non_striker_idx()].0
        } else {
            w.0 == v.batters[v.striker_idx()].0
        },
        None => true,
    }
}

/// The batting half's fixed-width counters have room for what the delivery
/// adds.
pub open spec fn batting_fits(v: BattingView, ball: DeliveryOutcome) -> bool {
    &&& v.team_runs() + outcome_total_runs(ball) <= u16::MAX
    &&& (legal_spec(ball) ==> v.batters[v.striker_idx()].1.balls < u16::MAX)
    &&& (ball.runs is Four ==> v.batters[v.striker_idx()].1.fours < u8::MAX)
    &&& (ball.runs is Six ==> v.batters[v.striker_idx()].1.sixes < u8::MAX)
}

/// The inputs on which a batting update is meaningful: the innings is open,
/// a dismissal names the batter it removes, and the counters have room.
pub open spec fn batting_update_ok(v: BattingView, ball: DeliveryOutcome) -> bool {
    &&& !v.all_out()
    &&& wicket_names_crease(v, ball)
    &&& batting_fits(v, ball)
}

/// One batting step keeps the batting half well formed and moves its
/// observable quantities exactly as the delivery says: the team total grows
/// by the delivery's runs, the wickets by one per dismissal, the lineup is
/// conserved, the strike rotates on net odd runs, and the innings closes if
/// and only if a wicket fell with nobody left to come in.
pub proof fn lemma_batting_step_ok(v: BattingView, ball: DeliveryOutcome)
    requires
        v.wf(),
        batting_update_ok(v, ball),
    ensures
        batting_step(v, ball).wf(),
        batting_step(v, ball).lineup_len() == v.lineup_len(),
        batting_step(v, ball).team_runs() == v.team_runs() + outcome_total_runs(ball),
        batting_step(v, ball).wickets() == v.wickets() + (if ball.wicket is Some {
            1int
        } else {
            0int
        }),
        batting_step(v, ball).all_out() <==> (ball.wicket is Some && v.order.len() == 0),
        batting_step(v, ball).striker_a == (v.striker_a != switches_strike(ball)),
{
    let s = batting_step(v, ball);
    let si = v.striker_idx();
    let bumped = (v.batters[si].0, bump_striker(v.batters[si].1, ball));
    let b1 = v.batters.update(si, bumped);
    lemma_sum_runs_nonneg(v.batters);
    lemma_sum_runs_elem_le(v.batters, si);
    lemma_extras_nonneg(ball.extras@);
    lemma_sum_runs_update(v.batters, si, bumped);
    assert(ids_of(b1) =~= ids_of(v.batters));
    assert(sum_batter_runs(b1) == sum_batter_runs(v.batters) + runs_value(ball.runs));
    assert(count_out(b1) == count_out(v.batters));
    match ball.wicket {
        Some(w) => {
            let oi = if w.1 is RunOutNonStriker {
                v.non_striker_idx()
            } else {
                si
            };
            let marked = (b1[oi].0, BatterInningsStats { out: Some(w.1), ..b1[oi].1 });
            let b2 = mark_out(b1, oi, w.1);
            lemma_sum_runs_update(b1, oi, marked);
            assert(ids_of(b2) =~= ids_of(b1));
            assert(b1[oi].1.out is None);
            assert(count_out(b2) == count_out(b1) + 1);
            assert(sum_batter_runs(b2) == sum_batter_runs(b1));
            let ra = refill(b2, v.order, v.batter_a);
            let rb = refill(ra.1, ra.2, v.batter_b);
            // Exactly one of the two slots was dismissed, so exactly one
            // refill fires.
            if oi == v.batter_a {
                assert(b2[v.batter_b].1.out is None);
                if v.order.len() > 0 {
                    lemma_sum_runs_push(b2, (v.order[0], blank_batter()));
                    assert(ids_of(ra.1) =~= ids_of(b2).push(v.order[0]));
                    assert(s.all_ids() =~= v.all_ids());
                } else {
                    assert(s.all_ids() =~= v.all_ids());
                }
            } else {
                assert(oi == v.batter_b);
                assert(b2[v.batter_a].1.out is None);
                assert(ra.1 == b2 && ra.2 == v.order && ra.0 == v.batter_a);
                if v.order.len() > 0 {
                    lemma_sum_runs_push(b2, (v.order[0], blank_batter()));
                    assert(ids_of(rb.1) =~= ids_of(b2).push(v.order[0]));
                    assert(s.all_ids() =~= v.all_ids());
                } else {
                    assert(s.all_ids() =~= v.all_ids());
                }
            }
        },
        None => {
            assert(b1[v.batter_a].1.out is None);
            assert(b1[v.batter_b].1.out is None);
            assert(s.batters == b1);
            assert(s.all_ids() =~= v.all_ids());
        },
    }
}

/// Tracks one side's batting through an innings.
pub struct TeamBattingInningsStats {
    /// The side's batting order, consumed from the front.
    pub batting_order: BattingOrder,
    /// Individual batting stats, one row per batter who has come in.
    pub batters: Vec<(PlayerId, BatterInningsStats)>,
    /// Extra runs awarded to the team this innings.
    pub extras: u16,
    /// Index of one of the current batters in `batters`.
    pub batter_a: usize,
    /// The other of the current batters.
    pub batter_b: usize,
    /// Whether `batter_a` is the striker.
    pub striker_a: bool,
}

impl View for TeamBattingInningsStats {
    type V = BattingView;

    open spec fn view(&self) -> BattingView {
        BattingView {
            order: self.batting_order.upcoming(),
            batters: self.batters@,
            extras: self.extras as int,
            batter_a: self.batter_a as int,
            batter_b: self.batter_b as int,
            striker_a: self.striker_a,
        }
    }
}

impl TeamBattingInningsStats {
    pub open spec fn wf(self) -> bool {
        &&& self.batting_order.wf()
        &&& self@.wf()
    }

    /// Create a new team stats object for a fresh innings: the first two
    /// batters of the order take the crease, the opener on strike.
    pub fn new(team: &Team) -> (r: Result<Self, Error>)
        requires
            distinct_roster(*team),
        ensures
            match r {
                Ok(s) => {
                    &&& team.players@.len() >= 2
                    &&& s.wf()
                    &&& s@.order == player_ids(*team).skip(2)
                    &&& s@.batters == seq![
                        (player_ids(*team)[0], blank_batter()),
                        (player_ids(*team)[1], blank_batter()),
                    ]
                    &&& s@.extras == 0
                    &&& s@.batter_a == 0
                    &&& s@.batter_b == 1
                    &&& s@.striker_a == true
                    &&& s@.lineup_len() == team.players@.len()
                },
                Err(e) => team.players@.len() < 2 && e is MissingData,
            },
    {
        let mut batting_order = team.batting_order();
        let mut batters: Vec<(PlayerId, BatterInningsStats)> = Vec::new();
        let first = match batting_order.next() {
            Some(p) => p,
            None => {
                return Err(Error::MissingData("No first batter".to_owned()));
            },
        };
        batters.push((first, BatterInningsStats::default()));
        let second = match batting_order.next() {
            Some(p) => p,
            None => {
                return Err(Error::MissingData("No second batter".to_owned()));
            },
        };
        batters.push((second, BatterInningsStats::default()));
        let s = TeamBattingInningsStats {
            batting_order,
            batters,
            extras: 0,
            batter_a: 0,
            batter_b: 1,
            striker_a: true,
        };
        proof {
            let ids = player_ids(*team);
            assert(s@.order =~= ids.skip(2));
            assert(s@.batters =~= seq![(ids[0], blank_batter()), (ids[1], blank_batter())]);
            assert(s@.all_ids() =~= ids);
            assert(count_out(s@.batters) == 0) by {
                reveal_with_fuel(count_out, 3);
            }
            assert(sum_batter_runs(s@.batters) == 0) by {
                reveal_with_fuel(sum_batter_runs, 3);
            }
        }
        Ok(s)
    }

    /// Returns true iff the innings is over: a crease slot cannot be filled.
    pub fn all_out(&self) -> (r: bool)
        ensures
            r == self@.all_out(),
    {
        let num_batters = self.batters.len();
        self.batter_a >= num_batters || self.batter_b >= num_batters
    }

    /// Return the total number of team runs: the sum of every batter's runs
    /// plus the team's extras.
    pub fn team_runs(&self) -> (r: u16)
        requires
            self.wf(),
        ensures
            r as int == self@.team_runs(),
    {
        let mut batter_runs: u16 = 0;
        let mut i: usize = 0;
        proof {
            assert(self@.batters.take(0) =~= Seq::<(PlayerId, BatterInningsStats)>::empty());
        }
        while i < self.batters.len()
            invariant
                self.wf(),
                i <= self@.batters.len(),
                batter_runs as int == sum_batter_runs(self@.batters.take(i as int)),
            decreases self@.batters.len() - i,
        {
            proof {
                lemma_sum_runs_take_succ(self@.batters, i as int);
                lemma_sum_runs_take_le(self@.batters, i + 1);
                lemma_sum_runs_nonneg(self@.batters.take(i as int));
            }
            batter_runs += self.batters[i].1.runs;
            i += 1;
        }
        proof {
            assert(self@.batters.take(self@.batters.len() as int) =~= self@.batters);
        }
        batter_runs + self.extras
    }

    /// Return the total number of wickets fallen so far.
    pub fn wickets(&self) -> (r: u8)
        requires
            self.wf(),
        ensures
            r as int == self@.wickets(),
    {
        let mut n: usize = 0;
        let mut i: usize = 0;
        proof {
            assert(self@.batters.take(0) =~= Seq::<(PlayerId, BatterInningsStats)>::empty());
        }
        while i < self.batters.len()
            invariant
                self.wf(),
                i <= self@.batters.len(),
                n as int == count_out(self@.batters.take(i as int)),
            decreases self@.batters.len() - i,
        {
            proof {
                lemma_sum_runs_take_succ(self@.batters, i as int);
                lemma_count_out_bounds(self@.batters.take(i as int));
            }
            if self.batters[i].1.out.is_some() {
                n += 1;
            }
            i += 1;
        }
        proof {
            assert(self@.batters.take(self@.batters.len() as int) =~= self@.batters);
            lemma_count_out_bounds(self@.batters);
        }
        n as u8
    }

    /// Switch which batter is the striker. This is done on a new over, and
    /// automatically when an odd number of runs are scored.
    pub fn switch_striker(&mut self)
        ensures
            *final(self) == (TeamBattingInningsStats { striker_a: !old(self).striker_a, ..*old(
                self,
            ) }),
    {
        self.striker_a = !self.striker_a;
    }

    /// Returns the identity of the current striker.
    pub fn striker(&self) -> (r: PlayerId)
        requires
            self.wf(),
            !self@.all_out(),
        ensures
            r == self@.batters[self@.striker_idx()].0,
    {
        let striker_idx = if self.striker_a {
            self.batter_a
        } else {
            self.batter_b
        };
        self.batters[striker_idx].0
    }

    /// Update the stats of the batting side based on a delivery outcome,
    /// executed once per delivery whether or not the delivery was legal.
    ///
    /// The batting half changes exactly as [`batting_step`] says: the striker
    /// is charged the ball (if legal) and credited the off-the-bat runs, the
    /// extras go to the team, the named batter's dismissal is recorded and
    /// their crease slot refilled from the order (dangling past the end of
    /// the list when no batter remains, which is the all-out signal), and the
    /// strike rotates on net odd runs.
    pub fn update(&mut self, ball: &DeliveryOutcome) -> (r: Result<(), Error>)
        requires
            old(self).wf(),
            batting_update_ok(old(self)@, *ball),
        ensures
            r is Ok,
            final(self).wf(),
            final(self)@ == batting_step(old(self)@, *ball),
            final(self)@.lineup_len() == old(self)@.lineup_len(),
            final(self)@.team_runs() == old(self)@.team_runs() + outcome_total_runs(*ball),
            final(self)@.wickets() == old(self)@.wickets() + (if ball.wicket is Some {
                1int
            } else {
                0int
            }),
            final(self)@.all_out() <==> (ball.wicket is Some && old(self)@.order.len() == 0),
            final(self)@.striker_a == (old(self)@.striker_a != switches_strike(*ball)),
    {
        let ghost v0 = self@;
        proof {
            lemma_batting_step_ok(v0, *ball);
            lemma_sum_runs_elem_le(v0.batters, v0.striker_idx());
            lemma_sum_runs_nonneg(v0.batters);
            lemma_extras_nonneg(ball.extras@);
        }
        let striker_idx = if self.striker_a {
            self.batter_a
        } else {
            self.batter_b
        };
        let non_striker_idx = if self.striker_a {
            self.batter_b
        } else {
            self.batter_a
        };

        if ball.legal() {
            self.batters[striker_idx].1.balls = self.batters[striker_idx].1.balls + 1;
        }

        let mut switch_striker: bool = false;

        // Add runs to the striker's total and boundary counters.
        match &ball.runs {
            Runs::Running(x) => {
                if *x % 2 == 1 {
                    switch_striker = !switch_striker;
                }
                self.batters[striker_idx].1.runs = self.batters[striker_idx].1.runs + (*x as u16);
            },
            Runs::Four => {
                self.batters[striker_idx].1.runs = self.batters[striker_idx].1.runs + 4;
                self.batters[striker_idx].1.fours = self.batters[striker_idx].1.fours + 1;
            },
            Runs::Six => {
                self.batters[striker_idx].1.runs = self.batters[striker_idx].1.runs + 6;
                self.batters[striker_idx].1.sixes = self.batters[striker_idx].1.sixes + 1;
            },
        }
        let ghost b1 = v0.batters.update(
            v0.striker_idx(),
            (v0.batters[v0.striker_idx()].0, bump_striker(v0.batters[v0.striker_idx()].1, *ball)),
        );
        proof {
            assert(self@.batters =~= b1);
            assert(switch_striker == running_is_odd(ball.runs));
        }

        // Accumulate extras into the team's total.
        let mut ex: u16 = 0;
        let mut i: usize = 0;
        proof {
            assert(ball.extras@.take(0) =~= Seq::<Extra>::empty());
        }
        while i < ball.extras.len()
            invariant
                i <= ball.extras@.len(),
                ex as int == extras_total(ball.extras@.take(i as int)),
                extras_total(ball.extras@) <= u16::MAX,
            decreases ball.extras@.len() - i,
        {
            proof {
                lemma_extras_take_succ(ball.extras@, i as int);
                lemma_extras_take_le(ball.extras@, i + 1);
                lemma_extras_nonneg(ball.extras@.take(i as int));
            }
            ex = ex + ball.extras[i].runs() as u16;
            i += 1;
        }
        proof {
            assert(ball.extras@.take(ball.extras@.len() as int) =~= ball.extras@);
        }
        self.extras = self.extras + ex;

        // Switch if byes or leg byes net an odd number of sub-runs.
        let mut j: usize = 0;
        while j < ball.extras.len()
            invariant
                j <= ball.extras@.len(),
                switch_striker == (running_is_odd(ball.runs) != extras_switch_strike(
                    ball.extras@.take(j as int),
                )),
            decreases ball.extras@.len() - j,
        {
            proof {
                lemma_extras_take_succ(ball.extras@, j as int);
            }
            match &ball.extras[j] {
                Extra::Bye(r) => {
                    match r {
                        Runs::Running(b) => {
                            if *b % 2 == 1 {
                                switch_striker = !switch_striker;
                            }
                        },
                        _ => {},
                    }
                },
                Extra::LegBye(r) => {
                    match r {
                        Runs::Running(b) => {
                            if *b % 2 == 1 {
                                switch_striker = !switch_striker;
                            }
                        },
                        _ => {},
                    }
                },
                _ => {},
            }
            j += 1;
        }
        proof {
            assert(ball.extras@.take(ball.extras@.len() as int) =~= ball.extras@);
            assert(switch_striker == switches_strike(*ball));
        }

        // Record the dismissal against the named batter.
        if let Some((_, wicket)) = &ball.wicket {
            let oi = if matches!(wicket, Dismissal::RunOutNonStriker(_)) {
                non_striker_idx
            } else {
                striker_idx
            };
            self.batters[oi].1.out = Some(wicket.clone());
        }
        let ghost b2 = if ball.wicket is Some {
            mark_out(
                b1,
                if ball.wicket->Some_0.1 is RunOutNonStriker {
                    v0.non_striker_idx()
                } else {
                    v0.striker_idx()
                },
                ball.wicket->Some_0.1,
            )
        } else {
            b1
        };
        proof {
            assert(self@.batters =~= b2);
        }

        // Replace batters if they've been made out; a slot that cannot be
        // refilled is left dangling past the end of the list.
        if self.batters[self.batter_a].1.out.is_some() {
            self.batter_a = self.batters.len();
            if let Some(batter) = self.batting_order.next() {
                self.batters.push((batter, BatterInningsStats::default()));
            }
        }
        let ghost ra = refill(b2, v0.order, v0.batter_a);
        proof {
            assert(self@.batters =~= ra.1);
            assert(self@.order =~= ra.2);
            assert(self.batter_a as int == ra.0);
        }
        if self.batters[self.batter_b].1.out.is_some() {
            self.batter_b = self.batters.len();
            if let Some(batter) = self.batting_order.next() {
                self.batters.push((batter, BatterInningsStats::default()));
            }
        }
        let ghost rb = refill(ra.1, ra.2, v0.batter_b);
        proof {
            assert(self@.batters =~= rb.1);
            assert(self@.order =~= rb.2);
            assert(self.batter_b as int == rb.0);
        }

        if switch_striker {
            self.switch_striker();
        }
        proof {
            assert(self@ =~= batting_step(v0, *ball));
        }
        Ok(())
    }

    /// Returns the identity of the current non-striker.
    pub fn non_striker(&self) -> (r: PlayerId)
        requires
            self.wf(),
            !self@.all_out(),
        ensures
            r == self@.batters[self@.non_striker_idx()].0,
    {
        let non_striker_idx = if self.striker_a {
            self.batter_b
        } else {
            self.batter_a
        };
        self.batters[non_striker_idx].0
    }
}

/// The bowling stats of a single bowler in a single innings.
#[derive(Debug)]
pub struct BowlerInningsStats {
    /// Number of legal balls bowled.
    pub balls: u16,
    /// Maiden overs: completed overs that conceded no chargeable run.
    pub maiden_overs: u16,
    /// Runs conceded: off-the-bat runs plus no-ball and wide penalties;
    /// byes and leg-byes are the team's, not the bowler's.
    pub runs: u16,
    /// Wickets taken.
    pub wickets: u8,
    /// Wides bowled.
    pub wides: u16,
    /// No-balls bowled.
    pub no_balls: u16,
}

/// A bowler's record before their first ball of the innings.
pub open spec fn blank_bowler() -> BowlerInningsStats {
    BowlerInningsStats {
        balls: 0u16,
        maiden_overs: 0u16,
        runs: 0u16,
        wickets: 0u8,
        wides: 0u16,
        no_balls: 0u16,
    }
}

impl Default for BowlerInningsStats {
    /// Initialize all stats to zero.
    fn default() -> (r: Self)
        ensures
            r == blank_bowler(),
    {
        BowlerInningsStats { balls: 0, maiden_overs: 0, runs: 0, wickets: 0, wides: 0, no_balls: 0 }
    }
}

/// The runs a delivery charges to its bowler: the off-the-bat runs and the
/// one-run penalty for each no-ball or wide, but no byes or leg-byes.
pub open spec fn chargeable_runs(ball: DeliveryOutcome) -> int {
    runs_value(ball.runs) + count_no_ball_or_wide(ball.extras@)
}

/// The bowling half of an innings, abstracted: the rotation, the bowling
/// list so far, which row is bowling, and whether the running over is still
/// a maiden.
#[verifier::ext_equal]
pub struct BowlingView {
    pub rotation: Seq<PlayerId>,
    pub last: PlayerId,
    pub stats: Seq<(PlayerId, BowlerInningsStats)>,
    pub idx: int,
    pub maiden: bool,
}

impl BowlingView {
    /// The identity of the bowler of the current over.
    pub open spec fn current(self) -> PlayerId {
        self.stats[self.idx].0
    }

    /// Well-formedness of the bowling half: the rotation can always produce
    /// a fresh bowler, the current row exists and belongs to the bowler the
    /// rotation handed out last, and every row is one of the two designated
    /// bowlers, each at most once.
    pub open spec fn wf(self) -> bool {
        &&& self.rotation.len() >= 2
        &&& self.rotation[0] != self.rotation[1]
        &&& (self.last == self.rotation[0] || self.last == self.rotation[1])
        &&& 0 <= self.idx < self.stats.len()
        &&& self.stats[self.idx].0 == self.last
        &&& (forall|i: int|
            0 <= i < self.stats.len() ==> (#[trigger] self.stats[i]).0 == self.rotation[0]
                || self.stats[i].0 == self.rotation[1])
        &&& (forall|i: int, j: int|
            0 <= i < j < self.stats.len() ==> (#[trigger] self.stats[i]).0 != (
            #[trigger] self.stats[j]).0)
    }
}

/// What one delivery does to the bowling half: the current bowler is
/// charged the ball (if legal), the chargeable runs, the wides, no-balls and
/// the wicket; any chargeable run spoils the running maiden.
pub open spec fn bowling_step(v: BowlingView, ball: DeliveryOutcome) -> BowlingView {
    let st0 = v.stats[v.idx].1;
    let ch = chargeable_runs(ball);
    let st1 = BowlerInningsStats {
        balls: if legal_spec(ball) {
            (st0.balls + 1) as u16
        } else {
            st0.balls
        },
        maiden_overs: st0.maiden_overs,
        runs: (st0.runs + ch) as u16,
        wickets: if ball.wicket is Some {
            (st0.wickets + 1) as u8
        } else {
            st0.wickets
        },
        wides: (st0.wides + count_wides(ball.extras@)) as u16,
        no_balls: (st0.no_balls + count_no_balls(ball.extras@)) as u16,
    };
    BowlingView {
        stats: v.stats.update(v.idx, (v.stats[v.idx].0, st1)),
        maiden: if ch > 0 {
            false
        } else {
            v.maiden
        },
        ..v
    }
}

/// The bowling list once the over just finished has been settled: if it was
/// a maiden, the bowler of that over is credited one.
pub open spec fn credit_maiden(v: BowlingView) -> Seq<(PlayerId, BowlerInningsStats)> {
    if v.maiden {
        v.stats.update(
            v.idx,
            (
                v.stats[v.idx].0,
                BowlerInningsStats {
                    maiden_overs: (v.stats[v.idx].1.maiden_overs + 1) as u16,
                    ..v.stats[v.idx].1
                },
            ),
        )
    } else {
        v.stats
    }
}

/// The position of the first row belonging to `id`, or the list's length if
/// there is none.
pub open spec fn find_bowler(s: Seq<(PlayerId, BowlerInningsStats)>, id: PlayerId) -> int
    decreases s.len(),
{
    if s.len() == 0 {
        0
    } else if s[0].0 == id {
        0
    } else {
        1 + find_bowler(s.skip(1), id)
    }
}

pub proof fn lemma_find_bowler(s: Seq<(PlayerId, BowlerInningsStats)>, id: PlayerId)
    ensures
        0 <= find_bowler(s, id) <= s.len(),
        find_bowler(s, id) < s.len() ==> s[find_bowler(s, id)].0 == id,
        forall|j: int| 0 <= j < find_bowler(s, id) ==> (#[trigger] s[j]).0 != id,
    decreases s.len(),
{
    if s.len() > 0 && s[0].0 != id {
        lemma_find_bowler(s.skip(1), id);
        assert(forall|j: int| 1 <= j < s.len() ==> #[trigger] s[j] == s.skip(1)[j - 1]);
    }
}

/// What an over change does to the bowling half: credit a maiden if the over
/// stayed one, rearm the maiden flag, and hand the next over to the bowler
/// the rotation picks, resuming their row if they bowled before and opening
/// a fresh row otherwise.
pub open spec fn new_over_step(v: BowlingView) -> BowlingView {
    let credited = credit_maiden(v);
    let nxt = if v.rotation[0] != v.last {
        v.rotation[0]
    } else {
        v.rotation[1]
    };
    let p = find_bowler(credited, nxt);
    if p < credited.len() {
        BowlingView { stats: credited, idx: p, maiden: true, last: nxt, ..v }
    } else {
        BowlingView {
            stats: credited.push((nxt, blank_bowler())),
            idx: credited.len() as int,
            maiden: true,
            last: nxt,
            ..v
        }
    }
}

/// The counters the bowling half bumps have room for what the delivery
/// adds.
pub open spec fn bowling_update_ok(v: BowlingView, ball: DeliveryOutcome) -> bool {
    &&& (legal_spec(ball) ==> v.stats[v.idx].1.balls < u16::MAX)
    &&& v.stats[v.idx].1.runs + chargeable_runs(ball) <= u16::MAX
    &&& v.stats[v.idx].1.wides + count_wides(ball.extras@) <= u16::MAX
    &&& v.stats[v.idx].1.no_balls + count_no_balls(ball.extras@) <= u16::MAX
    &&& (ball.wicket is Some ==> v.stats[v.idx].1.wickets < u8::MAX)
}

/// Tracks one side's bowling through an innings.
pub struct TeamBowlingInningsStats {
    /// The side's bowling rotation.
    pub bowlers: Bowlers,
    /// Stats of individual bowlers, one row per bowler used.
    pub bowler_stats: Vec<(PlayerId, BowlerInningsStats)>,
    /// Index in `bowler_stats` of the bowler currently bowling.
    pub current_bowler_index: usize,
    /// Whether the current over is a maiden (so far).
    pub current_over_maiden: bool,
}

impl View for TeamBowlingInningsStats {
    type V = BowlingView;

    open spec fn view(&self) -> BowlingView {
        BowlingView {
            rotation: self.bowlers.bowlers@,
            last: self.bowlers.last,
            stats: self.bowler_stats@,
            idx: self.current_bowler_index as int,
            maiden: self.current_over_maiden,
        }
    }
}

impl TeamBowlingInningsStats {
    pub open spec fn wf(self) -> bool {
        self@.wf()
    }

    /// Create a new team stats object for an innings: the rotation's first
    /// pick opens the bowling.
    pub fn new(team: &Team) -> (r: Result<Self, Error>)
        ensures
            match r {
                Ok(s) => {
                    &&& team.players@.len() >= 11
                    &&& player_ids(*team)[10] != player_ids(*team)[9]
                    &&& s.wf()
                    &&& s@.rotation.len() == 6
                    &&& (forall|j: int|
                        0 <= j < 6 ==> #[trigger] s@.rotation[j] == player_ids(*team)[10 - j])
                    &&& s@.stats == seq![(player_ids(*team)[10], blank_bowler())]
                    &&& s@.idx == 0
                    &&& s@.maiden == true
                },
                Err(e) => (team.players@.len() < 11 || player_ids(*team)[10] == player_ids(
                    *team,
                )[9]) && e is MissingData,
            },
    {
        if team.players.len() < 11 {
            return Err(Error::MissingData("Could not get first bowler".to_owned()));
        }
        let mut bowlers = team.bowlers();
        if bowlers.bowlers[0] == bowlers.bowlers[1] {
            return Err(Error::MissingData("Could not get first bowler".to_owned()));
        }
        let first = match bowlers.next() {
            Some(b) => b,
            None => {
                return Err(Error::MissingData("Could not get first bowler".to_owned()));
            },
        };
        let mut bowler_stats: Vec<(PlayerId, BowlerInningsStats)> = Vec::new();
        bowler_stats.push((first, BowlerInningsStats::default()));
        let s = TeamBowlingInningsStats {
            bowlers,
            bowler_stats,
            current_bowler_index: 0,
            current_over_maiden: true,
        };
        proof {
            assert(s@.stats =~= seq![(player_ids(*team)[10], blank_bowler())]);
        }
        Ok(s)
    }

    /// Update the stats with a new delivery outcome: everything the delivery
    /// yields is booked against the bowler of the current over, except byes
    /// and leg-byes.
    pub fn update(&mut self, ball: &DeliveryOutcome)
        requires
            old(self).wf(),
            bowling_update_ok(old(self)@, *ball),
        ensures
            final(self).wf(),
            final(self)@ == bowling_step(old(self)@, *ball),
            final(self)@.current() == old(self)@.current(),
            final(self)@.maiden == (old(self)@.maiden && chargeable_runs(*ball) == 0),
    {
        let ghost v0 = self@;
        proof {
            lemma_extras_nonneg(ball.extras@);
        }
        let idx = self.current_bowler_index;

        if ball.legal() {
            self.bowler_stats[idx].1.balls = self.bowler_stats[idx].1.balls + 1;
        }

        // Chargeable runs: off the bat plus each no-ball or wide penalty.
        let mut penalty: u16 = 0;
        let mut wides: u16 = 0;
        let mut no_balls: u16 = 0;
        let mut i: usize = 0;
        proof {
            assert(ball.extras@.take(0) =~= Seq::<Extra>::empty());
        }
        while i < ball.extras.len()
            invariant
                i <= ball.extras@.len(),
                penalty as int == count_no_ball_or_wide(ball.extras@.take(i as int)),
                wides as int == count_wides(ball.extras@.take(i as int)),
                no_balls as int == count_no_balls(ball.extras@.take(i as int)),
                count_no_ball_or_wide(ball.extras@) <= u16::MAX,
                count_wides(ball.extras@) <= u16::MAX,
                count_no_balls(ball.extras@) <= u16::MAX,
            decreases ball.extras@.len() - i,
        {
            proof {
                lemma_extras_take_succ(ball.extras@, i as int);
                lemma_extras_take_le(ball.extras@, i + 1);
                lemma_extras_nonneg(ball.extras@.take(i as int));
            }
            match &ball.extras[i] {
                Extra::NoBall => {
                    penalty = penalty + 1;
                    no_balls = no_balls + 1;
                },
                Extra::Wide => {
                    penalty = penalty + 1;
                    wides = wides + 1;
                },
                _ => {},
            }
            i += 1;
        }
        proof {
            assert(ball.extras@.take(ball.extras@.len() as int) =~= ball.extras@);
        }
        let bowler_runs: u16 = ball.runs.runs() as u16 + penalty;
        if bowler_runs > 0 {
            self.current_over_maiden = false;
        }
        self.bowler_stats[idx].1.runs = self.bowler_stats[idx].1.runs + bowler_runs;
        self.bowler_stats[idx].1.wides = self.bowler_stats[idx].1.wides + wides;
        self.bowler_stats[idx].1.no_balls = self.bowler_stats[idx].1.no_balls + no_balls;
        if ball.wicket.is_some() {
            self.bowler_stats[idx].1.wickets = self.bowler_stats[idx].1.wickets + 1;
        }
        proof {
            assert(self@.stats =~= bowling_step(v0, *ball).stats);
            assert(self@ =~= bowling_step(v0, *ball));
        }
    }

    /// Indicate that there is a new over and switch bowlers: credit a maiden
    /// if one was bowled, and bring on a bowler who did not bowl the over
    /// just finished.
    pub fn new_over(&mut self) -> (r: Result<(), Error>)
        requires
            old(self).wf(),
            old(self)@.maiden ==> old(self)@.stats[old(self)@.idx].1.maiden_overs < u16::MAX,
        ensures
            r is Ok,
            final(self).wf(),
            final(self)@ == new_over_step(old(self)@),
            final(self)@.current() != old(self)@.current(),
            final(self)@.maiden == true,
    {
        let ghost v0 = self@;
        if self.current_over_maiden {
            let idx = self.current_bowler_index;
            self.bowler_stats[idx].1.maiden_overs = self.bowler_stats[idx].1.maiden_overs + 1;
        }
        self.current_over_maiden = true;
        let ghost credited = credit_maiden(v0);
        proof {
            assert(self@.stats =~= credited);
        }

        let next_bowler: PlayerId = match self.bowlers.next() {
            Some(b) => b,
            None => {
                return Err(Error::MissingData("Could not get next bowler".to_owned()));
            },
        };

        proof {
            assert(forall|k: int|
                0 <= k < credited.len() ==> (#[trigger] credited[k]).0 == v0.stats[k].0);
        }
        let mut i: usize = 0;
        while i < self.bowler_stats.len()
            invariant
                v0 == old(self)@,
                v0.wf(),
                i <= self@.stats.len(),
                forall|j: int| 0 <= j < i ==> (#[trigger] self@.stats[j]).0 != next_bowler,
                self@.stats == credited,
                credited == credit_maiden(v0),
                credited.len() == v0.stats.len(),
                forall|k: int|
                    0 <= k < credited.len() ==> (#[trigger] credited[k]).0 == v0.stats[k].0,
                self@.rotation == v0.rotation,
                self@.last == next_bowler,
                self@.maiden == true,
                self@.idx == v0.idx,
                next_bowler == (if v0.rotation[0] != v0.last {
                    v0.rotation[0]
                } else {
                    v0.rotation[1]
                }),
                next_bowler != v0.last,
                (next_bowler == v0.rotation[0] || next_bowler == v0.rotation[1]),
            decreases self@.stats.len() - i,
        {
            if self.bowler_stats[i].0 == next_bowler {
                self.current_bowler_index = i;
                proof {
                    assert(credited[i as int].0 == next_bowler);
                    lemma_find_bowler(credited, next_bowler);
                    assert(find_bowler(credited, next_bowler) == i as int);
                    assert(self@ =~= new_over_step(v0));
                }
                return Ok(());
            }
            i += 1;
        }
        self.bowler_stats.push((next_bowler, BowlerInningsStats::default()));
        self.current_bowler_index = self.bowler_stats.len() - 1;
        proof {
            lemma_find_bowler(credited, next_bowler);
            assert(find_bowler(credited, next_bowler) == credited.len());
            assert(self@.stats =~= credited.push((next_bowler, blank_bowler())));
            assert(self@ =~= new_over_step(v0));
        }
        Ok(())
    }

    /// Returns the identity of the current bowler.
    pub fn current_bowler(&self) -> (r: PlayerId)
        requires
            self.wf(),
        ensures
            r == self@.current(),
    {
        self.bowler_stats[self.current_bowler_index].0
    }
}

/// One innings of a match, abstracted: the two stats halves, the team
/// identities, and the over/ball bookkeeping, with the running count of
/// legal deliveries bowled.
#[verifier::ext_equal]
pub struct InningsView {
    pub batting_team: u16,
    pub bowling_team: u16,
    pub batting: BattingView,
    pub bowling: BowlingView,
    pub overs: int,
    pub balls: int,
    pub balls_per_over: int,
    pub legal_balls: int,
}

impl InningsView {
    /// Well-formedness of an innings. The over accounting is exact: the
    /// completed overs and the balls of the running over always account for
    /// every legal delivery bowled.
    pub open spec fn wf(self) -> bool {
        &&& self.batting.wf()
        &&& self.bowling.wf()
        &&& self.balls_per_over >= 1
        &&& 0 <= self.balls < self.balls_per_over
        &&& 0 <= self.overs <= u16::MAX
        &&& self.legal_balls == self.overs * self.balls_per_over + self.balls
    }
}

/// The innings at its start: the first two batters at the crease, the
/// rotation's first pick bowling, nothing yet bowled.
pub open spec fn innings_init(batting: Team, bowling: Team, balls_per_over: u8) -> InningsView {
    InningsView {
        batting_team: batting.id,
        bowling_team: bowling.id,
        batting: BattingView {
            order: player_ids(batting).skip(2),
            batters: seq![
                (player_ids(batting)[0], blank_batter()),
                (player_ids(batting)[1], blank_batter()),
            ],
            extras: 0,
            batter_a: 0,
            batter_b: 1,
            striker_a: true,
        },
        bowling: BowlingView {
            rotation: Seq::new(6, |j: int| player_ids(bowling)[10 - j]),
            last: player_ids(bowling)[10],
            stats: seq![(player_ids(bowling)[10], blank_bowler())],
            idx: 0,
            maiden: true,
        },
        overs: 0,
        balls: 0,
        balls_per_over: balls_per_over as int,
        legal_balls: 0,
    }
}

/// What one delivery does to an innings: both halves take the outcome; a
/// legal delivery advances the over count, and a completed over changes
/// ends and rotates the bowler.
pub open spec fn innings_step(v: InningsView, ball: DeliveryOutcome) -> InningsView {
    let bat1 = batting_step(v.batting, ball);
    let bowl1 = bowling_step(v.bowling, ball);
    let legal = legal_spec(ball);
    let balls1 = if legal {
        v.balls + 1
    } else {
        v.balls
    };
    let lb1 = if legal {
        v.legal_balls + 1
    } else {
        v.legal_balls
    };
    if balls1 >= v.balls_per_over {
        InningsView {
            batting: BattingView { striker_a: !bat1.striker_a, ..bat1 },
            bowling: new_over_step(bowl1),
            overs: v.overs + 1,
            balls: 0,
            legal_balls: lb1,
            ..v
        }
    } else {
        InningsView { batting: bat1, bowling: bowl1, balls: balls1, legal_balls: lb1, ..v }
    }
}

/// The inputs on which an innings update is meaningful: both halves accept
/// the outcome and, if this delivery completes an over, the over counters
/// have room for it.
pub open spec fn innings_update_ok(v: InningsView, ball: DeliveryOutcome) -> bool {
    &&& batting_update_ok(v.batting, ball)
    &&& bowling_update_ok(v.bowling, ball)
    &&& ((legal_spec(ball) && v.balls + 1 >= v.balls_per_over) ==> {
        let bowl1 = bowling_step(v.bowling, ball);
        &&& v.overs < u16::MAX
        &&& (bowl1.maiden ==> bowl1.stats[bowl1.idx].1.maiden_overs < u16::MAX)
    })
}

/// Collects and tracks stats in a given innings.
pub struct InningsStats {
    /// The identity of the team batting this innings.
    pub batting_team: u16,
    /// The identity of the team bowling this innings.
    pub bowling_team: u16,
    pub batting_stats: TeamBattingInningsStats,
    pub bowling_stats: TeamBowlingInningsStats,
    /// The number of overs that have been completed.
    pub overs: u16,
    /// The number of legal balls delivered in the running over.
    pub balls: u8,
    /// The number of balls per over.
    pub balls_per_over: u8,
    /// How many legal deliveries have been bowled in the whole innings.
    pub legal_balls: Ghost<int>,
}

impl View for InningsStats {
    type V = InningsView;

    open spec fn view(&self) -> InningsView {
        InningsView {
            batting_team: self.batting_team,
            bowling_team: self.bowling_team,
            batting: self.batting_stats@,
            bowling: self.bowling_stats@,
            overs: self.overs as int,
            balls: self.balls as int,
            balls_per_over: self.balls_per_over as int,
            legal_balls: self.legal_balls@,
        }
    }
}

impl InningsStats {
    pub open spec fn wf(self) -> bool {
        &&& self.batting_stats.wf()
        &&& self@.wf()
    }

    /// Open an innings for the given pair of sides.
    pub fn new(batting_team: &Team, bowling_team: &Team, balls_per_over: u8) -> (r: Result<
        Self,
        Error,
    >)
        requires
            distinct_roster(*batting_team),
            balls_per_over >= 1,
        ensures
            match r {
                Ok(s) => {
                    &&& s.wf()
                    &&& s@ == innings_init(*batting_team, *bowling_team, balls_per_over)
                    &&& batting_team.players@.len() >= 2
                    &&& bowling_team.players@.len() >= 11
                },
                Err(e) => e is MissingData && (batting_team.players@.len() < 2
                    || bowling_team.players@.len() < 11 || player_ids(*bowling_team)[10]
                    == player_ids(*bowling_team)[9]),
            },
    {
        let batting_stats = match TeamBattingInningsStats::new(batting_team) {
            Ok(b) => b,
            Err(e) => {
                return Err(e);
            },
        };
        let bowling_stats = match TeamBowlingInningsStats::new(bowling_team) {
            Ok(b) => b,
            Err(e) => {
                return Err(e);
            },
        };
        let s = InningsStats {
            batting_team: batting_team.id,
            bowling_team: bowling_team.id,
            batting_stats,
            bowling_stats,
            overs: 0,
            balls: 0,
            balls_per_over,
            legal_balls: Ghost(0int),
        };
        proof {
            assert(s@.bowling.rotation =~= Seq::new(6, |j: int| player_ids(*bowling_team)[10 - j]));
            assert(s@ =~= innings_init(*batting_team, *bowling_team, balls_per_over));
        }
        Ok(s)
    }

    /// Whether all (but one) batters have been made out. Indicates the
    /// innings must be complete.
    pub fn all_out(&self) -> (r: bool)
        ensures
            r == self@.batting.all_out(),
    {
        self.batting_stats.all_out()
    }

    /// Number of total runs scored by the batting side this innings.
    pub fn runs(&self) -> (r: u16)
        requires
            self.wf(),
        ensures
            r as int == self@.batting.team_runs(),
    {
        self.batting_stats.team_runs()
    }

    /// Number of wickets taken this innings.
    pub fn wickets(&self) -> (r: u8)
        requires
            self.wf(),
        ensures
            r as int == self@.batting.wickets(),
    {
        self.batting_stats.wickets()
    }

    /// Update the stats with a new delivery: both halves consume the
    /// outcome, a legal ball advances the over, and a completed over changes
    /// ends and brings a different bowler on.
    pub fn update(&mut self, ball: &DeliveryOutcome) -> (r: Result<(), Error>)
        requires
            old(self).wf(),
            innings_update_ok(old(self)@, *ball),
        ensures
            r is Ok,
            final(self).wf(),
            final(self)@ == innings_step(old(self)@, *ball),
            final(self)@.legal_balls == old(self)@.legal_balls + if legal_spec(*ball) {
                1int
            } else {
                0int
            },
            final(self)@.batting.team_runs() == old(self)@.batting.team_runs()
                + outcome_total_runs(*ball),
            final(self)@.batting.wickets() == old(self)@.batting.wickets() + (
            if ball.wicket is Some {
                1int
            } else {
                0int
            }),
            final(self)@.batting.all_out() <==> (ball.wicket is Some && old(
                self,
            )@.batting.order.len() == 0),
            if legal_spec(*ball) && old(self)@.balls + 1 >= old(self)@.balls_per_over {
                final(self)@.bowling.current() != old(self)@.bowling.current()
            } else {
                final(self)@.bowling.current() == old(self)@.bowling.current()
            },
    {
        let ghost v0 = self@;
        match self.batting_stats.update(ball) {
            Ok(_) => {},
            Err(e) => {
                return Err(e);
            },
        }
        self.bowling_stats.update(ball);
        if ball.legal() {
            self.balls = self.balls + 1;
            self.legal_balls = Ghost(self.legal_balls@ + 1);
        }
        if self.balls >= self.balls_per_over {
            self.balls = 0;
            self.overs = self.overs + 1;
            proof {
                assert(self.batting_stats@.wf());
            }
            self.batting_stats.switch_striker();
            proof {
                assert(self.batting_stats@.wf());
            }
            match self.bowling_stats.new_over() {
                Ok(_) => {},
                Err(e) => {
                    return Err(e);
                },
            }
            proof {
                assert((v0.overs + 1) * v0.balls_per_over == v0.overs * v0.balls_per_over
                    + v0.balls_per_over) by (nonlinear_arith);
                assert(self@.batting =~= BattingView {
                    striker_a: !batting_step(v0.batting, *ball).striker_a,
                    ..batting_step(v0.batting, *ball)
                });
                assert(self@ =~= innings_step(v0, *ball));
            }
        } else {
            proof {
                assert(self@ =~= innings_step(v0, *ball));
            }
        }
        Ok(())
    }
}

/// While the innings is open, the wickets fallen never exceed the lineup
/// size less two — in particular they stay below "batters per side − 1"
/// when the lineup holds one batter per slot of the format. The moment the
/// innings closes, exactly one not-out batter is left unpartnered: the
/// wickets equal the lineup size less one.
pub proof fn lemma_wickets_bound(v: BattingView)
    requires
        v.wf(),
    ensures
        !v.all_out() ==> v.wickets() <= v.lineup_len() - 2,
        v.all_out() ==> v.wickets() == v.lineup_len() - 1,
{
}

/// Reaching the last dismissal the lineup can absorb closes the innings at
/// once: a wicket falling with nobody left in the order flips the all-out
/// flag on that very delivery, with the wicket count at the lineup size
/// less one.
pub proof fn lemma_last_wicket_closes(v: BattingView, ball: DeliveryOutcome)
    requires
        v.wf(),
        batting_update_ok(v, ball),
        ball.wicket is Some,
        v.order.len() == 0,
    ensures
        batting_step(v, ball).all_out(),
        batting_step(v, ball).wickets() == v.lineup_len() - 1,
{
    lemma_batting_step_ok(v, ball);
}

/// One delivery keeps the bowling half well formed and does not change
/// whose over it is.
pub proof fn lemma_bowling_step_wf(v: BowlingView, ball: DeliveryOutcome)
    requires
        v.wf(),
        bowling_update_ok(v, ball),
    ensures
        bowling_step(v, ball).wf(),
        bowling_step(v, ball).current() == v.current(),
{
    let s = bowling_step(v, ball);
    assert(forall|i: int| 0 <= i < s.stats.len() ==> (#[trigger] s.stats[i]).0 == v.stats[i].0);
}

/// A bowler is never assigned two consecutive overs: when a delivery
/// completes an over, the bowler of the next over differs from the bowler
/// of the over just completed.
pub proof fn lemma_no_consecutive_overs(v: InningsView, ball: DeliveryOutcome)
    requires
        v.wf(),
        innings_update_ok(v, ball),
        legal_spec(ball),
        v.balls + 1 >= v.balls_per_over,
    ensures
        innings_step(v, ball).bowling.current() != v.bowling.current(),
{
    lemma_bowling_step_wf(v.bowling, ball);
    let b1 = bowling_step(v.bowling, ball);
    let credited = credit_maiden(b1);
    assert(forall|i: int|
        0 <= i < credited.len() ==> (#[trigger] credited[i]).0 == b1.stats[i].0);
    let nxt = if b1.rotation[0] != b1.last {
        b1.rotation[0]
    } else {
        b1.rotation[1]
    };
    lemma_find_bowler(credited, nxt);
    assert(new_over_step(b1).current() == nxt);
    assert(nxt != b1.last);
}

/// Completed overs and the running over's balls always account exactly for
/// the legal deliveries bowled: the balls shown are the count modulo the
/// over length, and the overs shown are the count divided by it.
pub proof fn lemma_over_ball_accounting(v: InningsView)
    requires
        v.wf(),
    ensures
        v.balls == v.legal_balls % v.balls_per_over,
        v.overs == v.legal_balls / v.balls_per_over,
{
    vstd::arithmetic::div_mod::lemma_fundamental_div_mod_converse(
        v.legal_balls,
        v.balls_per_over,
        v.overs,
        v.balls,
    );
}

} // verus!
