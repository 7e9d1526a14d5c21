//! Teams of players.

use vstd::prelude::*;
use crate::player::PlayerId;

verus! {

/// A side: its identity, display name, and ordered roster.
pub struct Team {
    pub id: u16,
    pub name: String,
    /// The UIDs and names of the players, in batting order.
    pub players: Vec<(PlayerId, String)>,
}

/// The roster's player identities, in roster order.
pub open spec fn player_ids(t: Team) -> Seq<PlayerId> {
    t.players@.map(|i: int, p: (PlayerId, String)| p.0)
}

/// A roster is well formed when no player identity repeats. The cap keeps
/// the engine's 8-bit wicket counters out of reach of overflow.
pub open spec fn distinct_roster(t: Team) -> bool {
    &&& t.players@.len() <= 255
    &&& forall|i: int, j: int|
        0 <= i < j < t.players@.len() ==> (#[trigger] t.players@[i]).0 != (
        #[trigger] t.players@[j]).0
}

impl Team {
    /// The side's batting order: the roster, front to back.
    pub fn batting_order(&self) -> (r: BattingOrder)
        ensures
            r.wf(),
            r.upcoming() == player_ids(*self),
            r.batters@ == player_ids(*self),
    {
        let mut batters: Vec<PlayerId> = Vec::new();
        let mut i: usize = 0;
        while i < self.players.len()
            invariant
                i <= self.players@.len(),
                batters@ =~= player_ids(*self).take(i as int),
            decreases self.players@.len() - i,
        {
            batters.push(self.players[i].0);
            proof {
                assert(batters@ =~= player_ids(*self).take(i + 1));
            }
            i += 1;
        }
        proof {
            assert(batters@ =~= player_ids(*self));
        }
        BattingOrder { batters, pos: 0 }
    }

    /// The side's bowling rotation, drawn from roster positions 6 through 11
    /// (back to front), alternating between the two hindmost players.
    pub fn bowlers(&self) -> (r: Bowlers)
        requires
            self.players@.len() >= 11,
        ensures
            r.bowlers@.len() == 6,
            forall|j: int| 0 <= j < 6 ==> #[trigger] r.bowlers@[j] == player_ids(*self)[10 - j],
            r.last == r.bowlers@[1],
    {
        let mut bowlers: Vec<PlayerId> = Vec::new();
        let mut i: usize = 0;
        while i < 6
            invariant
                i <= 6,
                self.players@.len() >= 11,
                bowlers@.len() == i,
                forall|j: int| 0 <= j < i ==> #[trigger] bowlers@[j] == player_ids(*self)[10 - j],
            decreases 6 - i,
        {
            bowlers.push(self.players[10 - i].0);
            i += 1;
        }
        let last: PlayerId = bowlers[1];
        Bowlers { bowlers, last }
    }

    /// Look up the display name attached to an identity on this roster.
    pub fn get_name(&self, id: PlayerId) -> (r: Option<&str>)
        ensures
            match r {
                Some(s) => exists|i: int|
                    0 <= i < self.players@.len() && (#[trigger] self.players@[i]).0 == id
                        && self.players@[i].1@ == s@,
                None => forall|i: int|
                    0 <= i < self.players@.len() ==> (#[trigger] self.players@[i]).0 != id,
            },
    {
        let mut i: usize = 0;
        while i < self.players.len()
            invariant
                i <= self.players@.len(),
                forall|j: int| 0 <= j < i ==> (#[trigger] self.players@[j]).0 != id,
            decreases self.players@.len() - i,
        {
            if self.players[i].0 == id {
                return Some(self.players[i].1.as_str());
            }
            i += 1;
        }
        None
    }
}

/// Tracks the batting order: a finite, forward-only sequence over the
/// side's roster, handing out each batter once.
pub struct BattingOrder {
    /// The reference list of players.
    pub batters: Vec<PlayerId>,
    /// How many batters have already been handed out.
    pub pos: usize,
}

impl BattingOrder {
    pub open spec fn wf(self) -> bool {
        self.pos <= self.batters@.len()
    }

    /// The batters not yet handed out, in order.
    pub open spec fn upcoming(self) -> Seq<PlayerId> {
        self.batters@.skip(self.pos as int)
    }

    /// Hand out the next unused batter, or signal exhaustion.
    pub fn next(&mut self) -> (r: Option<PlayerId>)
        requires
            old(self).wf(),
        ensures
            final(self).wf(),
            final(self).batters == old(self).batters,
            if old(self).upcoming().len() == 0 {
                r is None && final(self).pos == old(self).pos
            } else {
                r == Some(old(self).upcoming()[0]) && final(self).pos == old(self).pos + 1
            },
            final(self).upcoming() == if old(self).upcoming().len() == 0 {
                old(self).upcoming()
            } else {
                old(self).upcoming().skip(1)
            },
    {
        if self.pos < self.batters.len() {
            let id = self.batters[self.pos];
            self.pos += 1;
            proof {
                assert(final(self).upcoming() =~= old(self).upcoming().skip(1));
            }
            Some(id)
        } else {
            proof {
                assert(final(self).upcoming() =~= old(self).upcoming());
            }
            None
        }
    }
}

/// Iterates through available bowlers. The policy alternates between the
/// two designated opening bowlers; any richer policy must preserve the law
/// that no bowler bowls two consecutive overs.
pub struct Bowlers {
    pub bowlers: Vec<PlayerId>,
    /// The previous bowler, so that the rotation never repeats them.
    pub last: PlayerId,
}

/// The bowler the rotation will hand out next: the front designated bowler
/// unless they bowled the previous over.
pub open spec fn next_bowler_spec(b: Bowlers) -> PlayerId {
    if b.bowlers@[0] != b.last {
        b.bowlers@[0]
    } else {
        b.bowlers@[1]
    }
}

impl Bowlers {
    /// The rotation can always produce a bowler distinct from the previous
    /// one: the two designated bowlers differ, and the previous bowler is
    /// one of them.
    pub open spec fn wf(self) -> bool {
        &&& self.bowlers@.len() >= 2
        &&& self.bowlers@[0] != self.bowlers@[1]
        &&& (self.last == self.bowlers@[0] || self.last == self.bowlers@[1])
    }

    /// Hand out the bowler for the next over: never the one who bowled the
    /// over before.
    pub fn next(&mut self) -> (r: Option<PlayerId>)
        requires
            old(self).wf(),
        ensures
            final(self).wf(),
            final(self).bowlers == old(self).bowlers,
            r == Some(next_bowler_spec(*old(self))),
            next_bowler_spec(*old(self)) != old(self).last,
            final(self).last == next_bowler_spec(*old(self)),
    {
        let bowler: PlayerId = if self.bowlers[0] != self.last {
            self.bowlers[0]
        } else {
            self.bowlers[1]
        };
        self.last = bowler;
        Some(bowler)
    }
}

} // verus!
