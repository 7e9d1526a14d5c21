//! Player data and identification.

use vstd::prelude::*;
use crate::error::Error;
use crate::model::PlayerRating;
use fnv::FnvHashMap;

verus! {

/// Players are identified by a registry-assigned serial number.
pub type PlayerId = usize;

/// An immutable player record: identity, display name, and skill rating.
pub struct Player<R> where R: PlayerRating {
    pub id: PlayerId,
    pub name: String,
    pub rating: R,
}

/// fnv's hasher, used by the registry's map. Opaque to the verifier.
#[verifier::external_type_specification]
#[verifier::external_body]
pub struct ExFnvHasher(fnv::FnvHasher);

/// std's hasher-builder wrapper, through which fnv plugs into std's map.
/// Opaque to the verifier.
#[verifier::external_type_specification]
#[verifier::external_body]
#[verifier::reject_recursive_types(H)]
pub struct ExBuildHasherDefault<H>(core::hash::BuildHasherDefault<H>);

/// Relies on `FnvHashMap::default` (std's `HashMap::default` under fnv's
/// hasher): a freshly built map is empty.
#[verifier::external_body]
fn fnv_map_new<R: PlayerRating>() -> (r: FnvHashMap<PlayerId, Player<R>>)
    ensures
        forall|k: PlayerId| !r@.contains_key(k),
{
    FnvHashMap::default()
}

/// Relies on std's `HashMap::get`: returns the value stored under the key,
/// if any.
#[verifier::external_body]
fn fnv_map_get<'a, R: PlayerRating>(m: &'a FnvHashMap<PlayerId, Player<R>>, id: PlayerId) -> (r:
    Option<&'a Player<R>>)
    ensures
        match r {
            Some(p) => m@.contains_key(id) && *p == m@[id],
            None => !m@.contains_key(id),
        },
{
    m.get(&id)
}

/// Relies on std's `HashMap::insert`: maps the key to the value and returns
/// what the key was mapped to before, if anything.
#[verifier::external_body]
fn fnv_map_insert<R: PlayerRating>(
    m: &mut FnvHashMap<PlayerId, Player<R>>,
    id: PlayerId,
    p: Player<R>,
) -> (r: Option<Player<R>>)
    ensures
        final(m)@ == old(m)@.insert(id, p),
        match r {
            Some(q) => old(m)@.contains_key(id) && q == old(m)@[id],
            None => !old(m)@.contains_key(id),
        },
{
    m.insert(id, p)
}

/// The player registry: a keyed store of immutable player records, owning
/// the generator of fresh identities.
pub struct PlayerDb<R> where R: PlayerRating {
    pub map: FnvHashMap<PlayerId, Player<R>>,
    /// The next identity to hand out; every registered identity is below it.
    pub next_id: PlayerId,
}

impl<R> PlayerDb<R> where R: PlayerRating {
    /// Every registered identity was handed out by this registry's own
    /// generator, and each record is stored under its own identity.
    pub open spec fn wf(self) -> bool {
        forall|k: PlayerId| #![trigger self.map@.dom().contains(k)]
            self.map@.contains_key(k) ==> k < self.next_id && self.map@[k].id == k
    }

    /// An empty registry.
    pub fn new() -> (r: Self)
        ensures
            r.wf(),
            r.map@ == Map::<PlayerId, Player<R>>::empty(),
            r.next_id == 0,
    {
        PlayerDb { map: fnv_map_new(), next_id: 0 }
    }

    /// Look a player up by identity.
    pub fn get(&self, id: PlayerId) -> (r: Option<&Player<R>>)
        ensures
            match r {
                Some(p) => self.map@.contains_key(id) && *p == self.map@[id],
                None => !self.map@.contains_key(id),
            },
    {
        fnv_map_get(&self.map, id)
    }

    /// Register a new player under a fresh identity and return the stored
    /// record. A fresh identity can never collide with a registered one.
    pub fn add(&mut self, name: String, rating: R) -> (r: Result<&Player<R>, Error>)
        requires
            old(self).wf(),
            old(self).next_id < usize::MAX,
        ensures
            final(self).wf(),
            final(self).next_id == old(self).next_id + 1,
            final(self).map@ == old(self).map@.insert(
                old(self).next_id,
                Player { id: old(self).next_id, name: name, rating: rating },
            ),
            match r {
                Ok(p) => *p == (Player { id: old(self).next_id, name: name, rating: rating }),
                Err(_) => false,
            },
    {
        let id = self.next_id;
        self.next_id = self.next_id + 1;
        let player = Player { id, name, rating };
        if let Some(p) = fnv_map_insert(&mut self.map, id, player) {
            proof {
                let ghost q = old(self).map@[id];
                assert(false);
            }
            return Err(Error::DuplicatePlayerId(p.id));
        }
        proof {
            assert forall|k: PlayerId| #![trigger self.map@.dom().contains(k)]
                self.map@.contains_key(k) implies k < self.next_id && self.map@[k].id == k by {
                if k != id {
                    assert(old(self).map@.contains_key(k));
                    assert(old(self).map@[k] == self.map@[k]);
                }
            }
        }
        match fnv_map_get(&self.map, id) {
            Some(p) => Ok(p),
            None => Err(Error::PlayerNotFound(id)),
        }
    }
}

} // verus!
