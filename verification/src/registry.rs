//! The per-seat state registry: one opaque state value per seat, created at
//! game start and mutated only through single-seat lookups.
//!
//! Isolation is structural: `take` hands out exactly the value registered
//! under the requested seat and nothing else, and `put` writes back only
//! that seat's slot, so no strategy call can ever observe another seat's
//! state through the registry.

use vstd::prelude::*;
use vstd::pervasive::unreached;

use crate::game::Player;

verus! {

/// A mapping from seat to that seat's private strategy state.  The slot of a
/// seat is `None` exactly while its state is checked out through `take`.
pub struct Registry<T> {
    players: Vec<Player>,
    states: Vec<Option<T>>,
}

impl<T> Registry<T> {
    /// The seats registered so far, in registration order.
    pub closed spec fn seats(&self) -> Seq<Player> {
        self.players@
    }

    /// The per-seat slots, parallel to `seats()`.
    pub closed spec fn slots(&self) -> Seq<Option<T>> {
        self.states@
    }

    /// Well-formedness: one slot per seat, and no seat registered twice.
    pub open spec fn wf(&self) -> bool {
        &&& self.seats().len() == self.slots().len()
        &&& self.seats().no_duplicates()
    }

    /// The unique position of seat `p`, meaningful when `p` is registered.
    pub open spec fn pos(&self, p: Player) -> int {
        self.seats().index_of(p)
    }

    /// Every seat's state is in its slot (none is checked out).
    pub open spec fn all_present(&self) -> bool {
        forall|i: int| 0 <= i < self.slots().len() ==> self.slots()[i] is Some
    }

    /// Structural isolation: two distinct registered seats always occupy
    /// distinct slots, so an access keyed by one seat can never reach or
    /// disturb another seat's state.
    pub proof fn lemma_distinct_seats_distinct_slots(&self, p: Player, q: Player)
        requires
            self.wf(),
            self.seats().contains(p),
            self.seats().contains(q),
            p != q,
        ensures
            self.pos(p) != self.pos(q),
            0 <= self.pos(p) < self.slots().len(),
            0 <= self.pos(q) < self.slots().len(),
    {
        assert(self.seats()[self.pos(p)] == p);
        assert(self.seats()[self.pos(q)] == q);
    }

    /// An empty registry; it must be created afresh for every game.
    pub fn new() -> (r: Self)
        ensures
            r.seats() == Seq::<Player>::empty(),
            r.slots() == Seq::<Option<T>>::empty(),
            r.wf(),
            r.all_present(),
    {
        Registry { players: Vec::new(), states: Vec::new() }
    }

    /// Register a new seat with its freshly initialized state.
    pub fn register(&mut self, p: Player, state: T)
        requires
            old(self).wf(),
            !old(self).seats().contains(p),
        ensures
            final(self).seats() == old(self).seats().push(p),
            final(self).slots() == old(self).slots().push(Some(state)),
            final(self).wf(),
            old(self).all_present() ==> final(self).all_present(),
    {
        self.players.push(p);
        self.states.push(Some(state));
        proof {
            assert forall|i: int| 0 <= i < self.slots().len() && old(self).all_present()
                implies self.slots()[i] is Some by {
                if i < old(self).slots().len() {
                    assert(old(self).slots()[i] is Some);
                }
            }
        }
    }

    /// The position of a registered seat, found by scanning the seat list.
    fn position(&self, p: Player) -> (i: usize)
        requires
            self.wf(),
            self.seats().contains(p),
        ensures
            0 <= i < self.seats().len(),
            self.seats()[i as int] == p,
            i as int == self.pos(p),
    {
        let mut i: usize = 0;
        while i < self.players.len()
            invariant
                0 <= i <= self.players.len(),
                self.wf(),
                self.seats().contains(p),
                forall|j: int| 0 <= j < i as int ==> self.seats()[j] != p,
            decreases self.players.len() - i,
        {
            if self.players[i] == p {
                proof {
                    let k = self.pos(p);
                    assert(0 <= k < self.seats().len() && self.seats()[k] == p);
                    assert(k == i as int);
                }
                return i;
            }
            i = i + 1;
        }
        proof {
            let w = choose|w: int| 0 <= w < self.seats().len() && self.seats()[w] == p;
            assert(self.seats()[w] != p);
        }
        unreached()
    }

    /// Check seat `p`'s state out of the registry.  The caller gets exactly
    /// the value stored under `p`; every other seat's slot is untouched.
    pub fn take(&mut self, p: Player) -> (state: T)
        requires
            old(self).wf(),
            old(self).seats().contains(p),
            old(self).slots()[old(self).pos(p)] is Some,
        ensures
            old(self).slots()[old(self).pos(p)] == Some(state),
            final(self).seats() == old(self).seats(),
            final(self).slots() == old(self).slots().update(old(self).pos(p), None::<T>),
            final(self).wf(),
    {
        let i = self.position(p);
        let slot = self.states.remove(i);
        self.states.insert(i, None);
        proof {
            assert(self.states@ =~= old(self).states@.update(i as int, None::<T>));
        }
        match slot {
            Some(state) => state,
            None => unreached(),
        }
    }

    /// Check seat `p`'s state back in.  Only `p`'s slot changes.
    pub fn put(&mut self, p: Player, state: T)
        requires
            old(self).wf(),
            old(self).seats().contains(p),
            old(self).slots()[old(self).pos(p)] is None,
        ensures
            final(self).seats() == old(self).seats(),
            final(self).slots() == old(self).slots().update(old(self).pos(p), Some(state)),
            final(self).wf(),
    {
        let i = self.position(p);
        let _ = self.states.remove(i);
        self.states.insert(i, Some(state));
        proof {
            assert(self.states@ =~= old(self).states@.update(i as int, Some(state)));
        }
    }
}

} // verus!
