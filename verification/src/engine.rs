//! A minimal, fully verified reference implementation of the `Game`
//! contract: seats `0..num_players` act round robin, the game lasts
//! `num_players * hand_size` turns, and every played card scores one
//! point.  It exists to exercise the simulator and to show that the trait's
//! obligations are satisfiable; real rule sets live outside this crate and
//! implement the same contract.

use vstd::prelude::*;

use crate::game::{Game, GameOptions, Player, Score, TurnChoice};

verus! {

/// The authoritative state of the reference engine.
pub struct RoundRobinGame {
    num_players: u32,
    turns_left: u32,
    current: u32,
    points: u32,
}

/// The seat-scoped projection of `RoundRobinGame`.  Nothing in the state is
/// hidden from a seat under these rules, so the view carries the public
/// position and the identity of its observer.
pub struct RoundRobinView {
    pub observer: Player,
    pub turns_left: u32,
    pub current: u32,
}

impl Game for RoundRobinGame {
    type View = RoundRobinView;

    closed spec fn seats(&self) -> Seq<Player> {
        Seq::new(self.num_players as nat, |i: int| i as u32)
    }

    closed spec fn done(&self) -> bool {
        self.turns_left == 0 || self.current >= self.num_players
    }

    closed spec fn turns_left(&self) -> nat {
        self.turns_left as nat
    }

    fn new(opts: &GameOptions) -> (g: Self) {
        proof {
            assert((opts.num_players as int) * (opts.hand_size as int)
                <= 0xffff_ffff * 0xffff_ffff) by (nonlinear_arith)
                requires
                    opts.num_players as int <= 0xffff_ffff,
                    opts.hand_size as int <= 0xffff_ffff,
            ;
        }
        let total: u64 = (opts.num_players as u64) * (opts.hand_size as u64);
        let turns: u32 = if total > u32::MAX as u64 {
            u32::MAX
        } else {
            total as u32
        };
        let g = RoundRobinGame { num_players: opts.num_players, turns_left: turns, current: 0, points: 0 };
        proof {
            assert forall|i: int, j: int|
                0 <= i < g.seats().len() && 0 <= j < g.seats().len() && i != j
                implies g.seats()[i] != g.seats()[j] by {
                assert(g.seats()[i] == i as u32);
                assert(g.seats()[j] == j as u32);
            }
        }
        g
    }

    fn get_players(&self) -> (ps: Vec<Player>) {
        let mut ps: Vec<Player> = Vec::new();
        let mut i: u32 = 0;
        while i < self.num_players
            invariant
                i <= self.num_players,
                ps@.len() == i as int,
                forall|j: int| 0 <= j < i as int ==> ps@[j] == j as u32,
            decreases self.num_players - i,
        {
            ps.push(i);
            i = i + 1;
        }
        proof {
            assert(ps@ =~= self.seats());
        }
        ps
    }

    fn is_over(&self) -> (over: bool) {
        self.turns_left == 0 || self.current >= self.num_players
    }

    fn current_player(&self) -> (p: Player) {
        proof {
            assert(self.seats()[self.current as int] == self.current);
        }
        self.current
    }

    fn get_view(&self, player: Player) -> (v: Self::View) {
        RoundRobinView { observer: player, turns_left: self.turns_left, current: self.current }
    }

    fn process_choice(&mut self, choice: &TurnChoice) {
        if let TurnChoice::Play(_) = choice {
            if self.points < u32::MAX {
                self.points = self.points + 1;
            }
        }
        self.turns_left = self.turns_left - 1;
        self.current = (self.current + 1) % self.num_players;
        proof {
            assert(self.seats() =~= old(self).seats());
        }
    }

    fn score(&self) -> (s: Score) {
        self.points
    }
}

} // verus!
