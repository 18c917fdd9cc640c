//! Core data types and the contract the simulator consumes from a rules
//! engine.  The engine itself (deck composition, legality checking, scoring)
//! is deliberately outside this crate: the simulator only relies on what the
//! `Game` trait states.

use vstd::prelude::*;

verus! {

/// A seat's stable identity within one game, used as the key into the
/// per-seat state registry.
pub type Player = u32;

/// A numeric game outcome.  The simulator does not interpret it beyond
/// summing and averaging.
pub type Score = u32;

/// Immutable configuration for one batch of trials.
#[derive(Clone, Copy, Debug)]
pub struct GameOptions {
    pub num_players: u32,
    pub hand_size: u32,
    pub num_hints: u32,
    pub num_lives: u32,
}

/// The closed set of actions a strategy may choose on its turn.  Legality of
/// a choice is the rules engine's business, not the simulator's.
#[derive(Clone, Copy, Debug, PartialEq, Eq, Structural)]
pub enum TurnChoice {
    /// Play the card at this position of the acting seat's hand.
    Play(usize),
    /// Discard the card at this position of the acting seat's hand.
    Discard(usize),
    /// Give a hint to this seat.
    Hint(Player),
}

/// An immutable record of one completed turn: who acted and what they chose.
/// It is broadcast to every seat only after the choice has been applied to
/// the authoritative state.
#[derive(Clone, Copy, Debug, PartialEq, Eq, Structural)]
pub struct Turn {
    pub player: Player,
    pub choice: TurnChoice,
}

/// The contract the simulator consumes from a rules engine.
///
/// An implementation owns the authoritative game state.  `View` is the
/// seat-scoped, read-only projection of that state which withholds whatever
/// the seat may not see; the simulator requests a fresh one per call and
/// never forwards one seat's view to another.
///
/// The ghost functions describe what the simulator relies on: the seat list
/// is fixed at construction and free of duplicates, `is_over` reports the
/// `done` predicate, the active seat is one of the seats, and every applied
/// choice strictly consumes the `turns_left` bound, so that a game is finite.
pub trait Game: Sized {
    /// The seat-scoped projection of the game state handed to strategies.
    type View;

    /// The seats of this game, fixed for its whole lifetime.
    spec fn seats(&self) -> Seq<Player>;

    /// Whether the game has ended.
    spec fn done(&self) -> bool;

    /// An upper bound on how many more choices the game can absorb; each
    /// applied choice strictly decreases it, which is what makes the
    /// simulation loop terminate.
    spec fn turns_left(&self) -> nat;

    /// Construct the authoritative state for a fresh game.
    fn new(opts: &GameOptions) -> (g: Self)
        ensures
            g.seats().len() == opts.num_players as int,
            g.seats().no_duplicates(),
    ;

    /// Enumerate the seats, in the game's fixed order.
    fn get_players(&self) -> (ps: Vec<Player>)
        ensures
            ps@ == self.seats(),
    ;

    /// Report whether the game has ended.
    fn is_over(&self) -> (over: bool)
        ensures
            over == self.done(),
    ;

    /// Report the currently active seat.
    fn current_player(&self) -> (p: Player)
        requires
            !self.done(),
        ensures
            self.seats().contains(p),
    ;

    /// Produce a fresh view scoped to the given seat.
    fn get_view(&self, player: Player) -> (v: Self::View)
        requires
            self.seats().contains(player),
    ;

    /// Apply a choice to the authoritative state, validating legality and
    /// advancing whose turn is next.  The seat list never changes.
    fn process_choice(&mut self, choice: &TurnChoice)
        requires
            !old(self).done(),
        ensures
            final(self).seats() == old(self).seats(),
            final(self).turns_left() < old(self).turns_left(),
    ;

    /// Report the final score once the game is over.
    fn score(&self) -> (s: Score)
        requires
            self.done(),
    ;
}

} // verus!
