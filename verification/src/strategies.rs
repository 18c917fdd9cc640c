//! The capability contract a strategy must satisfy, and a minimal example
//! policy.
//!
//! State management is done by the simulator, not the strategy, so that a
//! strategy can never observe another seat's memory: every call receives
//! only the calling seat's own `InternalState` and a view scoped to that
//! seat.

use vstd::prelude::*;

use crate::game::{Player, Turn, TurnChoice};

verus! {

/// The contract for a strategy whose per-seat assignment is known at
/// compile time: all seats run the same policy type, each with its own
/// `InternalState`.  `V` is the rules engine's seat-scoped view type.
pub trait Strategy<V> {
    /// Per-seat private memory, opaque to the simulator.
    type InternalState;

    /// Called once per seat before play begins.
    fn initialize(player: &Player, view: &V) -> Self::InternalState;

    /// Called only on the acting seat's turn, with that seat's own state
    /// and a fresh view of the current position.
    fn decide(state: &mut Self::InternalState, player: &Player, view: &V) -> TurnChoice;

    /// Called for every seat after every turn (the actor's included), with
    /// the turn that just happened and a view scoped to the receiving seat.
    fn update(state: &mut Self::InternalState, turn: &Turn, view: &V);
}

/// A strategy configuration: one shared, read-only parameter value from
/// which every seat's policy is run, each seat still owning an independent
/// `State`.  This is the symmetric-mode entry point's contract, and the
/// shape the simulation loop itself consumes.  Because every call carries
/// the calling seat's identity, a configuration can also assign different
/// policies to different seats, which is how a heterogeneous roster is
/// expressed.
pub trait StrategyConfig<V> {
    /// Per-seat private memory, opaque to the simulator.
    type State;

    /// Called once per seat before play begins.
    fn initialize(&self, player: &Player, view: &V) -> Self::State;

    /// Called only on the acting seat's turn.
    fn decide(&self, state: &mut Self::State, player: &Player, view: &V) -> TurnChoice;

    /// Called for every seat after every turn.
    fn update(&self, state: &mut Self::State, turn: &Turn, view: &V);
}

/// Every `Strategy` is a configuration that carries no parameters: the
/// calls go straight to the policy type's associated functions.
impl<V, S: Strategy<V>> StrategyConfig<V> for S {
    type State = S::InternalState;

    fn initialize(&self, player: &Player, view: &V) -> Self::State {
        S::initialize(player, view)
    }

    fn decide(&self, state: &mut Self::State, player: &Player, view: &V) -> TurnChoice {
        S::decide(state, player, view)
    }

    fn update(&self, state: &mut Self::State, turn: &Turn, view: &V) {
        S::update(state, turn, view)
    }
}

/// A fixed policy that keeps no memory and always plays hand position 0.
pub struct AlwaysPlay;

impl<V> Strategy<V> for AlwaysPlay {
    type InternalState = ();

    fn initialize(_player: &Player, _view: &V) -> Self::InternalState {
    }

    fn decide(_state: &mut Self::InternalState, _player: &Player, _view: &V) -> TurnChoice {
        TurnChoice::Play(0)
    }

    fn update(_state: &mut Self::InternalState, _turn: &Turn, _view: &V) {
    }
}

} // verus!
