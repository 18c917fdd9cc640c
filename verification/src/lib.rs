//! A turn-based simulation harness for cooperative, hidden-information card
//! games.  The engine drives pluggable strategies through complete games
//! while keeping each seat's private memory isolated, and aggregates the
//! scores of many independent trials.

pub mod engine;
pub mod game;
pub mod registry;
pub mod simulator;
pub mod strategies;
pub mod trace;
