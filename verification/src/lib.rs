//! Core logic of a nested ("ultimate") tic-tac-toe match server: the
//! 3x3-of-3x3 board model with win/tie detection, the authoritative match
//! state machine, the fairness-based setup negotiation, the binary wire
//! protocol, and the matchmaking coordinator's decision rules.
pub mod codec;
pub mod engine;
pub mod game;
pub mod lobby;
pub mod rng;
