//! The game contract of a chess platform: staked games, puzzle rewards and
//! player ratings.
//!
//! `contract` holds the contract itself. Each of its calls is stated against
//! the state machine of `model`; `soundness` says what holds of every state,
//! `laws` what the calls promise together and `run` what holds over any
//! sequence of them. `play`, `payouts`, `rewards` and `elo` say of each call
//! when it succeeds, how it is refused and what it changes.

pub mod address;
pub mod arith;
pub mod claim;
pub mod contract;
pub mod elo;
pub mod error;
pub mod game;
pub mod laws;
pub mod ledger;
pub mod model;
pub mod payouts;
pub mod play;
pub mod rating;
pub mod rewards;
pub mod run;
pub mod soundness;
pub mod store;
