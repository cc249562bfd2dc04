//! A multiplayer, time-driven token-redistribution game.
//!
//! Players deposit a fixed entry fee into one of several buckets. Tokens
//! continuously flow between buckets according to a deterministic spillover
//! rule driven by elapsed time and per-bucket population. Players may move
//! between buckets (accruing a burn penalty) and may leave at any time to
//! claim a proportional share of their bucket's balance; the last player to
//! leave sweeps everything that remains.
//!
//! This crate holds the game's data model, the spillover engine and the
//! player-lifecycle rules, all verified. Custody of the underlying tokens,
//! account storage and signature checking are the host's concern: the host
//! performs the transfers and burns that the lifecycle functions report.

pub mod constants;
pub mod engine;
pub mod error;
pub mod game;
pub mod lifecycle;
pub mod player;
