//! Client-side prediction and server reconciliation for a tick-driven
//! multiplayer movement client.
//!
//! A locally controlled actor moves at once when its user says so, without
//! waiting for the server. When the server's word on the actor arrives, the
//! client drops the commands that the server has seen, takes the server's
//! position, and plays the remaining commands again on top of it. That only
//! works if playing the same commands twice gives the same positions, so the
//! whole simulation runs on ticks and whole numbers: coordinates are counted
//! in sub-units, a thousand to the world unit, and no clock or random source
//! is read.
//!
//! - [`movement`]: the displacement law, shared by prediction and replay.
//! - [`clock`]: the tick counter, with hold and adjustment.
//! - [`input`]: the log of commands not yet acknowledged.
//! - [`replay`]: what playing a span of ticks over a log yields.
//! - [`player`]: the local actor and the remote actors.
//! - [`session`]: all of it together, and what each event does to it.
//! - [`dispatch`]: messages and events, one at a time and in batches.
//! - [`laws`]: what holds of a session whatever happens to it.

pub mod clock;
pub mod dispatch;
pub mod dots;
pub mod input;
pub mod laws;
pub mod messages;
pub mod movement;
pub mod name;
pub mod player;
pub mod point;
pub mod replay;
pub mod root;
pub mod scoreboard;
pub mod session;
