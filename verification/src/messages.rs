//! What the server and the client tell each other.
//!
//! These are the messages as values; putting them on the wire and taking them
//! off it is the transport's business.

use vstd::prelude::*;
use crate::input::PlayerInput;
use crate::point::Point;

verus! {

/// A message from the server.
#[derive(Clone, Debug)]
pub enum NetworkMessage {
    /// Where actors stood, and where they were heading, at given ticks.
    GameUpdate(Vec<NewPos>),
    /// The roster of the game, for display.
    GameState(Vec<PlayerState>),
    /// A session starts.
    NewGame(NewGame),
    /// The server is there.
    Ping,
    /// An actor was hit.
    DamagePlayer(Damage),
    /// An actor's score changed.
    ScoreUpdate(Score),
    /// The client's tick count is to move.
    SyncClient(SyncMessage),
}

/// A message to the server.
#[derive(Clone, Debug)]
pub enum ClientMessage {
    PlayerInput(PlayerInput),
    PlayerName(String),
}

/// The server's word on one actor at one tick: where it stood (`pos`) and
/// where it was heading (`input`).
#[derive(Clone, Copy, Debug, PartialEq, Eq, Structural)]
pub struct NewPos {
    pub input: Point,
    pub tick: u64,
    pub id: u128,
    pub pos: Point,
}

/// A request from the server to move the client's tick count.
#[derive(Clone, Copy, Debug, PartialEq, Eq, Structural)]
pub struct SyncMessage {
    pub tick_adjustment: i64,
    pub server_tick: u64,
}

/// The start of a session: who the local actor is and what tick it is.
#[derive(Clone, Debug)]
pub struct NewGame {
    pub id: u128,
    pub server_tick: u64,
    pub rng_seed: u64,
    pub high_scores: Vec<(String, u64)>,
    pub objects: ObjectMsg,
}

/// The falling objects of a session, each with the tick at which it appears.
#[derive(Clone, Debug)]
pub struct ObjectMsg {
    pub rain_pos: Vec<(u64, Point)>,
    pub bolt_pos: Vec<(u64, Point)>,
}

/// An actor was hit: its score and how long it had lived.
#[derive(Clone, Debug)]
pub struct Damage {
    pub id: u128,
    pub tick: Option<u64>,
    pub secs_alive: u64,
    pub high_scores: Option<Vec<(String, u64)>>,
    pub pos: Point,
    pub score: usize,
}

/// An actor's new score.
#[derive(Clone, Copy, Debug, PartialEq, Eq, Structural)]
pub struct Score {
    pub id: u128,
    pub score: usize,
    pub tick: u64,
}

/// One line of the roster.
#[derive(Clone, Debug)]
pub struct PlayerState {
    pub pos: Point,
    pub target: Point,
    pub score: usize,
    pub name: Option<String>,
    pub id: u128,
    pub time_alive: u64,
    pub alive: bool,
}

} // verus!
