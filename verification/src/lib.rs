//! Server core of a multiplayer, room-based word-guessing game.
//!
//! Rooms are addressed by a four-hex-digit [`code::GameCode`]; each room is a
//! single-writer state machine driven by a typed message queue. This crate
//! holds the verified core: the data model, the word oracle, the word
//! sampling rules, the room registry, and the two game-loop state machines.
//! Transport, timers and file reading live with the caller, which feeds the
//! state machines plain values.

pub mod code;
pub mod competitive;
pub mod logic;
pub mod manager;
pub mod messages;
pub mod rank;
pub mod rng;
pub mod session;
pub mod settings;
pub mod team;
pub mod text;
pub mod user;
pub mod word;
pub mod word_generator;

pub use code::{GameCode, ParseGameCodeError};
pub use settings::{Difficulty, GameLanguage, GameMode, GameSettings};
pub use user::{User, UserToken};
