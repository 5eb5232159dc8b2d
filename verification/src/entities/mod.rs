//! The entities of the system and their identifiers.
pub mod client;
pub mod clients;
pub mod game;
pub mod game_player;
pub mod player;
pub mod session;
