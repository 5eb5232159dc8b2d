pub mod errors;
pub mod game;
pub mod game_player;
pub mod session;
