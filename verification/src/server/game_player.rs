//! The service that records the data of players within games.
use crate::entities::game::GameId;
use crate::entities::game_player::{GamePlayerEntity, GamePlayerId};
use crate::errors::CoreError;
use std::sync::Arc;
use vstd::prelude::*;

verus! {

/// Where the data of players within games is stored.
pub trait GamePlayerPort: Sync + Send {
    /// Stores the data of one player of a game.
    fn update(
        &self,
        game_id: GameId,
        game_player_id: GamePlayerId,
        game_player_entity: GamePlayerEntity,
    ) -> Result<String, CoreError>;
}

/// The service over the store of game players.
pub struct GamePlayerService<P: GamePlayerPort + ?Sized> {
    pub game_player: Arc<P>,
}

impl<P: GamePlayerPort + ?Sized> GamePlayerService<P> {
    pub fn new(game_player: Arc<P>) -> (r: Self)
        ensures
            r.game_player == game_player,
    {
        Self { game_player }
    }
}

} // verus!
