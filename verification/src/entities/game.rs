//! A game, and its identifier.
use crate::entities::client::IdError;
use crate::entities::game_player::GamePlayerEntity;
use crate::entities::player::{text_id, text_id_parse, PlayerId};
use std::collections::HashMap;
use vstd::prelude::*;

verus! {

/// The identifier of a game.
#[derive(Debug, PartialEq, Eq, Hash, Clone)]
pub struct GameId(pub String);

impl GameId {
    /// Takes `id` as a game identifier; empty text is refused.
    pub fn try_from(id: &str) -> (r: Result<GameId, IdError>)
        ensures
            match r {
                Ok(g) => text_id_parse(id@) == Ok::<Seq<char>, IdError>(g.0@),
                Err(e) => text_id_parse(id@) == Err::<Seq<char>, IdError>(e),
            },
    {
        match text_id(id) {
            Ok(s) => Ok(GameId(s)),
            Err(e) => Err(e),
        }
    }

    /// The text of this identifier.
    pub fn to_string(&self) -> (r: String)
        ensures
            r@ == self.0@,
    {
        self.0.clone()
    }
}

/// A game: its identifier and the data of each of its players.
#[derive(Debug, Clone, PartialEq)]
pub struct GameEntity {
    pub id: GameId,
    pub game_data: HashMap<PlayerId, GamePlayerEntity>,
}

impl GameEntity {
    /// A game with no player data yet.
    pub fn new(id: GameId) -> (r: Self)
        ensures
            r.id == id,
            r.game_data@ == Map::<PlayerId, GamePlayerEntity>::empty(),
    {
        Self { id, game_data: HashMap::new() }
    }
}

} // verus!
