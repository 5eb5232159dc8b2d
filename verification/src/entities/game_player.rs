//! The data of one player within a game, and its identifier.
use crate::entities::client::IdError;
use crate::entities::player::{text_id, text_id_parse};
use vstd::prelude::*;

verus! {

/// The identifier of a player's data within a game.
#[derive(Debug, PartialEq, Eq, Hash, Clone)]
pub struct GamePlayerId(pub String);

impl GamePlayerId {
    /// Parses a game player identifier; empty text is refused.
    pub fn from_str(id: &str) -> (r: Result<GamePlayerId, IdError>)
        ensures
            match r {
                Ok(p) => text_id_parse(id@) == Ok::<Seq<char>, IdError>(p.0@),
                Err(e) => text_id_parse(id@) == Err::<Seq<char>, IdError>(e),
            },
    {
        match text_id(id) {
            Ok(s) => Ok(GamePlayerId(s)),
            Err(e) => Err(e),
        }
    }

    /// The text of this identifier.
    pub fn to_string(&self) -> (r: String)
        ensures
            r@ == self.0@,
    {
        self.0.clone()
    }
}

/// The data of one player within a game.
#[derive(Debug, Clone, PartialEq)]
pub struct GamePlayerEntity {
    pub id: GamePlayerId,
}

impl GamePlayerEntity {
    pub fn new(id: GamePlayerId) -> (r: Self)
        ensures
            r.id == id,
    {
        Self { id }
    }
}

} // verus!
