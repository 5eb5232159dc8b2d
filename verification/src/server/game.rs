//! The game that the coordinating server (re)creates.
use crate::entities::game::{GameEntity, GameId};
use crate::entities::player::text_id_parse;
use vstd::prelude::*;

verus! {

/// The identifier of the game that the server creates.
pub open spec fn default_game_id() -> Seq<char> {
    "aas"@
}

/// The game that creating a game stores, which resets any game of that
/// identifier: the game `aas`, with no player data.
pub fn default_game() -> (r: GameEntity)
    ensures
        r.id.0@ == default_game_id(),
        r.game_data@ == Map::<crate::entities::player::PlayerId, crate::entities::game_player::GamePlayerEntity>::empty(),
{
    let id = GameId::try_from("aas");
    proof {
        reveal_strlit("aas");
    }
    match id {
        Ok(id) => GameEntity::new(id),
        Err(_) => {
            assert(text_id_parse("aas"@) is Ok);
            unreached()
        },
    }
}

} // verus!
