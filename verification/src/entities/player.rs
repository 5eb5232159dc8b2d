//! A player of a game, and its identifier.
use crate::entities::client::IdError;
use vstd::prelude::*;

verus! {

/// What parsing `s` as a textual identifier gives: the text itself when it is
/// not empty.
pub open spec fn text_id_parse(s: Seq<char>) -> Result<Seq<char>, IdError> {
    if s.len() == 0 {
        Err(IdError::NoIdProvided)
    } else {
        Ok(s)
    }
}

/// Takes `id` as an identifier, refusing empty text.
pub fn text_id(id: &str) -> (r: Result<String, IdError>)
    ensures
        match r {
            Ok(s) => text_id_parse(id@) == Ok::<Seq<char>, IdError>(s@),
            Err(e) => text_id_parse(id@) == Err::<Seq<char>, IdError>(e),
        },
{
    if id.unicode_len() == 0 {
        Err(IdError::NoIdProvided)
    } else {
        Ok(String::from_str(id))
    }
}

/// The identifier of a player.
#[derive(Debug, PartialEq, Eq, Hash, Clone)]
pub struct PlayerId(pub String);

impl PlayerId {
    /// Parses a player identifier; empty text is refused.
    pub fn from_str(id: &str) -> (r: Result<PlayerId, IdError>)
        ensures
            match r {
                Ok(p) => text_id_parse(id@) == Ok::<Seq<char>, IdError>(p.0@),
                Err(e) => text_id_parse(id@) == Err::<Seq<char>, IdError>(e),
            },
    {
        match text_id(id) {
            Ok(s) => Ok(PlayerId(s)),
            Err(e) => Err(e),
        }
    }

    /// The text of this identifier.
    pub fn to_string(&self) -> (r: String)
        ensures
            r@ == self.0@,
    {
        self.0.clone()
    }
}

/// A player of a game.
#[derive(Debug, Clone, PartialEq)]
pub struct PlayerEntity {
    pub id: PlayerId,
}

impl PlayerEntity {
    pub fn new(id: PlayerId) -> (r: Self)
        ensures
            r.id == id,
    {
        Self { id }
    }
}

} // verus!
