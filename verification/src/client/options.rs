//! Configuration of a client node.
use crate::entities::player::PlayerId;
use std::collections::HashMap;
use vstd::prelude::*;

verus! {

/// Configuration of the game that the client plays.
#[derive(Debug, Clone)]
pub struct Game {
    /// The endpoint of the game server.
    pub server_endpoint: String,
    /// The identifier of this player.
    pub player_id: PlayerId,
    /// The endpoints of the other players, by player.
    pub player_endpoints: HashMap<String, String>,
}

/// Configuration of the node's own HTTP server.
#[derive(Debug, Clone)]
pub struct Server {
    /// Port number of the server.
    pub port: u16,
    /// Address of the server.
    pub url: String,
}

} // verus!
