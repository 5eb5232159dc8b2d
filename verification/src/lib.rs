//! The verified core of a multi-party homomorphic-encryption service.
//!
//! Clients join a session held by a coordinating server, send key shares,
//! bootstrapping key shares and encrypted inputs; workers aggregate the shares
//! and compute a function on the inputs; each client then decrypts the result
//! with the decryption shares of its peers. This crate holds the entities, the
//! decisions of the server, the workers and the clients, and the rules of
//! session storage.
pub mod client;
pub mod crs;
pub mod decimal;
pub mod entities;
pub mod errors;
pub mod http;
pub mod in_memory;
pub mod server;
pub mod storage;
pub mod text;
pub mod utils;
pub mod worker;
pub mod workers;
