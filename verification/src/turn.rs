//! TURN relays: the nodes that run them, their credentials and the shared secret.

pub mod models;
pub mod balance;
pub mod secrets;
pub mod credentials;
pub mod registry;
pub mod coordinator;
