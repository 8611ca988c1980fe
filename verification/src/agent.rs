//! The agent that runs beside a TURN server: its settings, the server's configuration file,
//! and what it does with the coordinator's messages.

pub mod config;
pub mod coturn;
pub mod session;
