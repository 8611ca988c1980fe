//! WebRTC rooms: creation, password checks, participants and signalling tokens.

pub mod models;
pub mod token;
pub mod room_manager;
pub mod room_service;
pub mod join;
