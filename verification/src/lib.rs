//! Core logic of a chat backend: file storage rules, TURN relay coordination,
//! WebRTC room management and real-time websocket presence.

pub mod channel;
pub mod agent;
pub mod clock;
pub mod crypto;
pub mod random;
pub mod text;
pub mod storage;
pub mod turn;
pub mod webrtc_room;
pub mod websocket;
