//! Real-time websocket notifications: connections per user and device, message previews,
//! unread counts.

pub mod connection_manager;
pub mod models;
pub mod session;
