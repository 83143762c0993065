//! The interface of the game client.

pub mod api;
pub mod connection;
pub mod monitor;
pub mod websocket;
