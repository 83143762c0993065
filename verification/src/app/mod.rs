//! What the assistant does with the events of a game.

pub mod config;
pub mod dispatcher;
pub mod event;
pub mod handlers;
pub mod histories;
pub mod laws;
pub mod loot;
pub mod main_loop;
pub mod premade;
pub mod prophet;
pub mod scout;
pub mod sniper;
pub mod state;
pub mod tasks;
mod union_find;
pub mod viewmodel;
