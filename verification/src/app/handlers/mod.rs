//! Reactions to single events of the client, each with a state of its own.

pub mod board;
pub mod champ_select;
pub mod gameflow;
pub mod honor;
pub mod loot;
pub mod overlay_click;
pub mod ready_check;
pub mod utils;
