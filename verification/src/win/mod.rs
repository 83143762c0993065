//! What the overlay shows, and where windows go.

pub mod base;
pub mod hud1;
pub mod hud2;
pub mod info_panel;
pub mod overlay;
pub mod tray;
pub mod winapi;
