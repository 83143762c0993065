//! What the user can rely on: what each part of the library does, stated on its inputs and
//! results.

pub mod calls;
pub mod checks;
pub mod claims;
pub mod connecting;
pub mod figures;
pub mod groups;
pub mod histories;
pub mod panels;
pub mod reactions;
pub mod requests;
pub mod rewards;
pub mod scouting;
pub mod sessions;
pub mod sniping;
pub mod texts;
pub mod turns;
pub mod values;
pub mod windows;
