//! The options that a user sets.

use vstd::prelude::*;

verus! {

/// The user's options, kept from one run of the program to the next.
#[derive(Clone, Copy, Debug, PartialEq, Eq, Structural)]
pub struct AppConfig {
    /// Accept a match when one is found.
    pub auto_accept_enabled: bool,
    /// How long to wait before accepting, in seconds (0 to 15).
    pub auto_accept_delay_secs: u64,
    /// Skip the honor vote after a game.
    pub auto_honor_skip: bool,
    /// Look for premade groups during champion select.
    pub premade_champ_select: bool,
    /// Look for premade groups in the game.
    pub premade_ingame: bool,
    /// Reload the client's interface when it takes too much memory.
    pub memory_monitor: bool,
    /// How much memory is too much, in megabytes (500 to 4000).
    pub memory_threshold_mb: u64,
    /// The opacity of the window in percent (30 to 100).
    pub opacity: u8,
}

/// The options of a user who has set none.
pub open spec fn default_config() -> AppConfig {
    AppConfig {
        auto_accept_enabled: true,
        auto_accept_delay_secs: 5,
        auto_honor_skip: true,
        premade_champ_select: true,
        premade_ingame: true,
        memory_monitor: true,
        memory_threshold_mb: 1500,
        opacity: 95,
    }
}

impl Default for AppConfig {
    fn default() -> (r: Self)
        ensures
            r == default_config(),
    {
        AppConfig {
            auto_accept_enabled: true,
            auto_accept_delay_secs: 5,
            auto_honor_skip: true,
            premade_champ_select: true,
            premade_ingame: true,
            memory_monitor: true,
            memory_threshold_mb: 1500,
            opacity: 95,
        }
    }
}

} // verus!
