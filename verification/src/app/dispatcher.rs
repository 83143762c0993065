//! Which reaction an event of the client leads to.

use crate::text::str_eq;
use vstd::prelude::*;

verus! {

/// The reactions to events of the client.
#[derive(Clone, Copy, Debug, PartialEq, Eq, Structural)]
pub enum Route {
    ReadyCheck,
    Gameflow,
    HonorBallot,
    ChampSelect,
    /// Nothing is done about a lobby.
    Lobby,
}

/// The address that leads to a reaction.
pub open spec fn address(route: Route) -> Seq<char> {
    match route {
        Route::ReadyCheck => "/lol-matchmaking/v1/ready-check"@,
        Route::Gameflow => "/lol-gameflow/v1/gameflow-phase"@,
        Route::HonorBallot => "/lol-honor-v2/v1/ballot"@,
        Route::ChampSelect => "/lol-champ-select/v1/session"@,
        Route::Lobby => "/lol-lobby/v2/lobby"@,
    }
}

/// Two reactions have two addresses.
pub proof fn law_addresses_are_distinct(a: Route, b: Route)
    requires
        address(a) == address(b),
    ensures
        a == b,
{
    reveal_strlit("/lol-matchmaking/v1/ready-check");
    reveal_strlit("/lol-gameflow/v1/gameflow-phase");
    reveal_strlit("/lol-honor-v2/v1/ballot");
    reveal_strlit("/lol-champ-select/v1/session");
    reveal_strlit("/lol-lobby/v2/lobby");
    assert(address(a)[5] == address(b)[5]);
    assert(address(a).len() == address(b).len());
    assert(address(Route::ReadyCheck).len() == 31);
    assert(address(Route::Gameflow).len() == 31);
    assert(address(Route::HonorBallot).len() == 23);
    assert(address(Route::ChampSelect).len() == 28);
    assert(address(Route::Lobby).len() == 19);
    assert(address(Route::ReadyCheck)[5] == 'm');
    assert(address(Route::Gameflow)[5] == 'g');
}

/// The reaction to an event, if there is one.
pub fn dispatch_lcu_event(uri: &str) -> (r: Option<Route>)
    ensures
        match r {
            Some(route) => uri@ == address(route),
            None => forall|route: Route| uri@ != #[trigger] address(route),
        },
{
    if str_eq(uri, "/lol-matchmaking/v1/ready-check") {
        Some(Route::ReadyCheck)
    } else if str_eq(uri, "/lol-gameflow/v1/gameflow-phase") {
        Some(Route::Gameflow)
    } else if str_eq(uri, "/lol-honor-v2/v1/ballot") {
        Some(Route::HonorBallot)
    } else if str_eq(uri, "/lol-champ-select/v1/session") {
        Some(Route::ChampSelect)
    } else if str_eq(uri, "/lol-lobby/v2/lobby") {
        Some(Route::Lobby)
    } else {
        None
    }
}

} // verus!
