//! Requests on the player.

use crate::lcu::api::{bare_request, LcuClient, Method, Request};
use vstd::prelude::*;

verus! {

impl LcuClient {
    /// Asks who the player is.
    pub fn get_current_summoner(&self) -> (r: Request)
        ensures
            r@ == bare_request(Method::Get, "/lol-summoner/v1/current-summoner"@),
    {
        self.get_json("/lol-summoner/v1/current-summoner")
    }
}

} // verus!
