//! Requests on loot.

use crate::json::{Json, JsonView};
use crate::lcu::api::{bare_request, LcuClient, Method, Request, RequestView};
use crate::text::concat;
use vstd::prelude::*;

verus! {

impl LcuClient {
    /// Asks for the player's loot.
    pub fn get_player_loot(&self) -> (r: Request)
        ensures
            r@ == bare_request(Method::Get, "/lol-loot/v1/player-loot"@),
    {
        self.get_json("/lol-loot/v1/player-loot")
    }

    /// Uses a recipe once on a piece of loot.
    pub fn call_loot_recipe(&self, loot_id: &str, recipe_name: &str) -> (r: Request)
        ensures
            r@ == (RequestView {
                method: Method::Post,
                endpoint: "/lol-loot/v1/recipes/"@ + recipe_name@ + "/craft?repeat=1"@,
                body: Some(JsonView::Array(seq![JsonView::Str(loot_id@)])),
            }),
    {
        let mut endpoint = concat("/lol-loot/v1/recipes/", recipe_name);
        endpoint.append("/craft?repeat=1");
        self.post_json(endpoint.as_str(), Some(Json::array1(Json::string(loot_id))))
    }
}

} // verus!
