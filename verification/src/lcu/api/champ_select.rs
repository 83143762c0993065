//! Champion select: sessions, the bench, and the player's own actions.

use crate::json::{
    array_view, empty_object, first_text, first_text_of, json_eq, lemma_array_step,
    lemma_array_view, whole_view, Json, JsonView,
};
use crate::lcu::api::{
    bare_request, json_result, ErrorView, LcuApiError, LcuClient, Method, Request, RequestView,
};
use crate::text::{concat, decimal_int, i64_text, str_eq};
use std::collections::HashMap;
use vstd::prelude::*;

verus! {

// ---------------------------------------------------------------------------
// Lists
// ---------------------------------------------------------------------------

/// The whole numbers among some values.
pub open spec fn integers_in(items: Seq<JsonView>) -> Seq<i64>
    decreases items.len(),
{
    if items.len() == 0 {
        Seq::empty()
    } else {
        match items.last().integer() {
            Some(n) => integers_in(items.drop_last()).push(n),
            None => integers_in(items.drop_last()),
        }
    }
}

/// The champions of some bench entries.
pub open spec fn champions_in(items: Seq<JsonView>) -> Seq<i64>
    decreases items.len(),
{
    if items.len() == 0 {
        Seq::empty()
    } else {
        match items.last().integer_field("championId"@) {
            Some(n) => champions_in(items.drop_last()).push(n),
            None => champions_in(items.drop_last()),
        }
    }
}

/// The objects among some values.
pub open spec fn objects_in(items: Seq<JsonView>) -> Seq<JsonView>
    decreases items.len(),
{
    if items.len() == 0 {
        Seq::empty()
    } else if items.last() is Object {
        objects_in(items.drop_last()).push(items.last())
    } else {
        objects_in(items.drop_last())
    }
}

/// The champions on the bench: those listed by number or, where that list is missing or
/// empty, those of the bench entries.
pub open spec fn bench_in(session: JsonView) -> Seq<i64> {
    let listed = session.items_field("benchChampionIds"@);
    if listed is Some && listed->0.len() > 0 {
        integers_in(listed->0)
    } else {
        match session.items_field("benchChampions"@) {
            Some(entries) => champions_in(entries),
            None => Seq::empty(),
        }
    }
}

fn read_integers(items: &Vec<Json>) -> (r: Vec<i64>)
    ensures
        r@ == integers_in(array_view(items@)),
{
    let mut r: Vec<i64> = Vec::new();
    let mut i: usize = 0;
    proof {
        lemma_array_view(items@);
        assert(array_view(items@).subrange(0, 0) =~= Seq::empty());
    }
    while i < items.len()
        invariant
            i <= items@.len(),
            array_view(items@).len() == items@.len(),
            r@ == integers_in(array_view(items@).subrange(0, i as int)),
        decreases items@.len() - i,
    {
        proof {
            lemma_array_step(items@, i as int);
        }
        match items[i].as_i64() {
            Some(n) => {
                r.push(n);
            },
            None => {},
        }
        i += 1;
    }
    assert(array_view(items@).subrange(0, items@.len() as int) =~= array_view(items@));
    r
}

fn read_champions(items: &Vec<Json>) -> (r: Vec<i64>)
    ensures
        r@ == champions_in(array_view(items@)),
{
    let mut r: Vec<i64> = Vec::new();
    let mut i: usize = 0;
    proof {
        lemma_array_view(items@);
        assert(array_view(items@).subrange(0, 0) =~= Seq::empty());
    }
    while i < items.len()
        invariant
            i <= items@.len(),
            array_view(items@).len() == items@.len(),
            r@ == champions_in(array_view(items@).subrange(0, i as int)),
        decreases items@.len() - i,
    {
        proof {
            lemma_array_step(items@, i as int);
        }
        match items[i].get_i64("championId") {
            Some(n) => {
                r.push(n);
            },
            None => {},
        }
        i += 1;
    }
    assert(array_view(items@).subrange(0, items@.len() as int) =~= array_view(items@));
    r
}

fn read_objects(items: &Vec<Json>) -> (r: Vec<Json>)
    ensures
        array_view(r@) == objects_in(array_view(items@)),
{
    let mut r: Vec<Json> = Vec::new();
    let mut i: usize = 0;
    proof {
        lemma_array_view(items@);
        assert(array_view(items@).subrange(0, 0) =~= Seq::empty());
    }
    while i < items.len()
        invariant
            i <= items@.len(),
            array_view(items@).len() == items@.len(),
            array_view(r@) == objects_in(array_view(items@).subrange(0, i as int)),
        decreases items@.len() - i,
    {
        proof {
            lemma_array_step(items@, i as int);
        }
        if items[i].is_object() {
            let ghost before = r@;
            r.push(items[i].copy());
            assert(r@.drop_last() =~= before);
        }
        i += 1;
    }
    assert(array_view(items@).subrange(0, items@.len() as int) =~= array_view(items@));
    r
}

// ---------------------------------------------------------------------------
// The player and their actions
// ---------------------------------------------------------------------------

/// The first entry of a team in the given cell.
pub open spec fn first_in_cell(team: Seq<JsonView>, cell: JsonView) -> Option<JsonView>
    decreases team.len(),
{
    if team.len() == 0 {
        None
    } else if team[0].field("cellId"@) == Some(cell) {
        Some(team[0])
    } else {
        first_in_cell(team.drop_first(), cell)
    }
}

/// The player's own entry in a session.
pub open spec fn local_player(session: JsonView) -> Option<JsonView> {
    match (session.field("localPlayerCellId"@), session.items_field("myTeam"@)) {
        (Some(cell), Some(team)) => first_in_cell(team, cell),
        _ => None,
    }
}

/// The actions of one round: the objects of a list, or a single object.
pub open spec fn round_actions(round: JsonView) -> Seq<JsonView> {
    match round {
        JsonView::Array(items) => objects_in(items),
        JsonView::Object(_) => seq![round],
        _ => Seq::empty(),
    }
}

/// The actions of some rounds, one after the other.
pub open spec fn rounds_actions(rounds: Seq<JsonView>) -> Seq<JsonView>
    decreases rounds.len(),
{
    if rounds.len() == 0 {
        Seq::empty()
    } else {
        rounds_actions(rounds.drop_last()) + round_actions(rounds.last())
    }
}

/// All the actions of a session.
pub open spec fn actions_in(session: JsonView) -> Seq<JsonView> {
    match session.items_field("actions"@) {
        Some(rounds) => rounds_actions(rounds),
        None => Seq::empty(),
    }
}

/// An action is the player's own, of the given type and, where that is asked for, not
/// completed.
pub open spec fn is_own_action(
    action: JsonView,
    cell: JsonView,
    action_type: Seq<char>,
    only_unfinished: bool,
) -> bool {
    &&& action.field("actorCellId"@) == Some(cell)
    &&& action.text_field("type"@) == Some(action_type)
    &&& !(only_unfinished && action.truth_field("completed"@) == Some(true))
}

/// The first of some actions that is the player's own.
pub open spec fn first_own_action(
    actions: Seq<JsonView>,
    cell: JsonView,
    action_type: Seq<char>,
    only_unfinished: bool,
) -> Option<JsonView>
    decreases actions.len(),
{
    if actions.len() == 0 {
        None
    } else if is_own_action(actions[0], cell, action_type, only_unfinished) {
        Some(actions[0])
    } else {
        first_own_action(actions.drop_first(), cell, action_type, only_unfinished)
    }
}

/// The player's own action in a session.
pub open spec fn local_action(
    session: JsonView,
    action_type: Seq<char>,
    only_unfinished: bool,
) -> Option<JsonView> {
    match session.field("localPlayerCellId"@) {
        Some(cell) => first_own_action(
            actions_in(session),
            cell,
            action_type,
            only_unfinished,
        ),
        None => None,
    }
}

/// The views of some values behind references.
pub open spec fn ref_views(v: Seq<&Json>) -> Seq<JsonView> {
    Seq::new(v.len(), |i: int| v[i]@)
}

fn field_is(v: &Json, name: &str, value: &Json) -> (r: bool)
    ensures
        r == (v@.field(name@) == Some(value@)),
{
    match v.get(name) {
        Some(x) => json_eq(x, value),
        None => false,
    }
}

fn own_action(action: &Json, cell: &Json, action_type: &str, only_unfinished: bool) -> (r: bool)
    ensures
        r == is_own_action(action@, cell@, action_type@, only_unfinished),
{
    if !field_is(action, "actorCellId", cell) {
        return false;
    }
    match action.get_str("type") {
        Some(t) => {
            if !str_eq(t, action_type) {
                return false;
            }
        },
        None => {
            return false;
        },
    }
    if only_unfinished {
        match action.get_bool("completed") {
            Some(done) => !done,
            None => true,
        }
    } else {
        true
    }
}

impl LcuClient {
    /// The champions on the bench of a session.
    pub fn extract_bench_champion_ids(session: &Json) -> (r: Vec<i64>)
        ensures
            r@ == bench_in(session@),
    {
        match session.get_array("benchChampionIds") {
            Some(ids) => {
                proof {
                    lemma_array_view(ids@);
                }
                if ids.len() > 0 {
                    return read_integers(ids);
                }
            },
            None => {},
        }
        match session.get_array("benchChampions") {
            Some(entries) => read_champions(entries),
            None => Vec::new(),
        }
    }

    /// The player's own entry in a session.
    pub fn get_local_player(session: &Json) -> (r: Option<&Json>)
        ensures
            crate::json::opt_view(r) == local_player(session@),
    {
        match (session.get("localPlayerCellId"), session.get_array("myTeam")) {
            (Some(cell), Some(team)) => {
                proof {
                    lemma_array_view(team@);
                    assert(array_view(team@).subrange(0, team@.len() as int) =~= array_view(team@));
                }
                let mut i: usize = 0;
                while i < team.len()
                    invariant
                        i <= team@.len(),
                        array_view(team@).len() == team@.len(),
                        forall|k: int|
                            0 <= k < team@.len() ==> #[trigger] array_view(team@)[k] == team@[k]@,
                        local_player(session@) == first_in_cell(
                            array_view(team@).subrange(i as int, team@.len() as int),
                            cell@,
                        ),
                    decreases team@.len() - i,
                {
                    proof {
                        let rest = array_view(team@).subrange(i as int, team@.len() as int);
                        assert(rest[0] == team@[i as int]@);
                        assert(rest.drop_first() =~= array_view(team@).subrange(
                            i + 1,
                            team@.len() as int,
                        ));
                    }
                    if field_is(&team[i], "cellId", cell) {
                        return Some(&team[i]);
                    }
                    i += 1;
                }
                None
            },
            _ => None,
        }
    }

    /// All the actions of a session, round by round.
    pub fn iter_actions(session: &Json) -> (r: Vec<&Json>)
        ensures
            ref_views(r@) == actions_in(session@),
    {
        let mut r: Vec<&Json> = Vec::new();
        assert(ref_views(r@) =~= Seq::empty());
        match session.get_array("actions") {
            Some(rounds) => {
                proof {
                    lemma_array_view(rounds@);
                    assert(array_view(rounds@).subrange(0, 0) =~= Seq::empty());
                }
                let mut i: usize = 0;
                while i < rounds.len()
                    invariant
                        i <= rounds@.len(),
                        array_view(rounds@).len() == rounds@.len(),
                        ref_views(r@) == rounds_actions(
                            array_view(rounds@).subrange(0, i as int),
                        ),
                    decreases rounds@.len() - i,
                {
                    let ghost before = ref_views(r@);
                    let round = &rounds[i];
                    proof {
                        lemma_array_step(rounds@, i as int);
                    }
                    match round {
                        Json::Array(actions) => {
                            proof {
                                lemma_array_view(actions@);
                                assert(array_view(actions@).subrange(0, 0) =~= Seq::empty());
                                assert(before + Seq::<JsonView>::empty() =~= before);
                            }
                            let mut j: usize = 0;
                            while j < actions.len()
                                invariant
                                    j <= actions@.len(),
                                    array_view(actions@).len() == actions@.len(),
                                    ref_views(r@) == before + objects_in(
                                        array_view(actions@).subrange(0, j as int),
                                    ),
                                decreases actions@.len() - j,
                            {
                                proof {
                                    lemma_array_step(actions@, j as int);
                                }
                                if actions[j].is_object() {
                                    let ghost listed = ref_views(r@);
                                    r.push(&actions[j]);
                                    assert(ref_views(r@) =~= listed.push(actions@[j as int]@));
                                    assert(ref_views(r@) =~= before + objects_in(
                                        array_view(actions@).subrange(0, j + 1),
                                    ));
                                }
                                j += 1;
                            }
                            assert(array_view(actions@).subrange(0, actions@.len() as int)
                                =~= array_view(actions@));
                        },
                        Json::Object(_) => {
                            r.push(round);
                            assert(ref_views(r@) =~= before + seq![round@]);
                        },
                        _ => {
                            assert(ref_views(r@) =~= before + Seq::<JsonView>::empty());
                        },
                    }
                    i += 1;
                }
                assert(array_view(rounds@).subrange(0, rounds@.len() as int) =~= array_view(
                    rounds@,
                ));
            },
            None => {},
        }
        r
    }

    /// The player's own action of a type in a session, the first one that there is.
    pub fn find_local_action_static<'a>(
        session: &'a Json,
        action_type: &str,
        only_unfinished: bool,
    ) -> (r: Option<&'a Json>)
        ensures
            crate::json::opt_view(r) == local_action(session@, action_type@, only_unfinished),
    {
        match session.get("localPlayerCellId") {
            Some(cell) => {
                let actions = Self::iter_actions(session);
                let ghost all = ref_views(actions@);
                assert(all.subrange(0, all.len() as int) =~= all);
                let mut i: usize = 0;
                while i < actions.len()
                    invariant
                        i <= actions@.len(),
                        all == ref_views(actions@),
                        local_action(session@, action_type@, only_unfinished) == first_own_action(
                            all.subrange(i as int, all.len() as int),
                            cell@,
                            action_type@,
                            only_unfinished,
                        ),
                    decreases actions@.len() - i,
                {
                    proof {
                        let rest = all.subrange(i as int, all.len() as int);
                        assert(rest[0] == actions@[i as int]@);
                        assert(rest.drop_first() =~= all.subrange(i + 1, all.len() as int));
                    }
                    if own_action(actions[i], cell, action_type, only_unfinished) {
                        return Some(actions[i]);
                    }
                    i += 1;
                }
                None
            },
            None => None,
        }
    }
}

// ---------------------------------------------------------------------------
// Requests
// ---------------------------------------------------------------------------

/// The request that hovers or locks a champion with an action.
pub open spec fn act_request(action_id: int, champion_id: int, completed: bool) -> RequestView {
    RequestView {
        method: Method::Patch,
        endpoint: "/lol-champ-select/v1/session/actions/"@ + decimal_int(action_id),
        body: Some(
            empty_object().with("championId"@, whole_view(champion_id)).with(
                "completed"@,
                JsonView::Bool(completed),
            ),
        ),
    }
}

/// What follows the client's answer on the session where no action was given: the
/// request with the player's own unfinished pick, or an error where there is none.
pub open spec fn act_after_session(
    answer: Result<JsonView, ErrorView>,
    champion_id: int,
    completed: bool,
) -> Result<RequestView, ErrorView> {
    match answer {
        Ok(session) => match local_action(session, "pick"@, true) {
            Some(action) => match action.integer_field("id"@) {
                Some(id) => Ok(act_request(id as int, champion_id, completed)),
                None => Err(ErrorView::Other("action 缺少 id 字段"@)),
            },
            None => Err(ErrorView::Other("当前没有可用的 pick 行动"@)),
        },
        Err(e) => Err(e),
    }
}

/// The view of a request that may have come to nothing.
pub open spec fn request_result(r: Result<Request, LcuApiError>) -> Result<RequestView, ErrorView> {
    match r {
        Ok(q) => Ok(q@),
        Err(e) => Err(e@),
    }
}

fn action_request(action_id: i64, champion_id: i64, completed: bool) -> (r: Request)
    ensures
        r@ == act_request(action_id as int, champion_id as int, completed),
{
    let endpoint = concat("/lol-champ-select/v1/session/actions/", i64_text(action_id).as_str());
    let body = Json::object().with("championId", Json::whole(champion_id)).with(
        "completed",
        Json::Bool(completed),
    );
    Request { method: Method::Patch, endpoint, body: Some(body) }
}

/// The champions in the client's list: each number with the name, or the alias where
/// there is no name, or a made-up name.
pub open spec fn champion_names(champions: Seq<JsonView>) -> Map<i64, Seq<char>>
    decreases champions.len(),
{
    if champions.len() == 0 {
        Map::empty()
    } else {
        let rest = champion_names(champions.drop_last());
        let champion = champions.last();
        match champion.integer_field("id"@) {
            Some(id) => rest.insert(
                id,
                first_text(
                    champion,
                    "name"@,
                    "alias"@,
                    "Champion-"@ + decimal_int(id as int),
                ),
            ),
            None => rest,
        }
    }
}

/// The views of the names in a map.
pub open spec fn names_view(m: Map<i64, String>) -> Map<i64, Seq<char>> {
    m.map_values(|s: String| s@)
}

impl LcuClient {
    /// Asks for the session.
    pub fn get_champ_select_session(&self) -> (r: Request)
        ensures
            r@ == bare_request(Method::Get, "/lol-champ-select/v1/session"@),
    {
        self.get_json("/lol-champ-select/v1/session")
    }

    /// Asks for the champions that can be picked; `pickable_champion_ids` reads the answer.
    pub fn get_pickable_champion_ids(&self) -> (r: Request)
        ensures
            r@ == bare_request(Method::Get, "/lol-champ-select/v1/pickable-champion-ids"@),
    {
        self.get_json("/lol-champ-select/v1/pickable-champion-ids")
    }

    /// The champions in the client's answer; anything but a list holds none.
    pub fn pickable_champion_ids(v: &Json) -> (r: Vec<i64>)
        ensures
            r@ == match v@.items() {
                Some(items) => integers_in(items),
                None => Seq::empty(),
            },
    {
        match v.as_array() {
            Some(items) => read_integers(items),
            None => Vec::new(),
        }
    }

    /// Asks for the champions that the player owns, once the client has said who the
    /// player is; `owned_champions_minimal` reads the answer.
    pub fn get_owned_champions_minimal(&self, summoner: Result<Json, LcuApiError>) -> (r: Result<
        Request,
        LcuApiError,
    >)
        ensures
            request_result(r) == match json_result(summoner) {
                Ok(v) => match v.integer_field("summonerId"@) {
                    Some(id) => Ok(
                        bare_request(
                            Method::Get,
                            "/lol-champions/v1/inventories/"@ + decimal_int(id as int)
                                + "/champions-minimal"@,
                        ),
                    ),
                    None => Err(ErrorView::Other("未找到 summonerId"@)),
                },
                Err(e) => Err(e),
            },
    {
        match summoner {
            Ok(v) => match v.get_i64("summonerId") {
                Some(id) => {
                    let mut endpoint = concat(
                        "/lol-champions/v1/inventories/",
                        i64_text(id).as_str(),
                    );
                    endpoint.append("/champions-minimal");
                    Ok(self.get_json(endpoint.as_str()))
                },
                None => Err(LcuApiError::Other("未找到 summonerId".to_owned())),
            },
            Err(e) => Err(e),
        }
    }

    /// The champions in the client's answer: the objects of the list.
    pub fn owned_champions_minimal(v: &Json) -> (r: Vec<Json>)
        ensures
            array_view(r@) == match v@.items() {
                Some(items) => objects_in(items),
                None => Seq::empty(),
            },
    {
        match v.as_array() {
            Some(items) => read_objects(items),
            None => Vec::new(),
        }
    }

    /// The names of champions by their numbers.
    pub fn get_champion_id_name_map(champions: &Vec<Json>) -> (r: HashMap<i64, String>)
        ensures
            names_view(r@) == champion_names(array_view(champions@)),
    {
        broadcast use vstd::std_specs::hash::group_hash_axioms;

        let mut map: HashMap<i64, String> = HashMap::new();
        proof {
            lemma_array_view(champions@);
            assert(array_view(champions@).subrange(0, 0) =~= Seq::empty());
            assert(names_view(map@) =~= Map::empty());
        }
        let mut i: usize = 0;
        while i < champions.len()
            invariant
                i <= champions@.len(),
                array_view(champions@).len() == champions@.len(),
                names_view(map@) == champion_names(array_view(champions@).subrange(0, i as int)),
            decreases champions@.len() - i,
        {
            broadcast use vstd::std_specs::hash::group_hash_axioms;

            let champion = &champions[i];
            proof {
                lemma_array_step(champions@, i as int);
            }
            match champion.get_i64("id") {
                Some(id) => {
                    let made_up = concat("Champion-", i64_text(id).as_str());
                    let name = first_text_of(
                        champion,
                        "name",
                        "alias",
                        made_up.as_str(),
                    );
                    let ghost before = map@;
                    map.insert(id, name);
                    assert(names_view(map@) =~= names_view(before).insert(id, name@));
                },
                None => {},
            }
            i += 1;
        }
        assert(array_view(champions@).subrange(0, champions@.len() as int) =~= array_view(
            champions@,
        ));
        map
    }

    /// Hovers or locks a champion. Without an action the session is asked for first, and
    /// `act_champion_in` goes on from its answer.
    pub fn act_champion(&self, champion_id: i64, completed: bool, action_id: Option<i64>) -> (r:
        Request)
        ensures
            r@ == match action_id {
                Some(id) => act_request(id as int, champion_id as int, completed),
                None => bare_request(Method::Get, "/lol-champ-select/v1/session"@),
            },
    {
        match action_id {
            Some(id) => action_request(id, champion_id, completed),
            None => self.get_champ_select_session(),
        }
    }

    /// Hovers or locks a champion with the player's own unfinished pick.
    pub fn act_champion_in(
        answer: Result<Json, LcuApiError>,
        champion_id: i64,
        completed: bool,
    ) -> (r: Result<Request, LcuApiError>)
        ensures
            request_result(r) == act_after_session(
                json_result(answer),
                champion_id as int,
                completed,
            ),
    {
        match answer {
            Ok(session) => match Self::find_local_action_static(&session, "pick", true) {
                Some(action) => match action.get_i64("id") {
                    Some(id) => Ok(action_request(id, champion_id, completed)),
                    None => Err(LcuApiError::Other("action 缺少 id 字段".to_owned())),
                },
                None => Err(LcuApiError::Other("当前没有可用的 pick 行动".to_owned())),
            },
            Err(e) => Err(e),
        }
    }

    /// Hovers a champion.
    pub fn hover_champion(&self, champion_id: i64, action_id: Option<i64>) -> (r: Request)
        ensures
            r@ == match action_id {
                Some(id) => act_request(id as int, champion_id as int, false),
                None => bare_request(Method::Get, "/lol-champ-select/v1/session"@),
            },
    {
        self.act_champion(champion_id, false, action_id)
    }

    /// Locks a champion.
    pub fn lock_champion(&self, champion_id: i64, action_id: Option<i64>) -> (r: Request)
        ensures
            r@ == match action_id {
                Some(id) => act_request(id as int, champion_id as int, true),
                None => bare_request(Method::Get, "/lol-champ-select/v1/session"@),
            },
    {
        self.act_champion(champion_id, true, action_id)
    }

    /// Trades the player's champion for another random one.
    pub fn reroll_aram(&self) -> (r: Request)
        ensures
            r@ == bare_request(Method::Post, "/lol-champ-select/v1/session/my-selection/reroll"@),
    {
        self.post_json("/lol-champ-select/v1/session/my-selection/reroll", None)
    }

    /// Trades the player's champion for one on the bench.
    pub fn swap_bench_champion(&self, champion_id: i64) -> (r: Request)
        ensures
            r@ == bare_request(
                Method::Post,
                "/lol-champ-select/v1/session/bench/swap/"@ + decimal_int(champion_id as int),
            ),
    {
        let endpoint = concat(
            "/lol-champ-select/v1/session/bench/swap/",
            i64_text(champion_id).as_str(),
        );
        self.post_json(endpoint.as_str(), None)
    }
}

} // verus!
