//! Ratings of players: which games and which figures a rating is made of, and the grade
//! for a rating.
//!
//! A rating is computed in floating-point numbers from the figures that are found here.

use crate::json::{array_view, json_eq, lemma_array_step, lemma_array_view, Json, JsonView, Number};
use crate::text::str_eq;
use vstd::prelude::*;

verus! {

/// The grade for a rating, given without its fraction.
pub open spec fn grade_of(score: int) -> Seq<char> {
    if score >= 35 {
        "通天代"@
    } else if score >= 31 {
        "小代"@
    } else if score >= 27 {
        "上等马"@
    } else if score >= 23 {
        "中等马"@
    } else if score >= 19 {
        "下等马"@
    } else if score >= 15 {
        "纯牛马"@
    } else {
        "没有马"@
    }
}

/// The grade for a rating, given without its fraction: the limits are whole numbers, so
/// the fraction decides nothing.
pub fn get_grade_name(score: i64) -> (r: &'static str)
    ensures
        r@ == grade_of(score as int),
{
    if score >= 35 {
        "通天代"
    } else if score >= 31 {
        "小代"
    } else if score >= 27 {
        "上等马"
    } else if score >= 23 {
        "中等马"
    } else if score >= 19 {
        "下等马"
    } else if score >= 15 {
        "纯牛马"
    } else {
        "没有马"
    }
}

/// The figures of the player in a game. A figure that is missing or no number is left out.
#[derive(Clone, Copy, Debug, PartialEq, Eq, Structural)]
pub struct OwnStats {
    pub kills: Option<Number>,
    pub deaths: Option<Number>,
    pub assists: Option<Number>,
    pub win: bool,
    pub damage: Option<Number>,
    pub damage_taken: Option<Number>,
    pub gold: Option<Number>,
    pub minions: Option<Number>,
    pub neutral_minions: Option<Number>,
}

/// The figures of a member of the player's team in a game.
#[derive(Clone, Copy, Debug, PartialEq, Eq, Structural)]
pub struct TeamStats {
    pub damage: Option<Number>,
    pub damage_taken: Option<Number>,
    pub gold: Option<Number>,
    pub kills: Option<Number>,
}

/// What a rating takes from a game.
#[derive(Debug)]
pub struct GameStats {
    pub duration: Option<Number>,
    pub own: OwnStats,
    pub team: Vec<TeamStats>,
}

/// What `GameStats` hold.
pub struct GameStatsView {
    pub duration: Option<Number>,
    pub own: OwnStats,
    pub team: Seq<TeamStats>,
}

impl View for GameStats {
    type V = GameStatsView;

    open spec fn view(&self) -> GameStatsView {
        GameStatsView { duration: self.duration, own: self.own, team: self.team@ }
    }
}

/// The views of some games.
pub open spec fn stats_views(s: Seq<GameStats>) -> Seq<GameStatsView> {
    Seq::new(s.len(), |i: int| s[i]@)
}

/// The player's figures in their entry of a game.
pub open spec fn own_stats(stats: JsonView) -> OwnStats {
    OwnStats {
        kills: stats.number_field("kills"@),
        deaths: stats.number_field("deaths"@),
        assists: stats.number_field("assists"@),
        win: stats.truth_field("win"@) == Some(true),
        damage: stats.number_field("totalDamageDealtToChampions"@),
        damage_taken: stats.number_field("totalDamageTaken"@),
        gold: stats.number_field("goldEarned"@),
        minions: stats.number_field("totalMinionsKilled"@),
        neutral_minions: stats.number_field("neutralMinionsKilled"@),
    }
}

/// The figures of a member of the team.
pub open spec fn team_stats(stats: JsonView) -> TeamStats {
    TeamStats {
        damage: stats.number_field("totalDamageDealtToChampions"@),
        damage_taken: stats.number_field("totalDamageTaken"@),
        gold: stats.number_field("goldEarned"@),
        kills: stats.number_field("kills"@),
    }
}

/// An entry for the identity of a participant is that of a player.
pub open spec fn is_identity_of(identity: JsonView, puuid: Seq<char>) -> bool {
    identity.field("player"@) is Some && identity.field("player"@)->0.text_field("puuid"@) == Some(
        puuid,
    )
}

/// The first identity of a player.
pub open spec fn identity_of(identities: Seq<JsonView>, puuid: Seq<char>) -> Option<JsonView>
    decreases identities.len(),
{
    if identities.len() == 0 {
        None
    } else if is_identity_of(identities[0], puuid) {
        Some(identities[0])
    } else {
        identity_of(identities.drop_first(), puuid)
    }
}

/// The first participant with a number.
pub open spec fn participant_of(participants: Seq<JsonView>, id: i64) -> Option<JsonView>
    decreases participants.len(),
{
    if participants.len() == 0 {
        None
    } else if participants[0].integer_field("participantId"@) == Some(id) {
        Some(participants[0])
    } else {
        participant_of(participants.drop_first(), id)
    }
}

/// The figures of the members of a team; nothing where one of them has none.
pub open spec fn team_in(participants: Seq<JsonView>, team: JsonView) -> Option<Seq<TeamStats>>
    decreases participants.len(),
{
    if participants.len() == 0 {
        Some(Seq::empty())
    } else {
        let last = participants.last();
        match team_in(participants.drop_last(), team) {
            Some(rest) => if last.field("teamId"@) == Some(team) {
                match last.field("stats"@) {
                    Some(stats) => Some(rest.push(team_stats(stats))),
                    None => None,
                }
            } else {
                Some(rest)
            },
            None => None,
        }
    }
}

/// The participant's number of a player in a game.
pub open spec fn number_in_game(game: JsonView, puuid: Seq<char>) -> Option<i64> {
    match game.items_field("participantIdentities"@) {
        Some(identities) => match identity_of(identities, puuid) {
            Some(identity) => identity.integer_field("participantId"@),
            None => None,
        },
        None => None,
    }
}

/// What a rating takes from a game in which every participant is listed; nothing where
/// the player, their figures or their team cannot be found.
pub open spec fn game_in(game: JsonView, puuid: Seq<char>) -> Option<GameStatsView> {
    match (game.items_field("participants"@), number_in_game(game, puuid)) {
        (Some(participants), Some(id)) => match participant_of(participants, id) {
            Some(me) => match (me.field("stats"@), me.field("teamId"@)) {
                (Some(stats), Some(team)) => match team_in(participants, team) {
                    Some(members) => Some(
                        GameStatsView {
                            duration: game.number_field("gameDuration"@),
                            own: own_stats(stats),
                            team: members,
                        },
                    ),
                    None => None,
                },
                _ => None,
            },
            None => None,
        },
        _ => None,
    }
}

/// What a rating takes from some games; nothing where one of them gives nothing.
pub open spec fn games_stats(games: Seq<JsonView>, puuid: Seq<char>) -> Option<Seq<GameStatsView>>
    decreases games.len(),
{
    if games.len() == 0 {
        Some(Seq::empty())
    } else {
        match (games_stats(games.drop_last(), puuid), game_in(games.last(), puuid)) {
            (Some(rest), Some(game)) => Some(rest.push(game)),
            _ => None,
        }
    }
}

/// The figures of the first participant of a game, who is the player in a summary.
pub open spec fn summary_in(game: JsonView) -> Option<OwnStats> {
    match game.items_field("participants"@) {
        Some(participants) => if participants.len() > 0 {
            match participants[0].field("stats"@) {
                Some(stats) => Some(own_stats(stats)),
                None => None,
            }
        } else {
            None
        },
        None => None,
    }
}

/// The figures of the player in some summaries; nothing where one of them gives nothing.
pub open spec fn summaries_in(games: Seq<JsonView>) -> Option<Seq<OwnStats>>
    decreases games.len(),
{
    if games.len() == 0 {
        Some(Seq::empty())
    } else {
        match (summaries_in(games.drop_last()), summary_in(games.last())) {
            (Some(rest), Some(game)) => Some(rest.push(game)),
            _ => None,
        }
    }
}

/// What a rating is made of: full games, or summaries.
pub enum RatingBasis {
    Detailed(Vec<GameStats>),
    Summary(Vec<OwnStats>),
}

/// What a `RatingBasis` holds.
pub enum RatingBasisView {
    Detailed(Seq<GameStatsView>),
    Summary(Seq<OwnStats>),
}

impl View for RatingBasis {
    type V = RatingBasisView;

    open spec fn view(&self) -> RatingBasisView {
        match self {
            RatingBasis::Detailed(v) => RatingBasisView::Detailed(stats_views(v@)),
            RatingBasis::Summary(v) => RatingBasisView::Summary(v@),
        }
    }
}

/// What a player's rating is made of. Full games are used where the first game lists its
/// participants and all of them give the player's figures; summaries otherwise. Without
/// games there is no rating.
pub open spec fn basis_of(games: Seq<JsonView>, puuid: Seq<char>) -> Option<RatingBasisView> {
    if games.len() == 0 {
        None
    } else if games[0].field("participantIdentities"@) is Some && games_stats(games, puuid) is Some {
        Some(RatingBasisView::Detailed(games_stats(games, puuid)->0))
    } else {
        match summaries_in(games) {
            Some(s) => Some(RatingBasisView::Summary(s)),
            None => None,
        }
    }
}

fn read_own_stats(stats: &Json) -> (r: OwnStats)
    ensures
        r == own_stats(stats@),
{
    OwnStats {
        kills: stats.get_number("kills"),
        deaths: stats.get_number("deaths"),
        assists: stats.get_number("assists"),
        win: match stats.get_bool("win") {
            Some(win) => win,
            None => false,
        },
        damage: stats.get_number("totalDamageDealtToChampions"),
        damage_taken: stats.get_number("totalDamageTaken"),
        gold: stats.get_number("goldEarned"),
        minions: stats.get_number("totalMinionsKilled"),
        neutral_minions: stats.get_number("neutralMinionsKilled"),
    }
}

fn read_team_stats(stats: &Json) -> (r: TeamStats)
    ensures
        r == team_stats(stats@),
{
    TeamStats {
        damage: stats.get_number("totalDamageDealtToChampions"),
        damage_taken: stats.get_number("totalDamageTaken"),
        gold: stats.get_number("goldEarned"),
        kills: stats.get_number("kills"),
    }
}

fn find_number(game: &Json, puuid: &str) -> (r: Option<i64>)
    ensures
        r == number_in_game(game@, puuid@),
{
    match game.get_array("participantIdentities") {
        Some(identities) => {
            proof {
                lemma_array_view(identities@);
                assert(array_view(identities@).subrange(0, identities@.len() as int)
                    =~= array_view(identities@));
            }
            let mut i: usize = 0;
            while i < identities.len()
                invariant
                    i <= identities@.len(),
                    array_view(identities@).len() == identities@.len(),
                    forall|k: int|
                        0 <= k < identities@.len() ==> #[trigger] array_view(identities@)[k]
                            == identities@[k]@,
                    number_in_game(game@, puuid@) == match identity_of(
                        array_view(identities@).subrange(i as int, identities@.len() as int),
                        puuid@,
                    ) {
                        Some(identity) => identity.integer_field("participantId"@),
                        None => None,
                    },
                decreases identities@.len() - i,
            {
                proof {
                    let rest = array_view(identities@).subrange(i as int, identities@.len() as int);
                    assert(rest[0] == identities@[i as int]@);
                    assert(rest.drop_first() =~= array_view(identities@).subrange(
                        i + 1,
                        identities@.len() as int,
                    ));
                }
                let mine = match identities[i].get("player") {
                    Some(player) => match player.get_str("puuid") {
                        Some(p) => str_eq(p, puuid),
                        None => false,
                    },
                    None => false,
                };
                if mine {
                    return identities[i].get_i64("participantId");
                }
                i += 1;
            }
            None
        },
        None => None,
    }
}

fn find_participant(participants: &Vec<Json>, id: i64) -> (r: Option<&Json>)
    ensures
        crate::json::opt_view(r) == participant_of(array_view(participants@), id),
{
    proof {
        lemma_array_view(participants@);
        assert(array_view(participants@).subrange(0, participants@.len() as int) =~= array_view(
            participants@,
        ));
    }
    let mut i: usize = 0;
    while i < participants.len()
        invariant
            i <= participants@.len(),
            array_view(participants@).len() == participants@.len(),
            forall|k: int|
                0 <= k < participants@.len() ==> #[trigger] array_view(participants@)[k]
                    == participants@[k]@,
            participant_of(array_view(participants@), id) == participant_of(
                array_view(participants@).subrange(i as int, participants@.len() as int),
                id,
            ),
        decreases participants@.len() - i,
    {
        proof {
            let rest = array_view(participants@).subrange(i as int, participants@.len() as int);
            assert(rest[0] == participants@[i as int]@);
            assert(rest.drop_first() =~= array_view(participants@).subrange(
                i + 1,
                participants@.len() as int,
            ));
        }
        match participants[i].get_i64("participantId") {
            Some(n) => {
                if n == id {
                    return Some(&participants[i]);
                }
            },
            None => {},
        }
        i += 1;
    }
    None
}

/// A list that gives nothing up to some point gives nothing as a whole.
proof fn lemma_team_prefix(participants: Seq<JsonView>, team: JsonView, k: int)
    requires
        0 <= k <= participants.len(),
        team_in(participants.subrange(0, k), team) is None,
    ensures
        team_in(participants, team) is None,
    decreases participants.len() - k,
{
    if k == participants.len() {
        assert(participants.subrange(0, k) =~= participants);
    } else {
        assert(participants.subrange(0, k + 1).drop_last() =~= participants.subrange(0, k));
        lemma_team_prefix(participants, team, k + 1);
    }
}

fn read_team(participants: &Vec<Json>, team: &Json) -> (r: Option<Vec<TeamStats>>)
    ensures
        team_in(array_view(participants@), team@) == match r {
            Some(v) => Some(v@),
            None => None,
        },
{
    let mut r: Vec<TeamStats> = Vec::new();
    proof {
        lemma_array_view(participants@);
        assert(array_view(participants@).subrange(0, 0) =~= Seq::empty());
    }
    let mut i: usize = 0;
    while i < participants.len()
        invariant
            i <= participants@.len(),
            array_view(participants@).len() == participants@.len(),
            team_in(array_view(participants@).subrange(0, i as int), team@) == Some(r@),
        decreases participants@.len() - i,
    {
        proof {
            lemma_array_step(participants@, i as int);
        }
        let same = match participants[i].get("teamId") {
            Some(t) => json_eq(t, team),
            None => false,
        };
        if same {
            match participants[i].get("stats") {
                Some(stats) => {
                    r.push(read_team_stats(stats));
                },
                None => {
                    proof {
                        lemma_team_prefix(array_view(participants@), team@, i + 1);
                    }
                    return None;
                },
            }
        }
        i += 1;
    }
    assert(array_view(participants@).subrange(0, participants@.len() as int) =~= array_view(
        participants@,
    ));
    Some(r)
}

fn read_game(game: &Json, puuid: &str) -> (r: Option<GameStats>)
    ensures
        game_in(game@, puuid@) == match r {
            Some(g) => Some(g@),
            None => None,
        },
{
    match (game.get_array("participants"), find_number(game, puuid)) {
        (Some(participants), Some(id)) => match find_participant(participants, id) {
            Some(me) => match (me.get("stats"), me.get("teamId")) {
                (Some(stats), Some(team)) => match read_team(participants, team) {
                    Some(members) => Some(
                        GameStats {
                            duration: game.get_number("gameDuration"),
                            own: read_own_stats(stats),
                            team: members,
                        },
                    ),
                    None => None,
                },
                _ => None,
            },
            None => None,
        },
        _ => None,
    }
}

proof fn lemma_games_prefix(games: Seq<JsonView>, puuid: Seq<char>, k: int)
    requires
        0 <= k <= games.len(),
        games_stats(games.subrange(0, k), puuid) is None,
    ensures
        games_stats(games, puuid) is None,
    decreases games.len() - k,
{
    if k == games.len() {
        assert(games.subrange(0, k) =~= games);
    } else {
        assert(games.subrange(0, k + 1).drop_last() =~= games.subrange(0, k));
        lemma_games_prefix(games, puuid, k + 1);
    }
}

/// The figures that a rating takes from full games. Without games there is nothing to
/// rate.
pub fn akari_stats(self_puuid: &str, matches: &Vec<Json>) -> (r: Option<Vec<GameStats>>)
    ensures
        match r {
            Some(v) => Some(stats_views(v@)),
            None => None,
        } == if matches@.len() == 0 {
            None
        } else {
            games_stats(array_view(matches@), self_puuid@)
        },
{
    if matches.len() == 0 {
        return None;
    }
    let mut r: Vec<GameStats> = Vec::new();
    proof {
        lemma_array_view(matches@);
        assert(array_view(matches@).subrange(0, 0) =~= Seq::empty());
        assert(stats_views(r@) =~= Seq::empty());
    }
    let mut i: usize = 0;
    while i < matches.len()
        invariant
            i <= matches@.len(),
            matches@.len() > 0,
            array_view(matches@).len() == matches@.len(),
            games_stats(array_view(matches@).subrange(0, i as int), self_puuid@) == Some(
                stats_views(r@),
            ),
        decreases matches@.len() - i,
    {
        proof {
            lemma_array_step(matches@, i as int);
        }
        match read_game(&matches[i], self_puuid) {
            Some(g) => {
                let ghost before = stats_views(r@);
                r.push(g);
                assert(stats_views(r@) =~= before.push(g@));
            },
            None => {
                proof {
                    lemma_games_prefix(array_view(matches@), self_puuid@, i + 1);
                }
                return None;
            },
        }
        i += 1;
    }
    assert(array_view(matches@).subrange(0, matches@.len() as int) =~= array_view(matches@));
    Some(r)
}

proof fn lemma_summaries_prefix(games: Seq<JsonView>, k: int)
    requires
        0 <= k <= games.len(),
        summaries_in(games.subrange(0, k)) is None,
    ensures
        summaries_in(games) is None,
    decreases games.len() - k,
{
    if k == games.len() {
        assert(games.subrange(0, k) =~= games);
    } else {
        assert(games.subrange(0, k + 1).drop_last() =~= games.subrange(0, k));
        lemma_summaries_prefix(games, k + 1);
    }
}

fn read_summary(game: &Json) -> (r: Option<OwnStats>)
    ensures
        r == summary_in(game@),
{
    match game.get_array("participants") {
        Some(participants) => {
            proof {
                lemma_array_view(participants@);
            }
            if participants.len() > 0 {
                match participants[0].get("stats") {
                    Some(stats) => Some(read_own_stats(stats)),
                    None => None,
                }
            } else {
                None
            }
        },
        None => None,
    }
}

fn read_summaries(matches: &Vec<Json>) -> (r: Option<Vec<OwnStats>>)
    ensures
        summaries_in(array_view(matches@)) == match r {
            Some(v) => Some(v@),
            None => None,
        },
{
    let mut r: Vec<OwnStats> = Vec::new();
    proof {
        lemma_array_view(matches@);
        assert(array_view(matches@).subrange(0, 0) =~= Seq::empty());
    }
    let mut i: usize = 0;
    while i < matches.len()
        invariant
            i <= matches@.len(),
            array_view(matches@).len() == matches@.len(),
            summaries_in(array_view(matches@).subrange(0, i as int)) == Some(r@),
        decreases matches@.len() - i,
    {
        proof {
            lemma_array_step(matches@, i as int);
        }
        match read_summary(&matches[i]) {
            Some(g) => {
                r.push(g);
            },
            None => {
                proof {
                    lemma_summaries_prefix(array_view(matches@), i + 1);
                }
                return None;
            },
        }
        i += 1;
    }
    assert(array_view(matches@).subrange(0, matches@.len() as int) =~= array_view(matches@));
    Some(r)
}

/// What a player's rating is made of.
pub fn rating_basis(puuid: &str, matches: &Vec<Json>) -> (r: Option<RatingBasis>)
    ensures
        basis_of(array_view(matches@), puuid@) == match r {
            Some(b) => Some(b@),
            None => None,
        },
{
    proof {
        lemma_array_view(matches@);
    }
    if matches.len() == 0 {
        return None;
    }
    if matches[0].get("participantIdentities").is_some() {
        match akari_stats(puuid, matches) {
            Some(games) => {
                return Some(RatingBasis::Detailed(games));
            },
            None => {},
        }
    }
    match read_summaries(matches) {
        Some(games) => Some(RatingBasis::Summary(games)),
        None => None,
    }
}

proof fn lemma_games_stats_len(games: Seq<JsonView>, puuid: Seq<char>)
    requires
        games_stats(games, puuid) is Some,
    ensures
        games_stats(games, puuid)->0.len() == games.len(),
    decreases games.len(),
{
    if games.len() > 0 {
        lemma_games_stats_len(games.drop_last(), puuid);
    }
}

proof fn lemma_summaries_len(games: Seq<JsonView>)
    requires
        summaries_in(games) is Some,
    ensures
        summaries_in(games)->0.len() == games.len(),
    decreases games.len(),
{
    if games.len() > 0 {
        lemma_summaries_len(games.drop_last());
    }
}

/// A rating takes every game into account, and is never made of no games.
pub proof fn law_rating_uses_every_game(games: Seq<JsonView>, puuid: Seq<char>)
    requires
        basis_of(games, puuid) is Some,
    ensures
        games.len() > 0,
        match basis_of(games, puuid)->0 {
            RatingBasisView::Detailed(s) => s.len() == games.len(),
            RatingBasisView::Summary(s) => s.len() == games.len(),
        },
{
    if games_stats(games, puuid) is Some {
        lemma_games_stats_len(games, puuid);
    }
    if summaries_in(games) is Some {
        lemma_summaries_len(games);
    }
}

} // verus!
