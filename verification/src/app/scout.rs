//! Looking at the players of a game: their premade groups, and a rating for each of them.

use crate::app::event::{AppEvent, AppEventView};
use crate::app::histories::Histories;
use crate::app::premade::{
    analyze_premade, are_groups, extract_teams_from_gameflow_session, format_premade_message,
    game_teams, premade_text, team_view, TeamPremadeView, TeamView,
};
use crate::app::prophet::{get_grade_name, grade_of};
use crate::json::{Json, JsonView};
use crate::text::concat;
use std::collections::HashMap;
use vstd::prelude::*;

verus! {

/// From how many common games on two players are taken to play together.
pub const PREMADE_THRESHOLD: usize = 2;

/// How many games of each player are looked at for premade groups.
pub const PREMADE_GAMES: usize = 20;

/// How many games of each player are looked at for a rating.
pub const RATING_GAMES: usize = 8;

/// A player to be rated.
#[derive(Debug)]
pub struct ScoutJob {
    pub puuid: String,
    pub name: String,
    pub is_enemy: bool,
}

/// What a `ScoutJob` holds.
pub struct ScoutJobView {
    pub puuid: Seq<char>,
    pub name: Seq<char>,
    pub is_enemy: bool,
}

impl View for ScoutJob {
    type V = ScoutJobView;

    open spec fn view(&self) -> ScoutJobView {
        ScoutJobView { puuid: self.puuid@, name: self.name@, is_enemy: self.is_enemy }
    }
}

/// The views of some players to be rated.
pub open spec fn job_views(s: Seq<ScoutJob>) -> Seq<ScoutJobView> {
    Seq::new(s.len(), |i: int| s[i]@)
}

/// The players of a team as players to be rated.
pub open spec fn team_jobs(team: TeamView, is_enemy: bool) -> Seq<ScoutJobView> {
    Seq::new(
        team.len(),
        |i: int| ScoutJobView { puuid: team[i].0, name: team[i].1, is_enemy },
    )
}

/// The players of both teams as players to be rated: the player's own team first.
pub open spec fn jobs_of(mine: TeamView, theirs: TeamView) -> Seq<ScoutJobView> {
    team_jobs(mine, false) + team_jobs(theirs, true)
}

/// A rating, as the overlay shows it: the score without its fraction, and the score, the
/// ratio of kills and assists to deaths, and the share of games won in words.
pub struct RatingText {
    pub whole_score: i64,
    pub score: String,
    pub kda: String,
    pub win_rate: String,
}

/// The line for a player who was rated.
pub open spec fn rated_line(
    whole_score: int,
    name: Seq<char>,
    score: Seq<char>,
    kda: Seq<char>,
    win_rate: Seq<char>,
) -> Seq<char> {
    grade_of(whole_score) + " "@ + name + " 评分:"@ + score + " KDA:"@ + kda + " 胜率:"@ + win_rate
        + "%"@
}

/// The line for a player who could not be rated.
pub open spec fn unrated_line(name: Seq<char>) -> Seq<char> {
    "-- "@ + name + " 评分:获取失败"@
}

/// The line for a player.
pub open spec fn player_line(name: Seq<char>, rating: Option<RatingText>) -> Seq<char> {
    match rating {
        Some(r) => rated_line(r.whole_score as int, name, r.score@, r.kda@, r.win_rate@),
        None => unrated_line(name),
    }
}

/// What the main loop is told of a player.
pub open spec fn result_of(job: ScoutJobView, rating: Option<RatingText>) -> AppEventView {
    AppEventView::ScoutResult {
        puuid: job.puuid,
        content: player_line(job.name, rating),
        is_premade: false,
        is_enemy: job.is_enemy,
    }
}

/// Looking at the players.
pub struct ScoutService {}

impl ScoutService {
    pub fn new() -> (r: Self)
        ensures
            r == (ScoutService {  }),
    {
        ScoutService {  }
    }

    /// The players to be rated: the player's own team first.
    pub fn execute_full_scout(
        &self,
        my_team: &Vec<(String, String)>,
        their_team: &Vec<(String, String)>,
    ) -> (r: Vec<ScoutJob>)
        ensures
            job_views(r@) == jobs_of(team_view(my_team@), team_view(their_team@)),
    {
        let mut r: Vec<ScoutJob> = Vec::new();
        assert(job_views(r@) =~= Seq::empty());
        push_jobs(&mut r, my_team, false);
        push_jobs(&mut r, their_team, true);
        assert(job_views(r@) =~= team_jobs(team_view(my_team@), false) + team_jobs(
            team_view(their_team@),
            true,
        ));
        r
    }

    /// What the main loop is told of the premade groups, unless looking was cancelled.
    pub fn premade_result(
        &self,
        my_team: &Vec<(String, String)>,
        their_team: &Vec<(String, String)>,
        histories: &Histories,
        my_side: Option<u32>,
        their_side: Option<u32>,
        cancelled: bool,
    ) -> (r: Option<AppEvent>)
        ensures
            r is None <==> cancelled,
            r matches Some(e) ==> exists|mine: TeamPremadeView, theirs: TeamPremadeView|
                #![trigger premade_text(mine, theirs, my_side, their_side)]
                {
                    &&& mine.team_name == "我方"@
                    &&& theirs.team_name == "对方"@
                    &&& exists|sets: Seq<Set<int>>|
                        are_groups(
                            team_view(my_team@),
                            histories@,
                            PREMADE_THRESHOLD as nat,
                            mine.groups,
                            sets,
                        )
                    &&& exists|sets: Seq<Set<int>>|
                        are_groups(
                            team_view(their_team@),
                            histories@,
                            PREMADE_THRESHOLD as nat,
                            theirs.groups,
                            sets,
                        )
                    &&& e@ == (AppEventView::ScoutResult {
                        puuid: "TEAM_PREMADE"@,
                        content: premade_text(mine, theirs, my_side, their_side),
                        is_premade: true,
                        is_enemy: false,
                    })
                },
    {
        let (mine, theirs) = analyze_premade(my_team, their_team, histories, PREMADE_THRESHOLD);
        if cancelled {
            return None;
        }
        let content = format_premade_message(&mine, &theirs, my_side, their_side);
        assert(content@ == premade_text(mine@, theirs@, my_side, their_side));
        Some(
            AppEvent::ScoutResult {
                puuid: "TEAM_PREMADE".to_owned(),
                content,
                is_premade: true,
                is_enemy: false,
            },
        )
    }

    /// What the main loop is told of a player, unless looking was cancelled.
    pub fn player_result(&self, job: &ScoutJob, rating: &Option<RatingText>, cancelled: bool) -> (r:
        Option<AppEvent>)
        ensures
            r is None <==> cancelled,
            r matches Some(e) ==> e@ == result_of(job@, *rating),
    {
        if cancelled {
            return None;
        }
        Some(
            AppEvent::ScoutResult {
                puuid: job.puuid.clone(),
                content: scout_player(job.name.as_str(), rating),
                is_premade: false,
                is_enemy: job.is_enemy,
            },
        )
    }
}

fn push_jobs(jobs: &mut Vec<ScoutJob>, team: &Vec<(String, String)>, is_enemy: bool)
    ensures
        job_views(final(jobs)@) == job_views(old(jobs)@) + team_jobs(team_view(team@), is_enemy),
{
    let ghost before = job_views(jobs@);
    let ghost all = team_jobs(team_view(team@), is_enemy);
    let mut i: usize = 0;
    assert(before + all.subrange(0, 0) =~= before);
    while i < team.len()
        invariant
            i <= team@.len(),
            all == team_jobs(team_view(team@), is_enemy),
            job_views(jobs@) == before + all.subrange(0, i as int),
        decreases team@.len() - i,
    {
        let ghost so_far = job_views(jobs@);
        jobs.push(ScoutJob { puuid: team[i].0.clone(), name: team[i].1.clone(), is_enemy });
        proof {
            assert(job_views(jobs@) =~= so_far.push(all[i as int]));
            assert(before + all.subrange(0, i + 1) =~= so_far.push(all[i as int]));
        }
        i += 1;
    }
    assert(all.subrange(0, team@.len() as int) =~= all);
}

/// The line for a player.
pub fn scout_player(name: &str, rating: &Option<RatingText>) -> (r: String)
    ensures
        r@ == player_line(name@, *rating),
{
    match rating {
        Some(t) => {
            let mut r = concat(get_grade_name(t.whole_score), " ");
            r.append(name);
            r.append(" 评分:");
            r.append(t.score.as_str());
            r.append(" KDA:");
            r.append(t.kda.as_str());
            r.append(" 胜率:");
            r.append(t.win_rate.as_str());
            r.append("%");
            r
        },
        None => {
            let mut r = concat("-- ", name);
            r.append(" 评分:获取失败");
            r
        },
    }
}

/// The identifier of the player in the client's answer on who they are; an empty one
/// where there is none.
pub open spec fn own_puuid(me: JsonView) -> Seq<char> {
    match me.text_field("puuid"@) {
        Some(p) => p,
        None => ""@,
    }
}

/// The teams of a running game, where the player's own team has anybody in it.
pub fn ingame_teams(session: &Json, me: &Json, names: &HashMap<i64, String>) -> (r: Option<
    (Vec<(String, String)>, Vec<(String, String)>, u32, u32),
>)
    ensures
        ({
            let teams = game_teams(session@, own_puuid(me@), names@);
            match r {
                Some(t) => teams.0.len() > 0 && (team_view(t.0@), team_view(t.1@), t.2, t.3)
                    == teams,
                None => teams.0.len() == 0,
            }
        }),
{
    let puuid = match me.get_str("puuid") {
        Some(p) => p,
        None => "",
    };
    let (mine, theirs, my_side, their_side) = extract_teams_from_gameflow_session(
        session,
        puuid,
        names,
    );
    assert(team_view(mine@).len() == mine@.len());
    if mine.len() == 0 {
        return None;
    }
    match (my_side, their_side) {
        (Some(a), Some(b)) => Some((mine, theirs, a, b)),
        _ => None,
    }
}

} // verus!
