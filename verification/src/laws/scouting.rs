//! Who is rated, and when the interface of the client is reloaded.

use crate::app::config::AppConfig;
use crate::app::event::AppEventView;
use crate::app::premade::TeamView;
use crate::app::prophet::grade_of;
use crate::app::scout::{
    jobs_of, own_puuid, result_of, PREMADE_GAMES, PREMADE_THRESHOLD, RATING_GAMES, RatingText,
    ScoutJobView,
};
use crate::app::tasks::{check_due, reload_due, MEMORY_CHECK_SECS};
use crate::json::JsonView;
use crate::lcu::api::ErrorView;
use vstd::prelude::*;

verus! {

/// Everybody of both teams is rated, the player's own team first and in its order; those of
/// the other team count as enemies and nobody else does.
pub proof fn law_everybody_is_rated(mine: TeamView, theirs: TeamView, i: int)
    ensures
        ({
            let jobs = jobs_of(mine, theirs);
            &&& jobs.len() == mine.len() + theirs.len()
            &&& 0 <= i < mine.len() ==> jobs[i].puuid == mine[i].0 && jobs[i].name == mine[i].1
                && !jobs[i].is_enemy
            &&& 0 <= i < theirs.len() ==> jobs[mine.len() + i].puuid == theirs[i].0
                && jobs[mine.len() + i].name == theirs[i].1 && jobs[mine.len() + i].is_enemy
        }),
        PREMADE_THRESHOLD == 2,
        PREMADE_GAMES == 20,
        RATING_GAMES == 8,
{
}

/// A result for a player names the player, has their line, and says which team they are in;
/// a line without a rating says that it could not be had.
pub proof fn law_result_is_the_players(job: ScoutJobView, rating: Option<RatingText>)
    ensures
        ({
            let e = result_of(job, rating);
            &&& e matches AppEventView::ScoutResult { puuid, content, is_premade, is_enemy }
            &&& puuid == job.puuid
            &&& is_enemy == job.is_enemy
            &&& !is_premade
            &&& rating is None ==> content == "-- "@ + job.name + " 评分:获取失败"@
            &&& rating matches Some(r) ==> content == grade_of(r.whole_score as int) + " "@
                + job.name + " 评分:"@ + r.score@ + " KDA:"@ + r.kda@ + " 胜率:"@ + r.win_rate@
                + "%"@
        }),
{
}

/// The player is known by the identifier in the client's answer.
pub proof fn law_own_identifier(me: JsonView, puuid: Seq<char>)
    ensures
        me.field("puuid"@) == Some(JsonView::Str(puuid)) ==> own_puuid(me) == puuid,
        me.field("puuid"@) is None ==> own_puuid(me) == ""@,
{
}

/// The client's memory is looked at where the user wants it, half an hour after the last
/// reload at the earliest; its interface is reloaded outside champion select and the game
/// where it takes at least as much as the user allows.
pub proof fn law_when_the_interface_is_reloaded(
    config: AppConfig,
    secs: u64,
    phase: Seq<char>,
    memory_mb: u64,
    threshold_mb: u64,
    e: ErrorView,
)
    ensures
        check_due(config, None) == config.memory_monitor,
        check_due(config, Some(secs)) == (config.memory_monitor && secs >= 1800),
        reload_due(Ok(phase), memory_mb, threshold_mb) <==> (phase == "None"@ || phase == "Lobby"@
            || phase == "Matchmaking"@ || phase == "EndOfGame"@ || phase == ""@) && memory_mb != 0
            && memory_mb >= threshold_mb,
        !reload_due(Err(e), memory_mb, threshold_mb),
        MEMORY_CHECK_SECS == 300,
{
}

/// More memory never stops a reload, and a higher limit never brings one about.
pub proof fn law_more_memory_more_reloads(
    phase: Seq<char>,
    memory_mb: u64,
    more_mb: u64,
    threshold_mb: u64,
    lower_mb: u64,
)
    requires
        memory_mb <= more_mb,
        lower_mb <= threshold_mb,
        reload_due(Ok(phase), memory_mb, threshold_mb),
    ensures
        reload_due(Ok(phase), more_mb, lower_mb),
{
}

} // verus!
