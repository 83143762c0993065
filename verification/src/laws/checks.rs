//! When a match is accepted, and when a vote is skipped.

use crate::app::config::AppConfig;
use crate::app::handlers::honor::{
    after_attempt, after_click, ballot_game, clicks_on, to_be_skipped, HonorState,
};
use crate::app::handlers::ready_check::{
    after_look, confirmed, on_check, still_pending, PendingAccept, ReadyCheckState,
};
use crate::json::JsonView;
use crate::lcu::api::{ErrorView, LcuApiError};
use vstd::prelude::*;

verus! {

/// The event carries a check in the given state.
pub open spec fn reports(event: JsonView, state: Seq<char>) -> bool {
    event.field("data"@) matches Some(data) && data.field("state"@) == Some(JsonView::Str(state))
}

/// The event says how the player answered the check.
pub open spec fn reports_answer(event: JsonView, answer: Seq<char>) -> bool {
    event.field("data"@) matches Some(data) && data.field("playerResponse"@) == Some(
        JsonView::Str(answer),
    )
}

/// A check in progress that the player has not answered has the match accepted after the
/// delay of the options, where matches are to be accepted and none is going to be.
pub proof fn law_check_in_progress_is_accepted(
    s: ReadyCheckState,
    config: AppConfig,
    event: JsonView,
)
    requires
        reports(event, "InProgress"@),
        forall|answer: Seq<char>| reports_answer(event, answer) ==> answer == "None"@,
    ensures
        on_check(s, config, event).1 is Some <==> config.auto_accept_enabled && !s.pending_accept,
        on_check(s, config, event).1 matches Some(p) ==> p.delay_secs
            == config.auto_accept_delay_secs && p.generation == s.generation && p.event_id
            == event.field("data"@)->0.integer_field("id"@) && still_pending(
            on_check(s, config, event).0,
            p,
        ),
        on_check(s, config, event).1 is None ==> on_check(s, config, event).0 == s,
        on_check(s, config, event).0.generation == s.generation,
{
    let data = event.field("data"@)->0;
    if data.text_field("playerResponse"@) is Some {
        assert(reports_answer(event, data.text_field("playerResponse"@)->0));
    }
}

/// A check in another state, or one that the player has answered, is over: no match is
/// accepted on its account, and one that was going to be no longer is.
pub proof fn law_finished_check_is_not_accepted(
    s: ReadyCheckState,
    config: AppConfig,
    event: JsonView,
    state: Seq<char>,
    answer: Seq<char>,
    p: PendingAccept,
)
    requires
        (reports(event, state) && state != "InProgress"@) || (reports_answer(event, answer)
            && answer != "None"@),
    ensures
        on_check(s, config, event).1 is None,
        !still_pending(on_check(s, config, event).0, p),
{
}

/// After the wait the match is accepted only where the client says that a check is in
/// progress, and that it is the one that was waited for, where both have a number.
pub proof fn law_only_the_same_check_is_accepted(
    p: PendingAccept,
    session: JsonView,
    e: ErrorView,
    state: Seq<char>,
)
    requires
        session.field("state"@) == Some(JsonView::Str(state)),
    ensures
        state != "InProgress"@ ==> !confirmed(p, Ok(session)),
        state == "InProgress"@ ==> (confirmed(p, Ok(session)) <==> (p.event_id is None
            || session.integer_field("id"@) is None || p.event_id == session.integer_field("id"@))),
        !confirmed(p, Err(e)),
{
}

/// A ballot has its vote skipped where the user wants it, unless it is for the game whose
/// vote was skipped last; a ballot that names no game is always skipped.
pub proof fn law_when_a_ballot_is_skipped(
    s: HonorState,
    config: AppConfig,
    event: JsonView,
    data: JsonView,
)
    requires
        event.field("data"@) == Some(data),
        data is Object,
    ensures
        ballot_game(event) == data.integer_field("gameId"@),
        !config.auto_honor_skip ==> !to_be_skipped(s, config, event),
        config.auto_honor_skip && data.integer_field("gameId"@) is None ==> to_be_skipped(
            s,
            config,
            event,
        ),
        config.auto_honor_skip && data.integer_field("gameId"@) is Some ==> (to_be_skipped(
            s,
            config,
            event,
        ) <==> s.last_skipped_honor_game_id != data.integer_field("gameId"@)),
{
}

/// A vote that was skipped is remembered with its game, so that the next ballot for that game
/// is left alone and one for another game is not; one that was not skipped is not remembered,
/// and is skipped again. The last screen is clicked away only where a vote was skipped.
pub proof fn law_skipped_votes_are_remembered(
    s: HonorState,
    config: AppConfig,
    id: i64,
    skipped: Result<bool, LcuApiError>,
    event: JsonView,
    next: i64,
)
    requires
        config.auto_honor_skip,
        event.field("data"@) matches Some(data) && data is Object && data.integer_field("gameId"@)
            == Some(next),
    ensures
        skipped == Ok::<bool, LcuApiError>(true) ==> (to_be_skipped(
            after_attempt(s, Some(id), skipped).0,
            config,
            event,
        ) <==> next != id),
        skipped == Ok::<bool, LcuApiError>(true) <==> after_attempt(s, Some(id), skipped).1,
        skipped != Ok::<bool, LcuApiError>(true) ==> after_attempt(s, Some(id), skipped).0 == s,
        after_attempt(s, Some(id), skipped).0.last_post_honor_continue_game_id
            == s.last_post_honor_continue_game_id,
{
}

/// The last screen is clicked away after a game and in no other phase, and is remembered
/// with its game where that was done.
pub proof fn law_last_screen_belongs_to_a_game(
    s: HonorState,
    phase: String,
    e: LcuApiError,
    game: Option<i64>,
)
    ensures
        clicks_on(Ok(phase)) <==> phase@ == "EndOfGame"@,
        !clicks_on(Err(e)),
        after_click(s, game, true).last_post_honor_continue_game_id == game,
        after_click(s, game, true).last_skipped_honor_game_id == s.last_skipped_honor_game_id,
        after_click(s, game, false) == s,
{
}

/// A match that was found not to be in progress is given up, so that nothing is accepted for
/// it later and the next check begins anew; one that was accepted is not begun again.
pub proof fn law_unconfirmed_match_is_given_up(
    s: ReadyCheckState,
    p: PendingAccept,
    config: AppConfig,
    event: JsonView,
)
    requires
        reports(event, "InProgress"@),
        forall|answer: Seq<char>| reports_answer(event, answer) ==> answer == "None"@,
        config.auto_accept_enabled,
    ensures
        !still_pending(after_look(s, false), p),
        on_check(after_look(s, false), config, event).1 is Some,
        s.pending_accept ==> on_check(after_look(s, true), config, event).1 is None,
        still_pending(after_look(s, true), p) == still_pending(s, p),
        after_look(s, false).generation == s.generation,
{
    law_check_in_progress_is_accepted(after_look(s, false), config, event);
    law_check_in_progress_is_accepted(after_look(s, true), config, event);
}

} // verus!
