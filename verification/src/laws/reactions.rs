//! What the overlay does about phases and sessions, and what the board shows.

use crate::app::config::AppConfig;
use crate::app::dispatcher::{address, Route};
use crate::app::handlers::board::{board_text, ColumnView};
use crate::app::handlers::champ_select::{on_champ_select, SELECT_THRESHOLD};
use crate::app::handlers::gameflow::{
    on_gameflow, phase_of, status_text, INGAME_HIDE_SECS, INGAME_THRESHOLD,
};
use crate::app::handlers::utils::OverlayCmdView;
use crate::app::premade::{select_side, select_team};
use crate::app::state::RuntimeView;
use crate::json::JsonView;
use crate::lcu::api::champ_select::bench_in;
use crate::text::joined;
use vstd::prelude::*;

verus! {

/// A session shows the overlay, and the bench layer where the session has a bench or it is
/// forced; the bench is taken over whatever else happens.
pub proof fn law_session_shows_the_bench(
    s: RuntimeView,
    config: AppConfig,
    forced: bool,
    event: JsonView,
    session: JsonView,
)
    requires
        event.field("data"@) == Some(session),
        session is Object,
    ensures
        ({
            let (after, commands, teams) = on_champ_select(s, config, forced, event);
            let has_bench = session.field("benchEnabled"@) == Some(JsonView::Bool(true));
            &&& commands.len() == 2
            &&& commands[0] == OverlayCmdView::Show
            &&& commands[1] == OverlayCmdView::ShowBench(forced || has_bench)
            &&& after.bench == bench_in(session)
            &&& after.ingame_done == s.ingame_done
            &&& after.pick_slot == s.pick_slot
            &&& teams is Some <==> !s.analysis_done && config.premade_champ_select
            &&& teams matches Some(t) ==> after.analysis_done && t.mine == select_team(
                session,
                "myTeam"@,
            ) && t.theirs == select_team(session, "theirTeam"@) && t.my_side == select_side(
                session,
                "myTeam"@,
            ) && t.their_side == select_side(session, "theirTeam"@)
            &&& teams is None ==> after.analysis_done == s.analysis_done
        }),
        SELECT_THRESHOLD == 3,
{
}

/// An event without a session changes nothing and does nothing.
pub proof fn law_no_session_no_reaction(
    s: RuntimeView,
    config: AppConfig,
    forced: bool,
    event: JsonView,
)
    requires
        event.field("data"@) is None,
    ensures
        on_champ_select(s, config, forced, event).0 == s,
        on_champ_select(s, config, forced, event).1.len() == 0,
        on_champ_select(s, config, forced, event).2 is None,
{
}

/// A change of phase shows the overlay, or hides it where there is no phase and it is not
/// forced; then it fixes the client's window where the game is picked for, loaded or played,
/// and clears the overlay otherwise.
pub proof fn law_overlay_follows_the_phase(
    s: RuntimeView,
    config: AppConfig,
    forced: bool,
    event: JsonView,
    phase: Seq<char>,
)
    requires
        event.field("data"@) == Some(JsonView::Str(phase)),
    ensures
        ({
            let (after, r) = on_gameflow(s, config, forced, event);
            let playing = phase == "InProgress"@ || phase == "GameStart"@;
            let busy_now = playing || phase == "ChampSelect"@;
            &&& r.phase == phase
            &&& phase != "None"@ ==> r.commands.first() == OverlayCmdView::Show && r.commands.len()
                == 2
            &&& phase == "None"@ && !forced ==> r.commands.first() == OverlayCmdView::Hide
                && r.commands.len() == 2
            &&& phase == "None"@ && forced ==> r.commands.len() == 1
            &&& r.commands.last() == if busy_now {
                OverlayCmdView::AutoFixWindow
            } else {
                OverlayCmdView::ClearHud
            }
            &&& r.show_status == !busy_now
            &&& r.analyze <==> playing && !s.ingame_done && config.premade_ingame
            &&& !busy_now ==> !after.analysis_done && !after.ingame_done
            &&& busy_now ==> after.analysis_done == s.analysis_done && after.ingame_done == (
            s.ingame_done || r.analyze)
            &&& after.bench == s.bench && after.pick_slot == s.pick_slot
        }),
        INGAME_HIDE_SECS == 120,
        INGAME_THRESHOLD == 2,
{
}

/// An event whose data is no string stands for no phase.
pub proof fn law_no_text_is_no_phase(event: JsonView)
    requires
        !(event.field("data"@) matches Some(JsonView::Str(_))),
    ensures
        phase_of(event) == "None"@,
{
}

/// While a match is looked for or has been found the queue is named behind the phase, where
/// the session names it; in other phases the phase stands alone.
pub proof fn law_status_names_the_queue(
    phase: Seq<char>,
    session: JsonView,
    data: JsonView,
    queue: JsonView,
    name: Seq<char>,
)
    requires
        session.field("gameData"@) == Some(data),
        data.field("queue_info"@) == Some(queue),
        queue.field("description"@) == Some(JsonView::Str(name)),
    ensures
        phase == "Matchmaking"@ || phase == "ReadyCheck"@ ==> status_text(phase, Some(session))
            == "状态: "@ + phase + " ("@ + name + ")"@,
        phase != "Matchmaking"@ && phase != "ReadyCheck"@ ==> status_text(phase, Some(session))
            == "状态: "@ + phase,
        status_text(phase, None) == "状态: "@ + phase,
{
}

/// The board shows a line for every player of a team, in their order: their own line where
/// it is known, and a stand-in with their name until then.
pub proof fn law_board_shows_everybody(c: ColumnView, i: int, line: Seq<char>)
    requires
        c.well_formed(),
        0 <= i < c.names.len(),
    ensures
        c.lines[i] == Some(line) ==> c.line(i) == line,
        c.lines[i] is None ==> c.line(i) == "-- "@ + c.names[i] + " 评分:加载中..."@,
        c.names.len() == 1 ==> c.text() == c.line(0),
        c.names.len() == 2 ==> c.text() == c.line(0) + "\n"@ + c.line(1),
{
    reveal_with_fuel(joined, 3);
    let lines = Seq::new(c.names.len(), |k: int| c.line(k));
    if c.names.len() == 2 {
        assert(lines.drop_last().len() == 1);
        assert(joined(lines.drop_last(), "\n"@) == lines[0]);
    }
}

/// The message has the player's own team under its heading, and the other team under its
/// own where anybody is in it.
pub proof fn law_message_has_both_columns(mine: ColumnView, theirs: ColumnView)
    ensures
        theirs.names.len() == 0 ==> board_text(mine, theirs) == "[我方评分]\n"@ + mine.text()
            + "\n"@,
        theirs.names.len() > 0 ==> board_text(mine, theirs) == "[我方评分]\n"@ + mine.text()
            + "\n"@ + ("\n[对方评分]\n"@ + theirs.text() + "\n"@),
{
    assert("[我方评分]\n"@ + mine.text() + "\n"@ + Seq::<char>::empty() =~= "[我方评分]\n"@
        + mine.text() + "\n"@);
}

/// Each reaction has the address at which the client reports what it reacts to.
pub proof fn law_addresses_of_the_reactions()
    ensures
        address(Route::ReadyCheck) == "/lol-matchmaking/v1/ready-check"@,
        address(Route::Gameflow) == "/lol-gameflow/v1/gameflow-phase"@,
        address(Route::HonorBallot) == "/lol-honor-v2/v1/ballot"@,
        address(Route::ChampSelect) == "/lol-champ-select/v1/session"@,
        address(Route::Lobby) == "/lol-lobby/v2/lobby"@,
{
}

} // verus!
