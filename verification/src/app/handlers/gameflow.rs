//! The reaction to a change of phase.

use crate::app::config::AppConfig;
use crate::app::handlers::utils::{cmd_views, OverlayCmd, OverlayCmdView};
use crate::app::state::{RuntimeState, RuntimeView};
use crate::json::{Json, JsonView};
use crate::lcu::api::gameflow;
use crate::text::{concat, str_eq};
use vstd::prelude::*;

verus! {

/// How long the panel stays after the players of a game were looked at, in seconds.
pub const INGAME_HIDE_SECS: u64 = 120;

/// From how many common games on two players of a running game are taken to play together.
pub const INGAME_THRESHOLD: usize = 2;

/// What follows a change of phase: what is done with the overlay at once, whether the
/// state is shown, and whether the players are looked at.
pub struct GameflowReaction {
    pub phase: String,
    pub commands: Vec<OverlayCmd>,
    pub show_status: bool,
    pub analyze: bool,
}

/// What a `GameflowReaction` holds.
pub struct GameflowReactionView {
    pub phase: Seq<char>,
    pub commands: Seq<OverlayCmdView>,
    pub show_status: bool,
    pub analyze: bool,
}

impl View for GameflowReaction {
    type V = GameflowReactionView;

    open spec fn view(&self) -> GameflowReactionView {
        GameflowReactionView {
            phase: self.phase@,
            commands: cmd_views(self.commands@),
            show_status: self.show_status,
            analyze: self.analyze,
        }
    }
}

/// The phase of an event; anything but a string stands for no phase.
pub open spec fn phase_of(event: JsonView) -> Seq<char> {
    match event.text_field("data"@) {
        Some(p) => p,
        None => gameflow::NONE@,
    }
}

/// A phase in which the game is picked for, loaded or played.
pub open spec fn busy(phase: Seq<char>) -> bool {
    phase == gameflow::CHAMP_SELECT@ || phase == gameflow::IN_PROGRESS@ || phase
        == gameflow::GAME_START@
}

/// What follows a change of phase. The overlay is shown in every phase, and hidden without
/// one unless it is forced. While the game is picked for, loaded or played the client's
/// window is fixed; in every other phase the state is shown, the overlay is cleared and the
/// teams count as not looked at. In a game the players are looked at once, where the user
/// wants it.
pub open spec fn on_gameflow(s: RuntimeView, config: AppConfig, forced: bool, event: JsonView) -> (
    RuntimeView,
    GameflowReactionView,
) {
    let phase = phase_of(event);
    let first: Seq<OverlayCmdView> = if phase == gameflow::NONE@ {
        if forced {
            Seq::empty()
        } else {
            seq![OverlayCmdView::Hide]
        }
    } else {
        seq![OverlayCmdView::Show]
    };
    let second: Seq<OverlayCmdView> = if busy(phase) {
        seq![OverlayCmdView::AutoFixWindow]
    } else {
        seq![OverlayCmdView::ClearHud]
    };
    let reset = if busy(phase) {
        s
    } else {
        RuntimeView { analysis_done: false, ingame_done: false, ..s }
    };
    let analyze = (phase == gameflow::IN_PROGRESS@ || phase == gameflow::GAME_START@)
        && !reset.ingame_done && config.premade_ingame;
    (
        RuntimeView {
            ingame_done: reset.ingame_done || analyze,
            ..reset
        },
        GameflowReactionView {
            phase,
            commands: first + second,
            show_status: !busy(phase),
            analyze,
        },
    )
}

/// Reacts to a change of phase.
pub fn handle_gameflow(
    state: &mut RuntimeState,
    config: &AppConfig,
    forced: bool,
    event: &Json,
) -> (r: GameflowReaction)
    ensures
        (final(state)@, r@) == on_gameflow(old(state)@, *config, forced, event@),
{
    let phase = match event.get_str("data") {
        Some(p) => p,
        None => gameflow::NONE,
    };
    let mut commands: Vec<OverlayCmd> = Vec::new();
    if str_eq(phase, gameflow::NONE) {
        if !forced {
            commands.push(OverlayCmd::Hide);
        }
    } else {
        commands.push(OverlayCmd::Show);
    }
    let playing = str_eq(phase, gameflow::IN_PROGRESS) || str_eq(phase, gameflow::GAME_START);
    let busy_now = playing || str_eq(phase, gameflow::CHAMP_SELECT);
    if busy_now {
        commands.push(OverlayCmd::AutoFixWindow);
    } else {
        state.reset_premade_status();
        commands.push(OverlayCmd::ClearHud);
    }
    let analyze = playing && !state.premade_ingame_done && config.premade_ingame;
    if analyze {
        state.premade_ingame_done = true;
    }
    let r = GameflowReaction {
        phase: phase.to_owned(),
        commands,
        show_status: !busy_now,
        analyze,
    };
    assert(r@.commands =~= on_gameflow(old(state)@, *config, forced, event@).1.commands);
    r
}

/// Whether there is anybody to look at: a session without players is left alone.
pub fn has_players(mine: &Vec<(String, String)>, theirs: &Vec<(String, String)>) -> (r: bool)
    ensures
        r == (mine@.len() > 0 || theirs@.len() > 0),
{
    mine.len() > 0 || theirs.len() > 0
}

/// The description of the queue in a session.
pub open spec fn queue_in(session: JsonView) -> Option<Seq<char>> {
    match session.field("gameData"@) {
        Some(data) => match data.field("queue_info"@) {
            Some(queue) => queue.text_field("description"@),
            None => None,
        },
        None => None,
    }
}

/// The state in words. While a match is looked for the queue is named, where the session
/// names it.
pub open spec fn status_text(phase: Seq<char>, session: Option<JsonView>) -> Seq<char> {
    let queue = match session {
        Some(s) => queue_in(s),
        None => None,
    };
    if (phase == gameflow::MATCHMAKING@ || phase == gameflow::READY_CHECK@) && queue is Some {
        "状态: "@ + phase + " ("@ + queue->0 + ")"@
    } else {
        "状态: "@ + phase
    }
}

/// The state in words, with the client's session where it gave one.
pub fn status_message(phase: &str, session: Option<&Json>) -> (r: String)
    ensures
        r@ == status_text(phase@, crate::json::opt_view(session)),
{
    let mut r = concat("状态: ", phase);
    if str_eq(phase, gameflow::MATCHMAKING) || str_eq(phase, gameflow::READY_CHECK) {
        match session {
            Some(s) => match s.get("gameData") {
                Some(data) => match data.get("queue_info") {
                    Some(queue) => match queue.get_str("description") {
                        Some(text) => {
                            r.append(" (");
                            r.append(text);
                            r.append(")");
                        },
                        None => {},
                    },
                    None => {},
                },
                None => {},
            },
            None => {},
        }
    }
    r
}

/// Whether the session is needed to put the state into words.
pub fn status_needs_session(phase: &str) -> (r: bool)
    ensures
        r == (phase@ == gameflow::MATCHMAKING@ || phase@ == gameflow::READY_CHECK@),
{
    str_eq(phase, gameflow::MATCHMAKING) || str_eq(phase, gameflow::READY_CHECK)
}

/// Outside champion select and the game the teams count as not looked at, so that they are
/// looked at in the next game.
pub proof fn law_next_game_is_looked_at(
    s: RuntimeView,
    config: AppConfig,
    forced: bool,
    leaving: JsonView,
    entering: JsonView,
)
    requires
        !busy(phase_of(leaving)),
        phase_of(entering) == gameflow::IN_PROGRESS@ || phase_of(entering) == gameflow::GAME_START@,
        config.premade_ingame,
    ensures
        on_gameflow(on_gameflow(s, config, forced, leaving).0, config, forced, entering).1.analyze,
{
}

/// In one game the players are looked at once.
pub proof fn law_game_is_looked_at_once(
    s: RuntimeView,
    config: AppConfig,
    forced: bool,
    first: JsonView,
    second: JsonView,
)
    requires
        busy(phase_of(second)),
        on_gameflow(s, config, forced, first).1.analyze,
    ensures
        !on_gameflow(on_gameflow(s, config, forced, first).0, config, forced, second).1.analyze,
{
}

} // verus!
