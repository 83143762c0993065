//! The reaction to a session of champion select.

use crate::app::config::AppConfig;
use crate::app::handlers::utils::{cmd_views, data_of, event_data, OverlayCmd, OverlayCmdView};
use crate::app::premade::{extract_teams_from_session, roster_view, select_side, select_team};
use crate::app::state::{RuntimeState, RuntimeView};
use crate::json::{Json, JsonView};
use crate::lcu::api::champ_select::bench_in;
use crate::lcu::api::LcuClient;
use vstd::prelude::*;

verus! {

/// From how many common games on two players of a champion select are taken to play
/// together.
pub const SELECT_THRESHOLD: usize = 3;

/// The players to be looked at.
pub struct SelectTeams {
    pub mine: Vec<(String, String, i64)>,
    pub theirs: Vec<(String, String, i64)>,
    pub my_side: Option<u32>,
    pub their_side: Option<u32>,
}

/// What `SelectTeams` hold.
pub struct SelectTeamsView {
    pub mine: Seq<(Seq<char>, Seq<char>, i64)>,
    pub theirs: Seq<(Seq<char>, Seq<char>, i64)>,
    pub my_side: Option<u32>,
    pub their_side: Option<u32>,
}

impl View for SelectTeams {
    type V = SelectTeamsView;

    open spec fn view(&self) -> SelectTeamsView {
        SelectTeamsView {
            mine: roster_view(self.mine@),
            theirs: roster_view(self.theirs@),
            my_side: self.my_side,
            their_side: self.their_side,
        }
    }
}

/// The teams of a session.
pub open spec fn teams_in(session: JsonView) -> SelectTeamsView {
    SelectTeamsView {
        mine: select_team(session, "myTeam"@),
        theirs: select_team(session, "theirTeam"@),
        my_side: select_side(session, "myTeam"@),
        their_side: select_side(session, "theirTeam"@),
    }
}

/// The view of teams that may not have to be looked at.
pub open spec fn teams_view(t: Option<SelectTeams>) -> Option<SelectTeamsView> {
    match t {
        Some(t) => Some(t@),
        None => None,
    }
}

/// What follows a session: the overlay is shown, with the bench layer where there is a
/// bench or it is forced; the bench is taken over; and the teams are looked at once, where
/// the user wants it. An event without a session changes nothing.
pub open spec fn on_champ_select(
    s: RuntimeView,
    config: AppConfig,
    forced: bool,
    event: JsonView,
) -> (RuntimeView, Seq<OverlayCmdView>, Option<SelectTeamsView>) {
    match data_of(event) {
        Some(session) => {
            let has_bench = session.truth_field("benchEnabled"@) == Some(true);
            let analyze = !s.analysis_done && config.premade_champ_select;
            (
                RuntimeView {
                    bench: bench_in(session),
                    analysis_done: s.analysis_done || analyze,
                    ..s
                },
                seq![OverlayCmdView::Show, OverlayCmdView::ShowBench(forced || has_bench)],
                if analyze {
                    Some(teams_in(session))
                } else {
                    None
                },
            )
        },
        None => (s, Seq::empty(), None),
    }
}

/// Reacts to a session of champion select. Returns what is done with the overlay, and the
/// teams that are to be looked at.
pub fn handle_champ_select(
    state: &mut RuntimeState,
    config: &AppConfig,
    forced: bool,
    event: &Json,
) -> (r: (Vec<OverlayCmd>, Option<SelectTeams>))
    ensures
        (final(state)@, cmd_views(r.0@), teams_view(r.1)) == on_champ_select(
            old(state)@,
            *config,
            forced,
            event@,
        ),
{
    let mut commands: Vec<OverlayCmd> = Vec::new();
    let session = match event_data(event) {
        Some(s) => s,
        None => {
            assert(cmd_views(commands@) =~= Seq::empty());
            return (commands, None);
        },
    };
    let has_bench = match session.get_bool("benchEnabled") {
        Some(b) => b,
        None => false,
    };
    commands.push(OverlayCmd::Show);
    commands.push(OverlayCmd::ShowBench(forced || has_bench));
    assert(cmd_views(commands@) =~= seq![
        OverlayCmdView::Show,
        OverlayCmdView::ShowBench(forced || has_bench),
    ]);
    state.current_bench_ids = LcuClient::extract_bench_champion_ids(session);
    let analyze = !state.premade_analysis_done && config.premade_champ_select;
    if analyze {
        state.premade_analysis_done = true;
        let (mine, theirs, my_side, their_side) = extract_teams_from_session(session);
        (commands, Some(SelectTeams { mine, theirs, my_side, their_side }))
    } else {
        (commands, None)
    }
}

/// In one champion select the teams are looked at once.
pub proof fn law_select_is_looked_at_once(
    s: RuntimeView,
    config: AppConfig,
    forced: bool,
    first: JsonView,
    second: JsonView,
)
    requires
        on_champ_select(s, config, forced, first).2 is Some,
    ensures
        on_champ_select(on_champ_select(s, config, forced, first).0, config, forced, second).2 is None,
{
}

} // verus!
