//! What the user can rely on in the turns of the main loop: for each kind of event, what it
//! changes, what it leaves alone, and what is done about it.

use crate::app::config::{default_config, AppConfig};
use crate::app::event::{AppEventView, TrayAction};
use crate::app::laws::lemma_contains_only_if;
use crate::app::main_loop::{
    fresh_loop, has_score, nothing, on_phase, on_session, one_each, only_if, score_lines, take_turn,
    tray_effect, with_score, EffectView, LoopView, ScoresView,
};
use crate::app::premade::{select_side, select_team};
use crate::app::viewmodel::LcuRect;
use crate::json::JsonView;
use crate::lcu::api::champ_select::bench_in;
use crate::lcu::websocket::LcuEventView;
use crate::text::{lemma_sorted_texts, lines_of, sorted_texts, text_order};
use vstd::prelude::*;
use vstd::relations::sorted_by;

verus! {

// ---------------------------------------------------------------------------
// Accepting a match
// ---------------------------------------------------------------------------

/// An event of the client about a ready check in the given state.
pub open spec fn is_check(e: AppEventView, state: Seq<char>) -> bool {
    e matches AppEventView::LcuEvent(v) && v.uri == "/lol-matchmaking/v1/ready-check"@
        && v.payload.field("state"@) == Some(JsonView::Str(state))
}

/// The loop after some events.
pub open spec fn after_events(m: LoopView, config: AppConfig, events: Seq<AppEventView>) -> LoopView
    decreases events.len(),
{
    if events.len() == 0 {
        m
    } else {
        take_turn(after_events(m, config, events.drop_last()), config, events.last()).model
    }
}

/// How many seconds pass in some events.
pub open spec fn ticks_in(events: Seq<AppEventView>) -> nat
    decreases events.len(),
{
    if events.len() == 0 {
        0
    } else if events.last() is Tick {
        ticks_in(events.drop_last()) + 1
    } else {
        ticks_in(events.drop_last())
    }
}

proof fn lemma_addresses()
    ensures
        "/lol-matchmaking/v1/ready-check"@ != "/lol-gameflow/v1/gameflow-phase"@,
        "/lol-matchmaking/v1/ready-check"@ != "/lol-champ-select/v1/session"@,
        "/lol-gameflow/v1/gameflow-phase"@ != "/lol-champ-select/v1/session"@,
{
    reveal_strlit("/lol-matchmaking/v1/ready-check");
    reveal_strlit("/lol-gameflow/v1/gameflow-phase");
    reveal_strlit("/lol-champ-select/v1/session");
    assert("/lol-matchmaking/v1/ready-check"@[5] != "/lol-gameflow/v1/gameflow-phase"@[5]);
    assert("/lol-matchmaking/v1/ready-check"@[5] != "/lol-champ-select/v1/session"@[5]);
    assert("/lol-gameflow/v1/gameflow-phase"@[5] != "/lol-champ-select/v1/session"@[5]);
}

/// While a countdown runs, the client saying again that the check is in progress changes
/// nothing: the countdown goes on from where it is.
pub proof fn law_running_countdown_is_left_alone(m: LoopView, config: AppConfig, e: AppEventView)
    requires
        is_check(e, "InProgress"@),
        config.auto_accept_enabled,
        m.accept_timer is Some,
    ensures
        take_turn(m, config, e).model == m,
        take_turn(m, config, e).effects.len() == 0,
        take_turn(m, config, e).config == config,
{
    lemma_addresses();
}

/// A check in progress begins a countdown of as many seconds as the options say, or has the
/// match accepted at once where they say none; it does neither where matches are not to be
/// accepted. Nothing else changes.
pub proof fn law_check_begins_countdown(m: LoopView, config: AppConfig, e: AppEventView)
    requires
        is_check(e, "InProgress"@),
        m.accept_timer is None,
    ensures
        ({
            let t = take_turn(m, config, e);
            let delay = config.auto_accept_delay_secs;
            &&& t.model == (LoopView { accept_timer: t.model.accept_timer, ..m })
            &&& t.config == config
            &&& t.model.accept_timer == if config.auto_accept_enabled && delay > 0 {
                Some(delay)
            } else {
                None
            }
            &&& t.effects.contains(EffectView::AcceptReadyCheck) <==> config.auto_accept_enabled
                && delay == 0 && m.api is Some
        }),
{
    broadcast use lemma_contains_only_if;

    lemma_addresses();
}

/// A check that is no longer in progress stops the countdown, and no match is accepted.
pub proof fn law_other_state_stops_countdown(
    m: LoopView,
    config: AppConfig,
    e: AppEventView,
    state: Seq<char>,
)
    requires
        is_check(e, state),
        state != "InProgress"@,
    ensures
        take_turn(m, config, e).model == (LoopView { accept_timer: None, ..m }),
        take_turn(m, config, e).effects.len() == 0,
{
    lemma_addresses();
}

proof fn lemma_countdown_goes_on(
    m: LoopView,
    config: AppConfig,
    events: Seq<AppEventView>,
    t: u64,
)
    requires
        m.accept_timer == Some(t),
        config.auto_accept_enabled,
        ticks_in(events) < t,
        forall|i: int|
            0 <= i < events.len() ==> #[trigger] events[i] is Tick || is_check(
                events[i],
                "InProgress"@,
            ),
    ensures
        after_events(m, config, events).accept_timer == Some((t - ticks_in(events)) as u64),
        after_events(m, config, events).api == m.api,
    decreases events.len(),
{
    if events.len() > 0 {
        let rest = events.drop_last();
        assert(forall|i: int| 0 <= i < rest.len() ==> #[trigger] rest[i] == events[i]);
        assert(events[events.len() - 1] == events.last());
        assert forall|i: int| 0 <= i < rest.len() implies #[trigger] rest[i] is Tick || is_check(
            rest[i],
            "InProgress"@,
        ) by {
            assert(events[i] is Tick || is_check(events[i], "InProgress"@));
        }
        lemma_countdown_goes_on(m, config, rest, t);
        if !(events.last() is Tick) {
            law_running_countdown_is_left_alone(
                after_events(m, config, rest),
                config,
                events.last(),
            );
        }
    }
}

/// However often the client repeats that the check is in progress, the match is accepted on
/// the second on which the countdown that the first event began is over, and on none before.
pub proof fn law_repeated_checks_do_not_delay(
    m: LoopView,
    config: AppConfig,
    first: AppEventView,
    events: Seq<AppEventView>,
)
    requires
        m.accept_timer is None,
        m.api is Some,
        config.auto_accept_enabled,
        config.auto_accept_delay_secs > 0,
        is_check(first, "InProgress"@),
        ticks_in(events) < config.auto_accept_delay_secs,
        forall|i: int|
            0 <= i < events.len() ==> #[trigger] events[i] is Tick || is_check(
                events[i],
                "InProgress"@,
            ),
    ensures
        ({
            let begun = take_turn(m, config, first).model;
            let now = after_events(begun, config, events);
            take_turn(now, config, AppEventView::Tick).effects.contains(
                EffectView::AcceptReadyCheck,
            ) <==> ticks_in(events) + 1 == config.auto_accept_delay_secs
        }),
{
    broadcast use lemma_contains_only_if;

    law_check_begins_countdown(m, config, first);
    let begun = take_turn(m, config, first).model;
    lemma_countdown_goes_on(begun, config, events, config.auto_accept_delay_secs);
}

/// A match is accepted by the second that ends the countdown, or at once by a check where
/// the options want no delay, and by nothing else; never without the client.
pub proof fn law_when_a_match_is_accepted(m: LoopView, config: AppConfig, e: AppEventView)
    ensures
        take_turn(m, config, e).effects.contains(EffectView::AcceptReadyCheck) <==> m.api is Some
            && ((e is Tick && m.accept_timer == Some(1u64)) || (is_check(e, "InProgress"@)
            && config.auto_accept_enabled && config.auto_accept_delay_secs == 0 && m.accept_timer
            is None)),
{
    lemma_addresses();
    match e {
        AppEventView::LcuPhaseChanged(phase) => {
            lemma_phase_accepts_nothing(m, config, phase);
        },
        AppEventView::LcuEvent(v) => {
            if v.payload.text() is Some {
                lemma_phase_accepts_nothing(m, config, v.payload.text()->0);
            }
            lemma_session_accepts_nothing(m, config, v.payload);
            if v.uri == "/lol-matchmaking/v1/ready-check"@ {
                lemma_check_accepts(m, config, e);
            }
        },
        AppEventView::LcuSessionUpdated(session) => {
            lemma_session_accepts_nothing(m, config, session);
        },
        AppEventView::TrayAction(action) => {
            lemma_contains_only_if(
                nothing(),
                true,
                tray_effect(action),
                EffectView::AcceptReadyCheck,
            );
        },
        _ => {
            lemma_rest_accepts(m, config, e);
        },
    }
}

proof fn lemma_phase_accepts_nothing(m: LoopView, config: AppConfig, phase: Seq<char>)
    ensures
        !on_phase(m, config, phase).1.contains(EffectView::AcceptReadyCheck),
{
    broadcast use lemma_contains_only_if;

}

proof fn lemma_session_accepts_nothing(m: LoopView, config: AppConfig, session: JsonView)
    ensures
        !on_session(m, config, session).1.contains(EffectView::AcceptReadyCheck),
{
    broadcast use lemma_contains_only_if;

}

proof fn lemma_check_accepts(m: LoopView, config: AppConfig, e: AppEventView)
    requires
        e matches AppEventView::LcuEvent(v) && v.uri == "/lol-matchmaking/v1/ready-check"@,
    ensures
        take_turn(m, config, e).effects.contains(EffectView::AcceptReadyCheck) <==> m.api is Some
            && is_check(e, "InProgress"@) && config.auto_accept_enabled
            && config.auto_accept_delay_secs == 0 && m.accept_timer is None,
{
    broadcast use lemma_contains_only_if;

    lemma_addresses();
}

proof fn lemma_rest_accepts(m: LoopView, config: AppConfig, e: AppEventView)
    requires
        !(e is LcuPhaseChanged) && !(e is LcuEvent) && !(e is LcuSessionUpdated) && !(e
            is TrayAction),
    ensures
        take_turn(m, config, e).effects.contains(EffectView::AcceptReadyCheck) <==> m.api is Some
            && e is Tick && m.accept_timer == Some(1u64),
{
    broadcast use lemma_contains_only_if;

}

// ---------------------------------------------------------------------------
// Phases
// ---------------------------------------------------------------------------

/// A change of phase shows the panel under a title with the phase, shows the bench layer in
/// champion select and hides it in every other phase, and is published.
pub proof fn law_phase_is_shown(m: LoopView, config: AppConfig, phase: Seq<char>)
    ensures
        ({
            let t = take_turn(m, config, AppEventView::LcuPhaseChanged(phase));
            &&& t.model.vm.current_phase == phase
            &&& t.model.vm.hud1_visible
            &&& t.model.vm.hud2_visible <==> phase == "ChampSelect"@
            &&& phase == "None"@ ==> t.model.vm.hud1_title == "已连接"@
            &&& phase != "None"@ ==> t.model.vm.hud1_title == "当前阶段: "@ + phase
            &&& t.effects.last() == EffectView::Publish
            &&& t.model.api == m.api
            &&& t.model.tasks == m.tasks
            &&& t.model.accept_timer == m.accept_timer
            &&& t.model.state.bench == m.state.bench
            &&& t.model.vm.is_connected == m.vm.is_connected
            &&& t.model.vm.lcu_rect == m.vm.lcu_rect
        }),
{
}

/// What is known of the players is kept in champion select, while the game is loaded or
/// played, and while the player reconnects to it; in every other phase it is forgotten.
pub proof fn law_results_belong_to_the_game(m: LoopView, config: AppConfig, phase: Seq<char>)
    ensures
        ({
            let after = take_turn(m, config, AppEventView::LcuPhaseChanged(phase)).model;
            let kept = phase == "ChampSelect"@ || phase == "InProgress"@ || phase == "GameStart"@
                || phase == "Reconnect"@;
            &&& kept ==> after.premade_msg == m.premade_msg && after.my_scores == m.my_scores
                && after.their_scores == m.their_scores && after.vm.hud1_lines == m.vm.hud1_lines
            &&& !kept ==> after.premade_msg.len() == 0 && after.my_scores.len() == 0
                && after.their_scores.len() == 0 && after.vm.hud1_lines.len() == 0
            &&& !kept ==> !after.scout
        }),
{
    broadcast use lemma_contains_only_if;

    reveal_strlit("InProgress");
    reveal_strlit("GameStart");
}

/// The panel is hidden two minutes after a game has begun; the countdown does not run in
/// champion select nor outside a game, and reconnecting leaves it as it is.
pub proof fn law_panel_countdown_by_phase(m: LoopView, config: AppConfig, phase: Seq<char>)
    ensures
        ({
            let timer = take_turn(
                m,
                config,
                AppEventView::LcuPhaseChanged(phase),
            ).model.hide_timer;
            &&& phase == "InProgress"@ || phase == "GameStart"@ ==> timer == Some(120u32)
            &&& phase == "Reconnect"@ ==> timer == m.hide_timer
            &&& phase != "InProgress"@ && phase != "GameStart"@ && phase != "Reconnect"@ ==> timer
                is None
        }),
{
    reveal_strlit("InProgress");
    reveal_strlit("GameStart");
    reveal_strlit("Reconnect");
    reveal_strlit("ChampSelect");
    assert("Reconnect"@[0] != "GameStart"@[0]);
    assert("Reconnect"@.len() != "InProgress"@.len());
    assert("Reconnect"@.len() != "ChampSelect"@.len());
}

/// The honor vote is skipped after a game, two seconds later, where the options want it and
/// the client is connected; no other phase has it skipped.
pub proof fn law_vote_is_skipped_after_a_game(m: LoopView, config: AppConfig, phase: Seq<char>)
    ensures
        take_turn(m, config, AppEventView::LcuPhaseChanged(phase)).effects.contains(
            EffectView::SkipHonorVote { delay_secs: 2 },
        ) <==> phase == "EndOfGame"@ && m.api is Some && config.auto_honor_skip,
{
    broadcast use lemma_contains_only_if;

}

/// The players of a game are looked at when it is loaded, and when it is played and either
/// they were not looked at yet or nothing came of it; only where the options want it and
/// the client is connected.
pub proof fn law_when_a_game_is_scouted(m: LoopView, config: AppConfig, phase: Seq<char>)
    ensures
        take_turn(m, config, AppEventView::LcuPhaseChanged(phase)).effects.contains(
            EffectView::StartIngameScout,
        ) <==> m.api is Some && config.premade_ingame && (phase == "GameStart"@ || (phase
            == "InProgress"@ && (!m.state.ingame_done || (m.my_scores.len() == 0
            && m.their_scores.len() == 0)))),
{
    broadcast use lemma_contains_only_if;

    reveal_strlit("InProgress");
    reveal_strlit("GameStart");
    reveal_strlit("ChampSelect");
    assert("GameStart"@.len() != "InProgress"@.len());
    assert("GameStart"@.len() != "ChampSelect"@.len());
}

/// Sniping goes on in champion select alone: every other phase cancels it. Outside champion
/// select and the running game no slot is highlighted, and the teams count as not looked at.
pub proof fn law_sniping_belongs_to_champion_select(
    m: LoopView,
    config: AppConfig,
    phase: Seq<char>,
)
    ensures
        ({
            let t = take_turn(m, config, AppEventView::LcuPhaseChanged(phase));
            &&& t.effects.contains(EffectView::CancelSniper) <==> m.sniper && phase
                != "ChampSelect"@
            &&& t.model.sniper <==> m.sniper && phase == "ChampSelect"@
            &&& phase != "ChampSelect"@ && phase != "InProgress"@ ==> t.model.state.pick_slot
                is None && t.model.vm.hud2_selected_slot is None && !t.model.state.analysis_done
            &&& phase == "ChampSelect"@ || phase == "InProgress"@ ==> t.model.state.pick_slot
                == m.state.pick_slot && t.model.state.analysis_done == m.state.analysis_done
            &&& phase == "InProgress"@ || phase == "GameStart"@ ==> t.model.state.ingame_done
        }),
{
    broadcast use lemma_contains_only_if;

}

/// Looking at the players is cancelled where the game is left, and where it begins anew.
pub proof fn law_when_scouting_is_cancelled(m: LoopView, config: AppConfig, phase: Seq<char>)
    ensures
        ({
            let t = take_turn(m, config, AppEventView::LcuPhaseChanged(phase));
            let kept = phase == "ChampSelect"@ || phase == "InProgress"@ || phase == "GameStart"@
                || phase == "Reconnect"@;
            &&& t.effects.contains(EffectView::CancelScout) <==> m.scout && (!kept
                || t.effects.contains(EffectView::StartIngameScout))
            &&& t.model.scout <==> (m.scout && kept) || t.effects.contains(
                EffectView::StartIngameScout,
            )
        }),
{
    broadcast use lemma_contains_only_if;

    reveal_strlit("InProgress");
    reveal_strlit("GameStart");
}

/// The client's own events and those of the monitor come to the same: a phase or a session
/// that the client reports is handled as one that the monitor reports. Events at other
/// addresses do nothing.
pub proof fn law_events_by_their_address(m: LoopView, config: AppConfig, v: LcuEventView)
    ensures
        v.uri == "/lol-gameflow/v1/gameflow-phase"@ ==> (v.payload matches JsonView::Str(phase)
            ==> take_turn(m, config, AppEventView::LcuEvent(v)) == take_turn(
            m,
            config,
            AppEventView::LcuPhaseChanged(phase),
        )),
        v.uri == "/lol-gameflow/v1/gameflow-phase"@ && !(v.payload is Str) ==> take_turn(
            m,
            config,
            AppEventView::LcuEvent(v),
        ).model == m && take_turn(m, config, AppEventView::LcuEvent(v)).effects.len() == 0,
        v.uri == "/lol-champ-select/v1/session"@ ==> take_turn(m, config, AppEventView::LcuEvent(v))
            == take_turn(m, config, AppEventView::LcuSessionUpdated(v.payload)),
        v.uri != "/lol-gameflow/v1/gameflow-phase"@ && v.uri != "/lol-champ-select/v1/session"@
            && v.uri != "/lol-matchmaking/v1/ready-check"@ ==> take_turn(
            m,
            config,
            AppEventView::LcuEvent(v),
        ).model == m && take_turn(m, config, AppEventView::LcuEvent(v)).effects.len() == 0,
{
    lemma_addresses();
}

// ---------------------------------------------------------------------------
// Champion select
// ---------------------------------------------------------------------------

/// Every session takes the bench over. The first of a champion select has the player's own
/// team looked at, where the options want it, the client is connected and there is anybody
/// in it; the next ones do not. Nothing else changes, and nothing is shown anew.
pub proof fn law_session_is_taken_over(m: LoopView, config: AppConfig, session: JsonView)
    ensures
        ({
            let t = take_turn(m, config, AppEventView::LcuSessionUpdated(session));
            let wanted = !m.state.analysis_done && config.premade_champ_select && m.api is Some;
            let team = select_team(session, "myTeam"@);
            &&& t.model.state.bench == bench_in(session)
            &&& t.model.state.analysis_done
            &&& t.model.state.ingame_done == m.state.ingame_done
            &&& t.model.state.pick_slot == m.state.pick_slot
            &&& t.model == (LoopView { scout: t.model.scout, state: t.model.state, ..m })
            &&& t.model.scout == (m.scout || wanted)
            &&& t.effects.contains(EffectView::CancelScout) <==> wanted && m.scout
            &&& (exists|i: int| 0 <= i < t.effects.len() && #[trigger] t.effects[i] is StartScout)
                <==> wanted && team.len() > 0
            &&& !t.effects.contains(EffectView::Publish)
        }),
{
    broadcast use lemma_contains_only_if;

    let t = take_turn(m, config, AppEventView::LcuSessionUpdated(session));
    let wanted = !m.state.analysis_done && config.premade_champ_select && m.api is Some;
    if wanted && select_team(session, "myTeam"@).len() > 0 {
        assert(t.effects[t.effects.len() - 1] is StartScout);
    }
}

/// Those who are looked at are the players of the session's `myTeam`, with their identifiers
/// and names, in their order, and with the sides of the two teams.
pub proof fn law_own_team_is_scouted(m: LoopView, config: AppConfig, session: JsonView, i: int)
    ensures
        ({
            let effects = take_turn(m, config, AppEventView::LcuSessionUpdated(session)).effects;
            let team = select_team(session, "myTeam"@);
            0 <= i < effects.len() ==> (effects[i] matches EffectView::StartScout {
                my_team,
                my_side,
                their_side,
            } ==> {
                &&& my_team.len() == team.len()
                &&& forall|k: int|
                    0 <= k < team.len() ==> #[trigger] my_team[k] == (team[k].0, team[k].1)
                &&& my_side == select_side(session, "myTeam"@)
                &&& their_side == select_side(session, "theirTeam"@)
            })
        }),
{
}

/// A click on a slot has the champion of that slot sniped and the slot highlighted, where it
/// was not being sniped; whatever was being sniped is given up first.
pub proof fn law_click_snipes_its_slot(m: LoopView, config: AppConfig, index: usize)
    requires
        index < m.state.bench.len(),
        m.state.pick_slot != Some(index),
    ensures
        ({
            let t = take_turn(m, config, AppEventView::BenchClick(index));
            let start = EffectView::StartSniper {
                champion_id: m.state.bench[index as int],
                slot: index,
            };
            &&& t.model.state.pick_slot == Some(index)
            &&& t.model.vm.hud2_selected_slot == Some(index)
            &&& t.model.state.bench == m.state.bench
            &&& t.effects.contains(start) <==> m.api is Some
            &&& forall|i: int|
                0 <= i < t.effects.len() ==> (#[trigger] t.effects[i] is StartSniper ==> t.effects[i]
                    == start)
            &&& t.effects.contains(EffectView::CancelSniper) <==> m.sniper
            &&& t.effects.last() == EffectView::Publish
            &&& t.model.vm.hud1_visible == m.vm.hud1_visible
            &&& t.model.vm.hud2_visible == m.vm.hud2_visible
        }),
{
    broadcast use lemma_contains_only_if;

}

/// When sniping a slot is over the slot is no longer highlighted; where another one is being
/// sniped by then, nothing changes.
pub proof fn law_finished_sniping_clears_its_slot(m: LoopView, config: AppConfig, index: usize)
    ensures
        ({
            let t = take_turn(m, config, AppEventView::SniperFinished(index));
            &&& m.state.pick_slot == Some(index) ==> t.model.state.pick_slot is None
                && t.model.vm.hud2_selected_slot is None && t.effects == seq![EffectView::Publish]
            &&& m.state.pick_slot != Some(index) ==> t.model == m && t.effects.len() == 0
            &&& t.model.state.bench == m.state.bench
            &&& t.model.vm.hud2_visible == m.vm.hud2_visible
        }),
{
    assert(nothing() + only_if(true, EffectView::Publish) =~= seq![EffectView::Publish]);
}

// ---------------------------------------------------------------------------
// The panel
// ---------------------------------------------------------------------------

/// The hot key turns the panel on or off. Turned on while a game is loaded, played or
/// reconnected to, it stays for half a minute; otherwise until further notice.
pub proof fn law_hotkey_turns_the_panel(m: LoopView, config: AppConfig)
    ensures
        ({
            let t = take_turn(m, config, AppEventView::HotKeyF1);
            let phase = m.vm.current_phase;
            &&& t.model.vm.hud1_visible == !m.vm.hud1_visible
            &&& t.model.hide_timer == if !m.vm.hud1_visible && (phase == "InProgress"@ || phase
                == "GameStart"@ || phase == "Reconnect"@) {
                Some(30u32)
            } else {
                None
            }
            &&& t.effects == seq![EffectView::Publish]
            &&& t.model.accept_timer == m.accept_timer
            &&& t.model.my_scores == m.my_scores && t.model.their_scores == m.their_scores
        }),
{
    assert(nothing() + only_if(true, EffectView::Publish) =~= seq![EffectView::Publish]);
}

/// A second takes one off each countdown that runs, and changes nothing else but to hide the
/// panel when its countdown ends, which alone is published.
pub proof fn law_second_passes(m: LoopView, config: AppConfig)
    ensures
        ({
            let t = take_turn(m, config, AppEventView::Tick);
            &&& m.hide_timer is None ==> t.model.hide_timer is None
            &&& m.hide_timer is Some && m.hide_timer->0 > 0 ==> t.model.hide_timer == Some(
                (m.hide_timer->0 - 1) as u32,
            )
            &&& m.accept_timer is None ==> t.model.accept_timer is None
            &&& m.accept_timer is Some && m.accept_timer->0 > 1 ==> t.model.accept_timer == Some(
                (m.accept_timer->0 - 1) as u64,
            )
            &&& m.accept_timer == Some(1u64) ==> t.model.accept_timer is None
            &&& m.hide_timer == Some(1u32) ==> !t.model.vm.hud1_visible
            &&& m.hide_timer != Some(1u32) ==> t.model.vm == m.vm
            &&& t.effects.contains(EffectView::Publish) <==> m.hide_timer == Some(1u32)
            &&& t.model == (LoopView {
                hide_timer: t.model.hide_timer,
                accept_timer: t.model.accept_timer,
                vm: t.model.vm,
                ..m
            })
            &&& t.model.vm.hud1_lines == m.vm.hud1_lines
            &&& t.model.vm.hud2_visible == m.vm.hud2_visible
        }),
{
    broadcast use lemma_contains_only_if;

}

/// The scores hold the line for the player.
pub open spec fn shows(scores: ScoresView, puuid: Seq<char>, line: Seq<char>) -> bool {
    exists|i: int| 0 <= i < scores.len() && #[trigger] scores[i] == (puuid, line)
}

proof fn lemma_with_score(
    scores: ScoresView,
    puuid: Seq<char>,
    line: Seq<char>,
    other: Seq<char>,
    text: Seq<char>,
)
    requires
        one_each(scores),
        other != puuid,
    ensures
        shows(with_score(scores, puuid, line), puuid, line),
        shows(with_score(scores, puuid, line), other, text) == shows(scores, other, text),
        with_score(scores, puuid, line).len() > 0,
{
    let after = with_score(scores, puuid, line);
    if has_score(scores, puuid) {
        let i = choose|i: int| 0 <= i < scores.len() && #[trigger] scores[i].0 == puuid;
        assert(after[i] == (puuid, line));
    } else {
        assert(after[scores.len() as int] == (puuid, line));
    }
    if shows(scores, other, text) {
        let i = choose|i: int| 0 <= i < scores.len() && #[trigger] scores[i] == (other, text);
        assert(after[i] == (other, text));
    }
    if shows(after, other, text) {
        let i = choose|i: int| 0 <= i < after.len() && #[trigger] after[i] == (other, text);
        assert(scores[i] == (other, text));
    }
}

/// A result for a player is a line of their own team: among the player's team or among the
/// enemies, as the result says, and in place of an earlier one; the lines of the others, of
/// the other team and the message on premade groups stay as they are.
pub proof fn law_result_goes_to_its_team(
    m: LoopView,
    config: AppConfig,
    puuid: Seq<char>,
    line: Seq<char>,
    is_enemy: bool,
    other: Seq<char>,
    text: Seq<char>,
)
    requires
        m.well_formed(),
        other != puuid,
    ensures
        ({
            let t = take_turn(
                m,
                config,
                AppEventView::ScoutResult { puuid, content: line, is_premade: false, is_enemy },
            );
            &&& is_enemy ==> t.model.my_scores == m.my_scores && shows(
                t.model.their_scores,
                puuid,
                line,
            ) && shows(t.model.their_scores, other, text) == shows(m.their_scores, other, text)
            &&& !is_enemy ==> t.model.their_scores == m.their_scores && shows(
                t.model.my_scores,
                puuid,
                line,
            ) && shows(t.model.my_scores, other, text) == shows(m.my_scores, other, text)
            &&& t.model.premade_msg == m.premade_msg
            &&& t.effects == seq![EffectView::Publish]
            &&& t.model.state == m.state
            &&& t.model.vm.hud1_visible == m.vm.hud1_visible
        }),
{
    lemma_with_score(m.my_scores, puuid, line, other, text);
    lemma_with_score(m.their_scores, puuid, line, other, text);
    assert(nothing() + only_if(true, EffectView::Publish) =~= seq![EffectView::Publish]);
}

/// A message on premade groups replaces the earlier one and leaves the lines of the players.
pub proof fn law_premade_message_is_replaced(
    m: LoopView,
    config: AppConfig,
    puuid: Seq<char>,
    message: Seq<char>,
    is_enemy: bool,
)
    ensures
        ({
            let after = take_turn(
                m,
                config,
                AppEventView::ScoutResult { puuid, content: message, is_premade: true, is_enemy },
            ).model;
            &&& after.premade_msg == message
            &&& after.my_scores == m.my_scores
            &&& after.their_scores == m.their_scores
        }),
{
}

/// The panel shows all that is known: the lines of the message on premade groups with an
/// empty line behind them, then the player's team under its heading, then the enemies under
/// theirs after an empty line; each team in ascending order, with the lines that are known
/// of it and no others. A part of which nothing is known is left out.
pub proof fn law_panel_shows_what_is_known(
    m: LoopView,
    config: AppConfig,
    puuid: Seq<char>,
    content: Seq<char>,
    is_premade: bool,
    is_enemy: bool,
)
    ensures
        ({
            let after = take_turn(
                m,
                config,
                AppEventView::ScoutResult { puuid, content, is_premade, is_enemy },
            ).model;
            let lines = after.vm.hud1_lines;
            let message = if after.premade_msg.len() > 0 {
                lines_of(after.premade_msg).push(Seq::empty())
            } else {
                Seq::empty()
            };
            let mine = after.my_scores;
            let theirs = after.their_scores;
            let own: int = if mine.len() > 0 {
                mine.len() as int + 1
            } else {
                0
            };
            let all: int = if theirs.len() > 0 {
                theirs.len() as int + 2
            } else {
                0
            };
            &&& lines.len() == message.len() + own + all
            &&& lines.subrange(0, message.len() as int) == message
            &&& mine.len() > 0 ==> {
                let part = lines.subrange(message.len() as int + 1, message.len() + own);
                &&& lines[message.len() as int] == "[我方评分]"@
                &&& part.to_multiset() == Seq::new(mine.len(), |i: int| mine[i].1).to_multiset()
                &&& sorted_by(part, text_order())
            }
            &&& theirs.len() > 0 ==> {
                let part = lines.subrange(message.len() + own + 2, message.len() + own + all);
                &&& lines[message.len() + own] == Seq::<char>::empty()
                &&& lines[message.len() + own + 1] == "[敌方评分]"@
                &&& part.to_multiset() == Seq::new(theirs.len(), |i: int| theirs[i].1).to_multiset()
                &&& sorted_by(part, text_order())
            }
        }),
{
    let after = take_turn(
        m,
        config,
        AppEventView::ScoutResult { puuid, content, is_premade, is_enemy },
    ).model;
    let lines = after.vm.hud1_lines;
    let message = if after.premade_msg.len() > 0 {
        lines_of(after.premade_msg).push(Seq::empty())
    } else {
        Seq::empty()
    };
    let mine = after.my_scores;
    let theirs = after.their_scores;
    let own: int = if mine.len() > 0 {
        mine.len() as int + 1
    } else {
        0
    };
    let all: int = if theirs.len() > 0 {
        theirs.len() as int + 2
    } else {
        0
    };
    lemma_sorted_lines(mine);
    lemma_sorted_lines(theirs);
    assert(lines.subrange(0, message.len() as int) =~= message);
    if mine.len() > 0 {
        assert(lines.subrange(message.len() as int + 1, message.len() + own) =~= sorted_texts(
            score_lines(mine),
        ));
    }
    if theirs.len() > 0 {
        assert(lines.subrange(message.len() + own + 2, message.len() + own + all) =~= sorted_texts(
            score_lines(theirs),
        ));
    }
}

proof fn lemma_sorted_lines(scores: ScoresView)
    ensures
        sorted_texts(score_lines(scores)).len() == scores.len(),
        sorted_texts(score_lines(scores)).to_multiset() == Seq::new(
            scores.len(),
            |i: int| scores[i].1,
        ).to_multiset(),
        sorted_by(sorted_texts(score_lines(scores)), text_order()),
{
    lemma_sorted_texts(score_lines(scores), score_lines(scores));
    assert(score_lines(scores) =~= Seq::new(scores.len(), |i: int| scores[i].1));
}

// ---------------------------------------------------------------------------
// The client, the windows and the tray
// ---------------------------------------------------------------------------

/// The client is known from when it connects until it is gone, and from nothing else.
pub proof fn law_client_is_known_while_connected(m: LoopView, config: AppConfig, e: AppEventView)
    ensures
        ({
            let after = take_turn(m, config, e).model;
            &&& e matches AppEventView::LcuConnected(address) ==> after.api == Some(address)
                && after.vm.is_connected && after.vm.hud1_visible && after.vm.hud1_title
                == "已连接 LCU"@
            &&& e is LcuDisconnected ==> after.api is None && !after.vm.is_connected
                && after.vm.hud1_title == "等待 LCU 连接..."@ && after.vm.current_phase
                == "Disconnected"@
            &&& !(e is LcuConnected) && !(e is LcuDisconnected) ==> after.api == m.api
                && after.vm.is_connected == m.vm.is_connected
        }),
        fresh_loop().api is None,
{
}

/// A connection begins the tasks that go with the client, after ending those before.
pub proof fn law_connection_begins_tasks(m: LoopView, config: AppConfig, address: Seq<char>)
    ensures
        ({
            let t = take_turn(m, config, AppEventView::LcuConnected(address));
            &&& t.model.tasks
            &&& t.effects.last() == EffectView::StartLcuTasks
            &&& t.effects.contains(EffectView::Publish)
            &&& t.effects.contains(EffectView::CancelLcuTasks) <==> m.tasks
        }),
{
    broadcast use lemma_contains_only_if;

}

/// What is known of the players changes by a result, a change of phase or the loss of the
/// client, and by nothing else.
pub proof fn law_results_stay(m: LoopView, config: AppConfig, e: AppEventView)
    requires
        !(e is ScoutResult),
        !(e is LcuPhaseChanged),
        !(e is LcuEvent),
        !(e is LcuDisconnected),
    ensures
        ({
            let after = take_turn(m, config, e).model;
            &&& after.premade_msg == m.premade_msg
            &&& after.my_scores == m.my_scores
            &&& after.their_scores == m.their_scores
            &&& after.vm.hud1_lines == m.vm.hud1_lines
        }),
{
}

/// The snapshot follows the client's window: a new place or size is taken over with its zoom
/// factor and published, and one that is known already changes nothing.
pub proof fn law_window_is_followed(
    m: LoopView,
    config: AppConfig,
    x: i32,
    y: i32,
    width: i32,
    height: i32,
    zoom_scale: u64,
)
    ensures
        ({
            let t = take_turn(
                m,
                config,
                AppEventView::WindowRectUpdated { x, y, width, height, zoom_scale },
            );
            let rect = LcuRect { x, y, width, height };
            &&& t.model.vm.lcu_rect == rect
            &&& m.vm.lcu_rect == rect ==> t.model == m && t.effects.len() == 0
            &&& m.vm.lcu_rect != rect ==> t.model.vm.zoom_scale_bits == zoom_scale && t.effects
                == seq![EffectView::Publish]
            &&& t.model.vm.hud1_visible == m.vm.hud1_visible
            &&& t.model.vm.hud1_lines == m.vm.hud1_lines
            &&& t.model.vm.hud2_visible == m.vm.hud2_visible
        }),
{
    assert(nothing() + only_if(true, EffectView::Publish) =~= seq![EffectView::Publish]);
}

/// A request to fix the window is passed on as it is, and changes nothing.
pub proof fn law_window_fix_is_passed_on(m: LoopView, config: AppConfig, zoom: u64, forced: bool)
    ensures
        ({
            let t = take_turn(m, config, AppEventView::RequestWindowFix { zoom, forced });
            &&& t.model == m
            &&& t.effects == seq![EffectView::FixWindowFor { zoom, forced }]
        }),
{
    assert(nothing() + only_if(true, EffectView::FixWindowFor { zoom, forced })
        =~= seq![EffectView::FixWindowFor { zoom, forced }]);
}

/// Each choice of the tray menu does what it says: a switch turns its own option and has the
/// options kept, and every other choice has its own effect and leaves the options alone.
pub proof fn law_tray_choices(m: LoopView, config: AppConfig)
    requires
        m.api is Some,
    ensures
        ({
            let turn = |a: TrayAction| take_turn(m, config, AppEventView::TrayAction(a));
            &&& turn(TrayAction::FixWindow).effects == seq![EffectView::FixWindow]
            &&& turn(TrayAction::ReloadUx).effects == seq![EffectView::ReloadUx]
            &&& turn(TrayAction::PlayAgain).effects == seq![EffectView::PlayAgain]
            &&& turn(TrayAction::FindForgottenLoot).effects == seq![EffectView::FindForgottenLoot]
            &&& turn(TrayAction::ToggleAutoAccept).effects == seq![EffectView::SaveConfig]
            &&& turn(TrayAction::ToggleAutoHonor).effects == seq![EffectView::SaveConfig]
            &&& turn(TrayAction::TogglePremadeChamp).effects == seq![EffectView::SaveConfig]
            &&& turn(TrayAction::ToggleMemoryMonitor).effects == seq![EffectView::SaveConfig]
            &&& turn(TrayAction::FixWindow).config == config
            &&& turn(TrayAction::ReloadUx).config == config
            &&& turn(TrayAction::PlayAgain).config == config
            &&& turn(TrayAction::FindForgottenLoot).config == config
            &&& turn(TrayAction::Exit).config == config
            &&& turn(TrayAction::ToggleAutoAccept).config == (AppConfig {
                auto_accept_enabled: !config.auto_accept_enabled,
                ..config
            })
            &&& turn(TrayAction::ToggleAutoHonor).config == (AppConfig {
                auto_honor_skip: !config.auto_honor_skip,
                ..config
            })
            &&& turn(TrayAction::TogglePremadeChamp).config == (AppConfig {
                premade_champ_select: !config.premade_champ_select,
                ..config
            })
            &&& turn(TrayAction::ToggleMemoryMonitor).config == (AppConfig {
                memory_monitor: !config.memory_monitor,
                ..config
            })
        }),
        forall|a: TrayAction|
            (#[trigger] take_turn(m, config, AppEventView::TrayAction(a))).model == m,
{
    assert forall|a: TrayAction| #[trigger]
        take_turn(m, config, AppEventView::TrayAction(a)).effects == seq![tray_effect(a)] by {
        assert(nothing() + only_if(true, tray_effect(a)) =~= seq![tray_effect(a)]);
    }
}

/// The options of a user who has set none: everything is done for them, and a match is
/// accepted after five seconds.
pub proof fn law_options_by_default()
    ensures
        ({
            let c = default_config();
            &&& c.auto_accept_enabled && c.auto_honor_skip && c.premade_champ_select
                && c.premade_ingame && c.memory_monitor
            &&& c.auto_accept_delay_secs == 5
            &&& c.memory_threshold_mb == 1500
            &&& c.opacity == 95
        }),
{
}

/// A countdown that has reached zero stays there, and a second that passes does nothing more
/// for it.
pub proof fn law_countdown_ends_at_zero(m: LoopView, config: AppConfig)
    requires
        m.hide_timer == Some(0u32),
        m.accept_timer == Some(0u64) || m.accept_timer is None,
    ensures
        take_turn(m, config, AppEventView::Tick).model.hide_timer == m.hide_timer,
        take_turn(m, config, AppEventView::Tick).model.accept_timer == m.accept_timer,
        !take_turn(m, config, AppEventView::Tick).effects.contains(EffectView::AcceptReadyCheck),
{
    broadcast use lemma_contains_only_if;

}

} // verus!
