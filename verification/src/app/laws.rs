//! What holds of the main loop as a whole, over one or more of its turns.

use crate::app::config::AppConfig;
use crate::app::event::{AppEventView, TrayAction};
use crate::app::main_loop::{
    fresh_loop, has_score, in_game_process, nothing, on_bench_click, on_connected, on_disconnected,
    on_hotkey, on_phase, on_quit, on_ready_check, on_scout_result, on_session, on_tick, one_each,
    only_if, playing, score_lines, take_turn, toggled, tray_effect, with_score, EffectView, LoopView, ScoresView,
    HIDE_AFTER_SECS, RECALL_SECS,
};
use crate::json::JsonView;
use crate::lcu::api::gameflow;
use crate::text::{lemma_sorted_texts, sorted_texts};
use vstd::prelude::*;

verus! {

// ---------------------------------------------------------------------------
// Every turn
// ---------------------------------------------------------------------------

/// The slot that is highlighted is the one whose champion is being sniped.
pub open spec fn highlights_pick(m: LoopView) -> bool {
    m.vm.hud2_selected_slot == m.state.pick_slot
}

/// The new phase, where the event is a change of phase.
pub open spec fn new_phase(e: AppEventView) -> Option<Seq<char>> {
    match e {
        AppEventView::LcuPhaseChanged(phase) => Some(phase),
        AppEventView::LcuEvent(e) => if e.uri == "/lol-gameflow/v1/gameflow-phase"@ {
            e.payload.text()
        } else {
            None
        },
        _ => None,
    }
}

/// The loop starts with nothing highlighted, and every turn keeps it so that the slot
/// that is highlighted is the one whose champion is being sniped.
pub proof fn law_highlight_is_pick(m: LoopView, config: AppConfig, e: AppEventView)
    ensures
        highlights_pick(fresh_loop()),
        highlights_pick(m) ==> highlights_pick(take_turn(m, config, e).model),
{
}

/// Whether the bench layer is shown depends on the phase alone: it is shown from a change
/// to champion select until the next change of phase, whatever else happens.
pub proof fn law_bench_layer_follows_phase(m: LoopView, config: AppConfig, e: AppEventView)
    ensures
        take_turn(m, config, e).model.vm.hud2_visible == match new_phase(e) {
            Some(phase) => phase == gameflow::CHAMP_SELECT@,
            None => m.vm.hud2_visible,
        },
{
}

/// What a list of effects with one more under a condition holds.
pub broadcast proof fn lemma_contains_only_if(
    base: Seq<EffectView>,
    condition: bool,
    effect: EffectView,
    x: EffectView,
)
    ensures
        #[trigger] (base + only_if(condition, effect)).contains(x) == (base.contains(x) || (condition
            && effect == x)),
{
    let whole = base + only_if(condition, effect);
    if base.contains(x) {
        let i = base.index_of(x);
        assert(whole[i] == x);
    }
    if condition && effect == x {
        assert(whole[base.len() as int] == x);
    }
    if whole.contains(x) {
        let i = whole.index_of(x);
        if i < base.len() {
            assert(base[i] == x);
        }
    }
}

/// Whatever changes in the snapshot is shown.
pub proof fn law_changes_are_published(m: LoopView, config: AppConfig, e: AppEventView)
    ensures
        take_turn(m, config, e).model.vm != m.vm ==> take_turn(m, config, e).effects.contains(
            EffectView::Publish,
        ),
{
    broadcast use lemma_contains_only_if;

}

/// Only the event that ends the program ends the loop.
pub proof fn law_only_quit_stops(m: LoopView, config: AppConfig, e: AppEventView)
    ensures
        take_turn(m, config, e).effects.contains(EffectView::Stop) <==> e is Quit,
{
    match e {
        AppEventView::LcuPhaseChanged(phase) => {
            lemma_phase_does_not_stop(m, config, phase);
        },
        AppEventView::LcuEvent(event) => {
            if event.payload.text() is Some {
                lemma_phase_does_not_stop(m, config, event.payload.text()->0);
            }
            lemma_session_does_not_stop(m, config, event.payload);
            lemma_ready_check_does_not_stop(m, config, event.payload);
        },
        AppEventView::LcuSessionUpdated(session) => {
            lemma_session_does_not_stop(m, config, session);
        },
        AppEventView::TrayAction(action) => {
            lemma_contains_only_if(nothing(), true, tray_effect(action), EffectView::Stop);
        },
        _ => {
            lemma_rest_does_not_stop(m, config, e);
        },
    }
}

proof fn lemma_phase_does_not_stop(m: LoopView, config: AppConfig, phase: Seq<char>)
    ensures
        !on_phase(m, config, phase).1.contains(EffectView::Stop),
{
    broadcast use lemma_contains_only_if;

}

proof fn lemma_session_does_not_stop(m: LoopView, config: AppConfig, session: JsonView)
    ensures
        !on_session(m, config, session).1.contains(EffectView::Stop),
{
    broadcast use lemma_contains_only_if;

}

proof fn lemma_ready_check_does_not_stop(m: LoopView, config: AppConfig, payload: JsonView)
    ensures
        !on_ready_check(m, config, payload).1.contains(EffectView::Stop),
{
    broadcast use lemma_contains_only_if;

}

proof fn lemma_rest_does_not_stop(m: LoopView, config: AppConfig, e: AppEventView)
    requires
        !(e is LcuPhaseChanged) && !(e is LcuEvent) && !(e is LcuSessionUpdated) && !(e
            is TrayAction),
    ensures
        take_turn(m, config, e).effects.contains(EffectView::Stop) <==> e is Quit,
{
    broadcast use lemma_contains_only_if;

}

/// When the program ends, nothing that was begun goes on, and the loop ends last.
pub proof fn law_quitting_ends_everything(m: LoopView)
    ensures
        ({
            let (after, effects) = on_quit(m);
            &&& !after.tasks && !after.scout && !after.sniper
            &&& m.tasks ==> effects.contains(EffectView::CancelLcuTasks)
            &&& m.scout ==> effects.contains(EffectView::CancelScout)
            &&& m.sniper ==> effects.contains(EffectView::CancelSniper)
            &&& effects.last() == EffectView::Stop
        }),
{
    broadcast use lemma_contains_only_if;

}

/// The options change only by a choice from the tray menu, and then they are kept.
pub proof fn law_config_changes_are_saved(m: LoopView, config: AppConfig, e: AppEventView)
    ensures
        take_turn(m, config, e).config != config ==> e is TrayAction && take_turn(
            m,
            config,
            e,
        ).effects.contains(EffectView::SaveConfig),
{
    let t = take_turn(m, config, e);
    if t.config != config {
        assert(t.effects[0] == EffectView::SaveConfig);
    }
}

/// An effect of a kind comes after a cancellation.
pub open spec fn follows(effects: Seq<EffectView>, i: int, cancel: EffectView) -> bool {
    exists|j: int| 0 <= j < i && #[trigger] effects[j] == cancel
}

/// Where sniping is begun while something is being sniped, that is cancelled first.
pub proof fn law_sniping_cancelled_first(m: LoopView, index: usize, i: int)
    requires
        m.sniper,
        0 <= i < on_bench_click(m, index).1.len(),
        on_bench_click(m, index).1[i] is StartSniper,
    ensures
        follows(on_bench_click(m, index).1, i, EffectView::CancelSniper),
{
    assert(on_bench_click(m, index).1[0] == EffectView::CancelSniper);
}

/// Where the client is connected anew, the tasks for the earlier connection are cancelled
/// first.
pub proof fn law_tasks_cancelled_first(m: LoopView, address: Seq<char>, i: int)
    requires
        m.tasks,
        0 <= i < on_connected(m, address).1.len(),
        on_connected(m, address).1[i] is StartLcuTasks,
    ensures
        follows(on_connected(m, address).1, i, EffectView::CancelLcuTasks),
{
    assert(on_connected(m, address).1[1] == EffectView::CancelLcuTasks);
}

/// Where the players are looked at anew, looking at them is cancelled first.
pub proof fn law_scouting_cancelled_first(
    m: LoopView,
    config: AppConfig,
    phase: Seq<char>,
    session: JsonView,
    i: int,
)
    requires
        m.scout,
    ensures
        0 <= i < on_phase(m, config, phase).1.len() && on_phase(m, config, phase).1[i]
            is StartIngameScout ==> follows(
            on_phase(m, config, phase).1,
            i,
            EffectView::CancelScout,
        ),
        0 <= i < on_session(m, config, session).1.len() && on_session(m, config, session).1[i]
            is StartScout ==> follows(
            on_session(m, config, session).1,
            i,
            EffectView::CancelScout,
        ),
{
    let a = on_phase(m, config, phase).1;
    if 0 <= i < a.len() && a[i] is StartIngameScout {
        assert(i >= 1);
        assert(a[i - 1] == EffectView::CancelScout);
    }
    let b = on_session(m, config, session).1;
    if 0 <= i < b.len() && b[i] is StartScout {
        assert(b[0] == EffectView::CancelScout);
    }
}

// ---------------------------------------------------------------------------
// Results
// ---------------------------------------------------------------------------

/// When the client is gone nothing is known of the players any more, nothing is shown of
/// them, and nothing that was begun for the client goes on.
pub proof fn law_disconnection_clears(m: LoopView)
    ensures
        ({
            let (after, effects) = on_disconnected(m);
            &&& after.premade_msg.len() == 0
            &&& after.my_scores.len() == 0
            &&& after.their_scores.len() == 0
            &&& after.vm.hud1_lines.len() == 0
            &&& after.api is None
            &&& !after.tasks && !after.scout && !after.sniper
            &&& m.tasks ==> effects.contains(EffectView::CancelLcuTasks)
            &&& m.scout ==> effects.contains(EffectView::CancelScout)
            &&& m.sniper ==> effects.contains(EffectView::CancelSniper)
        }),
{
    let effects = on_disconnected(m).1;
    if m.tasks {
        assert(effects[0] == EffectView::CancelLcuTasks);
    }
    if m.scout {
        let i: int = if m.tasks {
            1
        } else {
            0
        };
        assert(effects[i] == EffectView::CancelScout);
    }
    if m.sniper {
        assert(effects[effects.len() - 2] == EffectView::CancelSniper);
    }
}

/// Outside a game nothing is known of the players, and nothing is shown of them.
pub proof fn law_leaving_the_game_clears(m: LoopView, config: AppConfig, phase: Seq<char>)
    requires
        !in_game_process(phase),
    ensures
        ({
            let after = on_phase(m, config, phase).0;
            &&& after.premade_msg.len() == 0
            &&& after.my_scores.len() == 0
            &&& after.their_scores.len() == 0
            &&& after.vm.hud1_lines.len() == 0
            &&& !after.scout
            &&& after.hide_timer is None
            &&& after.state.pick_slot is None
        }),
{
    reveal_strlit("ChampSelect");
    reveal_strlit("InProgress");
}

/// In a game the players are looked at once: a second change to a game phase does not have
/// them looked at again as long as something came of it, unless the loading screen comes
/// back, which counts as a new game.
pub proof fn law_players_looked_at_once(m: LoopView, config: AppConfig)
    ensures
        m.state.ingame_done && (m.my_scores.len() > 0 || m.their_scores.len() > 0) ==> !on_phase(
            m,
            config,
            gameflow::IN_PROGRESS@,
        ).1.contains(EffectView::StartIngameScout),
        on_phase(m, config, gameflow::IN_PROGRESS@).0.state.ingame_done,
{
    reveal_strlit("InProgress");
    reveal_strlit("ChampSelect");
    reveal_strlit("EndOfGame");
    reveal_strlit("None");
}

proof fn lemma_score_lines_multiset(scores: ScoresView, puuid: Seq<char>, line: Seq<char>)
    requires
        !has_score(scores, puuid),
    ensures
        score_lines(with_score(scores, puuid, line)).to_multiset() == score_lines(
            scores,
        ).to_multiset().insert(line),
{
    assert(score_lines(with_score(scores, puuid, line)) =~= score_lines(scores).push(line));
    vstd::seq_lib::to_multiset_build(score_lines(scores), line);
}

/// The panel does not depend on the order in which the results for two players arrive.
pub proof fn law_result_order_does_not_matter(
    m: LoopView,
    a: Seq<char>,
    line_a: Seq<char>,
    enemy_a: bool,
    b: Seq<char>,
    line_b: Seq<char>,
    enemy_b: bool,
)
    requires
        a != b,
        !has_score(m.my_scores, a) && !has_score(m.their_scores, a),
        !has_score(m.my_scores, b) && !has_score(m.their_scores, b),
    ensures
        ({
            let first_a = on_scout_result(
                on_scout_result(m, a, line_a, false, enemy_a).0,
                b,
                line_b,
                false,
                enemy_b,
            ).0;
            let first_b = on_scout_result(
                on_scout_result(m, b, line_b, false, enemy_b).0,
                a,
                line_a,
                false,
                enemy_a,
            ).0;
            first_a.vm == first_b.vm
        }),
{
    let one = on_scout_result(m, a, line_a, false, enemy_a).0;
    let other = on_scout_result(m, b, line_b, false, enemy_b).0;
    let first_a = on_scout_result(one, b, line_b, false, enemy_b).0;
    let first_b = on_scout_result(other, a, line_a, false, enemy_a).0;
    if enemy_a == enemy_b {
        let scores = if enemy_a {
            m.their_scores
        } else {
            m.my_scores
        };
        lemma_two_scores(scores, a, line_a, b, line_b);
    }
    assert(first_a.vm.hud1_lines == first_b.vm.hud1_lines);
}

proof fn lemma_two_scores(
    scores: ScoresView,
    a: Seq<char>,
    line_a: Seq<char>,
    b: Seq<char>,
    line_b: Seq<char>,
)
    requires
        a != b,
        !has_score(scores, a),
        !has_score(scores, b),
    ensures
        ({
            let ab = with_score(with_score(scores, a, line_a), b, line_b);
            let ba = with_score(with_score(scores, b, line_b), a, line_a);
            &&& ab.len() == ba.len()
            &&& sorted_texts(score_lines(ab)) == sorted_texts(score_lines(ba))
        }),
{
    let with_a = with_score(scores, a, line_a);
    let with_b = with_score(scores, b, line_b);
    assert(with_a == scores.push((a, line_a)));
    assert(with_b == scores.push((b, line_b)));
    if has_score(with_a, b) {
        let i = choose|i: int| 0 <= i < with_a.len() && #[trigger] with_a[i].0 == b;
        assert(i < scores.len() ==> scores[i].0 == b);
        assert(false);
    }
    if has_score(with_b, a) {
        let i = choose|i: int| 0 <= i < with_b.len() && #[trigger] with_b[i].0 == a;
        assert(i < scores.len() ==> scores[i].0 == a);
        assert(false);
    }
    let ab = with_score(with_a, b, line_b);
    let ba = with_score(with_b, a, line_a);
    lemma_score_lines_multiset(scores, a, line_a);
    lemma_score_lines_multiset(scores, b, line_b);
    lemma_score_lines_multiset(with_a, b, line_b);
    lemma_score_lines_multiset(with_b, a, line_a);
    assert(score_lines(ab).to_multiset() =~= score_lines(ba).to_multiset());
    lemma_sorted_texts(score_lines(ab), score_lines(ba));
}

/// A later result for a player replaces the earlier one: no player has two lines.
pub proof fn law_one_line_per_player(
    m: LoopView,
    puuid: Seq<char>,
    content: Seq<char>,
    is_premade: bool,
    is_enemy: bool,
)
    requires
        m.well_formed(),
    ensures
        on_scout_result(m, puuid, content, is_premade, is_enemy).0.well_formed(),
{
    lemma_one_each(m.my_scores, puuid, content);
    lemma_one_each(m.their_scores, puuid, content);
}

proof fn lemma_one_each(scores: ScoresView, puuid: Seq<char>, line: Seq<char>)
    requires
        one_each(scores),
    ensures
        one_each(with_score(scores, puuid, line)),
{
    let after = with_score(scores, puuid, line);
    assert forall|i: int, j: int| 0 <= i < j < after.len() implies #[trigger] after[i].0
        != #[trigger] after[j].0 by {
        if has_score(scores, puuid) {
            let k = choose|k: int| 0 <= k < scores.len() && #[trigger] scores[k].0 == puuid;
            assert(after[i].0 == scores[i].0 && after[j].0 == scores[j].0);
        } else if j < scores.len() {
            assert(scores[i].0 != scores[j].0);
        } else {
            assert(scores[i].0 != puuid);
        }
    }
}

// ---------------------------------------------------------------------------
// Countdowns
// ---------------------------------------------------------------------------

/// The loop after so many seconds in which nothing else happens.
pub open spec fn after_ticks(m: LoopView, n: nat) -> LoopView
    decreases n,
{
    if n == 0 {
        m
    } else {
        on_tick(after_ticks(m, (n - 1) as nat)).0
    }
}

/// What is done in the last of so many seconds in which nothing else happens.
pub open spec fn effects_of_tick(m: LoopView, n: nat) -> Seq<EffectView> {
    if n == 0 {
        nothing()
    } else {
        on_tick(after_ticks(m, (n - 1) as nat)).1
    }
}

/// The information panel is hidden when its countdown is over and not before, and all
/// that is known of the players is kept.
pub proof fn law_panel_hides_after_countdown(m: LoopView, t: u32, n: nat)
    requires
        m.hide_timer == Some(t),
        n <= t,
    ensures
        after_ticks(m, n).hide_timer == Some((t - n) as u32),
        after_ticks(m, n).vm.hud1_visible == (m.vm.hud1_visible && (n < t || t == 0)),
        after_ticks(m, n).vm.hud1_lines == m.vm.hud1_lines,
        after_ticks(m, n).premade_msg == m.premade_msg,
        after_ticks(m, n).my_scores == m.my_scores,
        after_ticks(m, n).their_scores == m.their_scores,
    decreases n,
{
    if n > 0 {
        law_panel_hides_after_countdown(m, t, (n - 1) as nat);
    }
}

/// In a game the information panel is shown for two minutes and is hidden then.
pub proof fn law_panel_hides_in_game(m: LoopView, config: AppConfig, phase: Seq<char>, n: nat)
    requires
        playing(phase),
        n <= HIDE_AFTER_SECS,
    ensures
        after_ticks(on_phase(m, config, phase).0, n).vm.hud1_visible == (n < HIDE_AFTER_SECS),
        after_ticks(on_phase(m, config, phase).0, n).vm.hud1_lines == m.vm.hud1_lines,
{
    law_panel_hides_after_countdown(on_phase(m, config, phase).0, HIDE_AFTER_SECS, n);
}

/// The hot key calls a hidden panel up in a game for half a minute, and shows it until
/// further notice outside a game; a panel that is shown it hides at once.
pub proof fn law_hotkey_recalls(m: LoopView, n: nat)
    requires
        n <= RECALL_SECS,
    ensures
        m.vm.hud1_visible ==> !on_hotkey(m).0.vm.hud1_visible,
        !m.vm.hud1_visible && (playing(m.vm.current_phase) || m.vm.current_phase
            == gameflow::RECONNECT@) ==> after_ticks(on_hotkey(m).0, n).vm.hud1_visible == (n
            < RECALL_SECS),
        !m.vm.hud1_visible && !(playing(m.vm.current_phase) || m.vm.current_phase
            == gameflow::RECONNECT@) ==> after_ticks(on_hotkey(m).0, n).vm.hud1_visible,
{
    let after = on_hotkey(m).0;
    if !m.vm.hud1_visible {
        if playing(m.vm.current_phase) || m.vm.current_phase == gameflow::RECONNECT@ {
            law_panel_hides_after_countdown(after, RECALL_SECS, n);
        } else {
            lemma_no_countdown(after, n);
        }
    }
}

proof fn lemma_no_countdown(m: LoopView, n: nat)
    requires
        m.hide_timer is None,
    ensures
        after_ticks(m, n).hide_timer is None,
        after_ticks(m, n).vm.hud1_visible == m.vm.hud1_visible,
    decreases n,
{
    if n > 0 {
        lemma_no_countdown(m, (n - 1) as nat);
    }
}

/// Pressing the hot key twice leaves the panel as it was, and it never touches the bench
/// layer, the lines of the panel, or anything that is being sniped.
pub proof fn law_hotkey_twice(m: LoopView)
    ensures
        on_hotkey(on_hotkey(m).0).0.vm == m.vm,
        on_hotkey(m).0.vm.hud2_visible == m.vm.hud2_visible,
        on_hotkey(m).0.vm.hud2_selected_slot == m.vm.hud2_selected_slot,
        on_hotkey(m).0.vm.hud1_lines == m.vm.hud1_lines,
        on_hotkey(m).0.state == m.state,
        on_hotkey(m).0.sniper == m.sniper,
        on_hotkey(m).0.scout == m.scout,
{
}

/// A match is accepted once its countdown is over and not before, once only, and only
/// while the client is connected.
pub proof fn law_match_accepted_after_delay(m: LoopView, config: AppConfig, payload: JsonView, n: nat)
    requires
        m.accept_timer is None,
        m.api is Some,
        config.auto_accept_enabled,
        config.auto_accept_delay_secs > 0,
        payload.text_field("state"@) == Some("InProgress"@),
    ensures
        ({
            let started = on_ready_check(m, config, payload).0;
            effects_of_tick(started, n).contains(EffectView::AcceptReadyCheck) <==> n
                == config.auto_accept_delay_secs
        }),
{
    let started = on_ready_check(m, config, payload).0;
    let t = config.auto_accept_delay_secs;
    lemma_accept_countdown(started, t, n);
    if n > 0 {
        lemma_accept_countdown(started, t, (n - 1) as nat);
        if n == t {
            assert(effects_of_tick(started, n)[0] == EffectView::AcceptReadyCheck);
        }
    }
}

proof fn lemma_accept_countdown(m: LoopView, t: u64, n: nat)
    requires
        m.accept_timer == Some(t),
        t > 0,
    ensures
        after_ticks(m, n).api == m.api,
        after_ticks(m, n).accept_timer == if n < t {
            Some((t - n) as u64)
        } else {
            None
        },
    decreases n,
{
    if n > 0 {
        lemma_accept_countdown(m, t, (n - 1) as nat);
    }
}

/// A ready check that is over, or one that is not to be accepted, stops the countdown, and
/// then no match is accepted.
pub proof fn law_countdown_can_be_stopped(m: LoopView, config: AppConfig, payload: JsonView, n: nat)
    requires
        payload.text_field("state"@) is Some,
        payload.text_field("state"@) != Some("InProgress"@) || !config.auto_accept_enabled,
    ensures
        !effects_of_tick(on_ready_check(m, config, payload).0, n).contains(
            EffectView::AcceptReadyCheck,
        ),
{
    let stopped = on_ready_check(m, config, payload).0;
    if n > 0 {
        lemma_no_accept_countdown(stopped, (n - 1) as nat);
    }
}

proof fn lemma_no_accept_countdown(m: LoopView, n: nat)
    requires
        m.accept_timer is None,
    ensures
        after_ticks(m, n).accept_timer is None,
    decreases n,
{
    if n > 0 {
        lemma_no_accept_countdown(m, (n - 1) as nat);
    }
}

// ---------------------------------------------------------------------------
// The tray menu and the bench
// ---------------------------------------------------------------------------

/// A switch in the tray menu, thrown twice, is as it was.
pub proof fn law_toggle_twice(config: AppConfig, action: TrayAction)
    ensures
        toggled(toggled(config, action), action) == config,
{
}

/// Without the client the tray menu does nothing, unless it is to end the program.
pub proof fn law_tray_needs_client(m: LoopView, config: AppConfig, action: TrayAction)
    requires
        m.api is None,
        action != TrayAction::Exit,
    ensures
        take_turn(m, config, AppEventView::TrayAction(action)).model == m,
        take_turn(m, config, AppEventView::TrayAction(action)).config == config,
        take_turn(m, config, AppEventView::TrayAction(action)).effects.len() == 0,
{
}

/// Exit in the tray menu ends the program, whether the client is connected or not.
pub proof fn law_exit_quits(m: LoopView, config: AppConfig)
    ensures
        take_turn(m, config, AppEventView::TrayAction(TrayAction::Exit)).effects
            == seq![EffectView::SendQuit],
{
    assert(nothing() + only_if(true, EffectView::SendQuit) =~= seq![EffectView::SendQuit]);
}

/// Clicking a bench slot twice gives the champion up again: whatever was being sniped
/// before, the first click snipes the champion and highlights its slot, the second cancels
/// it, and nothing is sniped or highlighted afterwards.
pub proof fn law_bench_click_twice(m: LoopView, index: usize)
    requires
        index < m.state.bench.len(),
        m.state.pick_slot != Some(index),
    ensures
        ({
            let first = on_bench_click(m, index);
            let second = on_bench_click(first.0, index);
            &&& first.0.state.pick_slot == Some(index)
            &&& first.0.vm.hud2_selected_slot == Some(index)
            &&& first.0.sniper
            &&& first.1.contains(EffectView::Publish)
            &&& second.0.state.pick_slot is None
            &&& second.0.vm.hud2_selected_slot is None
            &&& !second.0.sniper
            &&& second.1.contains(EffectView::CancelSniper)
            &&& second.1.contains(EffectView::Publish)
        }),
{
    broadcast use lemma_contains_only_if;

}

/// A click in a turn of the loop is a click on the bench, and touches no option.
pub proof fn law_bench_click_turn(m: LoopView, config: AppConfig, index: usize)
    ensures
        take_turn(m, config, AppEventView::BenchClick(index)).model == on_bench_click(m, index).0,
        take_turn(m, config, AppEventView::BenchClick(index)).effects == on_bench_click(m, index).1,
        take_turn(m, config, AppEventView::BenchClick(index)).config == config,
{
}

/// A click beyond the bench changes nothing, and nothing is done about it.
pub proof fn law_click_beyond_bench(m: LoopView, index: usize)
    requires
        index >= m.state.bench.len(),
    ensures
        on_bench_click(m, index).0 == m,
        on_bench_click(m, index).1.len() == 0,
{
}

} // verus!
