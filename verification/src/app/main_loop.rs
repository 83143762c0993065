//! The main loop: what each event changes, and what is to be done about it.
//!
//! `MainLoop::run` takes one turn of the loop. It changes the loop's own state and the
//! snapshot that the overlay shows, and returns the effects that the program around it
//! has to carry out, in order.

use crate::app::config::AppConfig;
use crate::app::event::{AppEvent, AppEventView, TrayAction};
use crate::app::premade::{
    extract_teams_from_session, roster_view, select_side, select_team, team_view, TeamView,
};
use crate::app::state::{fresh_runtime, RuntimeState, RuntimeView};
use crate::app::viewmodel::{blank_view, LcuRect, ViewModel, ViewModelView};
use crate::json::{Json, JsonView};
use crate::lcu::api::champ_select::bench_in;
use crate::lcu::api::{gameflow, LcuClient};
use crate::lcu::websocket::{LcuEvent, LcuEventView};
use crate::text::{concat, lines, lines_of, sort_strings, sorted_texts, str_eq, views};
use vstd::prelude::*;

verus! {

// ---------------------------------------------------------------------------
// Constants
// ---------------------------------------------------------------------------

/// How long the information panel stays after a game has begun, in seconds.
pub const HIDE_AFTER_SECS: u32 = 120;

/// How long the information panel stays after it was called up in a game, in seconds.
pub const RECALL_SECS: u32 = 30;

/// How long to wait after a game before the honor vote is skipped, in seconds.
pub const HONOR_DELAY_SECS: u64 = 2;

// ---------------------------------------------------------------------------
// Effects
// ---------------------------------------------------------------------------

/// Something to be done.
pub enum Effect {
    /// Show the snapshot as it now stands.
    Publish,
    /// Begin the tasks that run while the client is connected.
    StartLcuTasks,
    /// End them.
    CancelLcuTasks,
    /// End looking at the players.
    CancelScout,
    /// Look at the players of the running game.
    StartIngameScout,
    /// Look at the players of a champion select.
    StartScout { my_team: Vec<(String, String)>, my_side: Option<u32>, their_side: Option<u32> },
    /// Give up on the champion of a bench slot.
    CancelSniper,
    /// Try to get a champion from a bench slot.
    StartSniper { champion_id: i64, slot: usize },
    /// Accept the match.
    AcceptReadyCheck,
    /// Skip the honor vote after so many seconds.
    SkipHonorVote { delay_secs: u64 },
    /// Ask the client for its zoom factor and fix its window, whatever its shape.
    FixWindow,
    /// Fix the client's window for a zoom factor, and report where it then is.
    FixWindowFor { zoom: u64, forced: bool },
    /// Restart the client's interface.
    ReloadUx,
    /// Leave the screens after a game.
    PlayAgain,
    /// Look for loot that the player has forgotten.
    FindForgottenLoot,
    /// Keep the options.
    SaveConfig,
    /// Send the event that ends the program.
    SendQuit,
    /// End the loop.
    Stop,
}

/// What an `Effect` holds.
pub enum EffectView {
    Publish,
    StartLcuTasks,
    CancelLcuTasks,
    CancelScout,
    StartIngameScout,
    StartScout { my_team: TeamView, my_side: Option<u32>, their_side: Option<u32> },
    CancelSniper,
    StartSniper { champion_id: i64, slot: usize },
    AcceptReadyCheck,
    SkipHonorVote { delay_secs: u64 },
    FixWindow,
    FixWindowFor { zoom: u64, forced: bool },
    ReloadUx,
    PlayAgain,
    FindForgottenLoot,
    SaveConfig,
    SendQuit,
    Stop,
}

impl View for Effect {
    type V = EffectView;

    open spec fn view(&self) -> EffectView {
        match self {
            Effect::Publish => EffectView::Publish,
            Effect::StartLcuTasks => EffectView::StartLcuTasks,
            Effect::CancelLcuTasks => EffectView::CancelLcuTasks,
            Effect::CancelScout => EffectView::CancelScout,
            Effect::StartIngameScout => EffectView::StartIngameScout,
            Effect::StartScout { my_team, my_side, their_side } => EffectView::StartScout {
                my_team: team_view(my_team@),
                my_side: *my_side,
                their_side: *their_side,
            },
            Effect::CancelSniper => EffectView::CancelSniper,
            Effect::StartSniper { champion_id, slot } => EffectView::StartSniper {
                champion_id: *champion_id,
                slot: *slot,
            },
            Effect::AcceptReadyCheck => EffectView::AcceptReadyCheck,
            Effect::SkipHonorVote { delay_secs } => EffectView::SkipHonorVote {
                delay_secs: *delay_secs,
            },
            Effect::FixWindow => EffectView::FixWindow,
            Effect::FixWindowFor { zoom, forced } => EffectView::FixWindowFor {
                zoom: *zoom,
                forced: *forced,
            },
            Effect::ReloadUx => EffectView::ReloadUx,
            Effect::PlayAgain => EffectView::PlayAgain,
            Effect::FindForgottenLoot => EffectView::FindForgottenLoot,
            Effect::SaveConfig => EffectView::SaveConfig,
            Effect::SendQuit => EffectView::SendQuit,
            Effect::Stop => EffectView::Stop,
        }
    }
}

/// The views of some effects.
pub open spec fn effect_views(s: Seq<Effect>) -> Seq<EffectView> {
    Seq::new(s.len(), |i: int| s[i]@)
}

// ---------------------------------------------------------------------------
// Scores
// ---------------------------------------------------------------------------

/// The lines for some players, each with the player's identifier.
pub type ScoresView = Seq<(Seq<char>, Seq<char>)>;

/// There is a line for the player.
pub open spec fn has_score(scores: ScoresView, puuid: Seq<char>) -> bool {
    exists|i: int| 0 <= i < scores.len() && #[trigger] scores[i].0 == puuid
}

/// No player has two lines.
pub open spec fn one_each(scores: ScoresView) -> bool {
    forall|i: int, j: int|
        0 <= i < j < scores.len() ==> #[trigger] scores[i].0 != #[trigger] scores[j].0
}

/// The lines with a player's line added, in place of an earlier one.
pub open spec fn with_score(scores: ScoresView, puuid: Seq<char>, line: Seq<char>) -> ScoresView {
    if has_score(scores, puuid) {
        let i = choose|i: int| 0 <= i < scores.len() && #[trigger] scores[i].0 == puuid;
        scores.update(i, (puuid, line))
    } else {
        scores.push((puuid, line))
    }
}

/// The lines alone.
pub open spec fn score_lines(scores: ScoresView) -> Seq<Seq<char>> {
    Seq::new(scores.len(), |i: int| scores[i].1)
}

fn set_score(scores: &mut Vec<(String, String)>, puuid: String, line: String)
    requires
        one_each(team_view(old(scores)@)),
    ensures
        team_view(final(scores)@) == with_score(team_view(old(scores)@), puuid@, line@),
        one_each(team_view(final(scores)@)),
{
    let ghost before = team_view(scores@);
    let mut i: usize = 0;
    while i < scores.len()
        invariant
            i <= scores@.len(),
            before == team_view(scores@),
            before == team_view(old(scores)@),
            one_each(before),
            forall|k: int| 0 <= k < i ==> #[trigger] before[k].0 != puuid@,
        decreases scores@.len() - i,
    {
        if scores[i].0 == puuid {
            proof {
                assert(before[i as int].0 == puuid@);
                let c = choose|c: int| 0 <= c < before.len() && #[trigger] before[c].0 == puuid@;
                if c < i {
                    assert(before[c].0 != puuid@);
                } else if i < c {
                    assert(before[i as int].0 != before[c].0);
                }
            }
            let ghost entry = (puuid@, line@);
            scores.set(i, (puuid, line));
            proof {
                assert(team_view(scores@) =~= before.update(i as int, entry));
                assert forall|j: int, k: int|
                    0 <= j < k < team_view(scores@).len() implies #[trigger] team_view(scores@)[j].0
                    != #[trigger] team_view(scores@)[k].0 by {
                    assert(before[j].0 != before[k].0);
                }
            }
            return;
        }
        i += 1;
    }
    let ghost entry = (puuid@, line@);
    scores.push((puuid, line));
    proof {
        assert(team_view(scores@) =~= before.push(entry));
        assert forall|j: int, k: int|
            0 <= j < k < team_view(scores@).len() implies #[trigger] team_view(scores@)[j].0
            != #[trigger] team_view(scores@)[k].0 by {
            if k < before.len() {
                assert(before[j].0 != before[k].0);
            } else {
                assert(before[j].0 != puuid@);
            }
        }
    }
}

fn sorted_lines(scores: &Vec<(String, String)>) -> (r: Vec<String>)
    ensures
        views(r@) == sorted_texts(score_lines(team_view(scores@))),
{
    let mut v: Vec<String> = Vec::new();
    let mut i: usize = 0;
    while i < scores.len()
        invariant
            i <= scores@.len(),
            v@.len() == i,
            forall|k: int| 0 <= k < i ==> #[trigger] v@[k]@ == scores@[k].1@,
        decreases scores@.len() - i,
    {
        v.push(scores[i].1.clone());
        i += 1;
    }
    assert(views(v@) =~= score_lines(team_view(scores@)));
    sort_strings(&v)
}

/// The lines of the information panel: the message on premade groups and an empty line;
/// the scores of the player's own team; an empty line and the scores of the other team.
/// Parts without content are left out, and scores stand in ascending order.
pub open spec fn panel_lines(
    premade: Seq<char>,
    mine: ScoresView,
    theirs: ScoresView,
) -> Seq<Seq<char>> {
    (if premade.len() > 0 {
        lines_of(premade).push(Seq::empty())
    } else {
        Seq::empty()
    }) + (if mine.len() > 0 {
        seq!["[我方评分]"@] + sorted_texts(score_lines(mine))
    } else {
        Seq::empty()
    }) + (if theirs.len() > 0 {
        seq![Seq::empty(), "[敌方评分]"@] + sorted_texts(score_lines(theirs))
    } else {
        Seq::empty()
    })
}

fn extend(v: &mut Vec<String>, more: Vec<String>)
    ensures
        views(final(v)@) == views(old(v)@) + views(more@),
{
    let ghost before = v@;
    let mut i: usize = 0;
    while i < more.len()
        invariant
            i <= more@.len(),
            views(v@) == views(before) + views(more@).subrange(0, i as int),
        decreases more@.len() - i,
    {
        let ghost so_far = views(v@);
        v.push(more[i].clone());
        assert(views(v@) =~= so_far.push(more@[i as int]@));
        assert(views(v@) =~= views(before) + views(more@).subrange(0, i + 1));
        i += 1;
    }
    assert(views(more@).subrange(0, more@.len() as int) =~= views(more@));
}

fn panel(premade: &str, mine: &Vec<(String, String)>, theirs: &Vec<(String, String)>) -> (r: Vec<
    String,
>)
    ensures
        views(r@) == panel_lines(premade@, team_view(mine@), team_view(theirs@)),
{
    let mut r: Vec<String> = Vec::new();
    let ghost first = if premade@.len() > 0 {
        lines_of(premade@).push(Seq::empty())
    } else {
        Seq::empty()
    };
    let ghost second = if mine@.len() > 0 {
        seq!["[我方评分]"@] + sorted_texts(score_lines(team_view(mine@)))
    } else {
        Seq::empty()
    };
    let ghost third = if theirs@.len() > 0 {
        seq![Seq::empty(), "[敌方评分]"@] + sorted_texts(score_lines(team_view(theirs@)))
    } else {
        Seq::empty()
    };
    if premade.unicode_len() > 0 {
        extend(&mut r, lines(premade));
        r.push(String::new());
    }
    assert(views(r@) =~= first);
    if mine.len() > 0 {
        r.push("[我方评分]".to_owned());
        assert(views(r@) =~= first + seq!["[我方评分]"@]);
        extend(&mut r, sorted_lines(mine));
    }
    assert(views(r@) =~= first + second);
    if theirs.len() > 0 {
        r.push(String::new());
        r.push("[敌方评分]".to_owned());
        assert(views(r@) =~= first + second + seq![Seq::<char>::empty(), "[敌方评分]"@]);
        extend(&mut r, sorted_lines(theirs));
    }
    assert(views(r@) =~= first + second + third);
    r
}

// ---------------------------------------------------------------------------
// The model
// ---------------------------------------------------------------------------

/// What a `MainLoop` holds.
pub struct LoopView {
    /// The address of the client, while it is connected.
    pub api: Option<Seq<char>>,
    /// The seconds until the information panel is hidden.
    pub hide_timer: Option<u32>,
    /// The seconds until the match is accepted.
    pub accept_timer: Option<u64>,
    pub premade_msg: Seq<char>,
    pub my_scores: ScoresView,
    pub their_scores: ScoresView,
    /// Whether the tasks that go with the client, looking at players, and sniping have been
    /// begun and not been cancelled.
    pub tasks: bool,
    pub scout: bool,
    pub sniper: bool,
    pub state: RuntimeView,
    pub vm: ViewModelView,
}

impl LoopView {
    /// No player has two scores.
    pub open spec fn well_formed(self) -> bool {
        one_each(self.my_scores) && one_each(self.their_scores)
    }

    /// Nothing is known of the players.
    pub open spec fn without_results(self) -> LoopView {
        LoopView {
            premade_msg: Seq::empty(),
            my_scores: Seq::empty(),
            their_scores: Seq::empty(),
            ..self
        }
    }
}

/// The loop before any event.
pub open spec fn fresh_loop() -> LoopView {
    LoopView {
        api: None,
        hide_timer: None,
        accept_timer: None,
        premade_msg: Seq::empty(),
        my_scores: Seq::empty(),
        their_scores: Seq::empty(),
        tasks: false,
        scout: false,
        sniper: false,
        state: fresh_runtime(),
        vm: blank_view(),
    }
}

/// A turn of the loop: the loop and the options after it, and what is to be done.
pub struct Turn {
    pub model: LoopView,
    pub config: AppConfig,
    pub effects: Seq<EffectView>,
}

/// No effects.
pub open spec fn nothing() -> Seq<EffectView> {
    Seq::empty()
}

/// An effect under a condition.
pub open spec fn only_if(condition: bool, effect: EffectView) -> Seq<EffectView> {
    if condition {
        seq![effect]
    } else {
        Seq::empty()
    }
}

/// The client was connected.
pub open spec fn on_connected(m: LoopView, address: Seq<char>) -> (LoopView, Seq<EffectView>) {
    (
        LoopView {
            api: Some(address),
            tasks: true,
            vm: ViewModelView {
                is_connected: true,
                hud1_visible: true,
                hud1_title: "已连接 LCU"@,
                ..m.vm
            },
            ..m
        },
        nothing() + only_if(true, EffectView::Publish) + only_if(m.tasks, EffectView::CancelLcuTasks)
            + only_if(true, EffectView::StartLcuTasks),
    )
}

/// The client is gone: everything that was begun for it is cancelled, and what is known
/// of the players is forgotten.
pub open spec fn on_disconnected(m: LoopView) -> (LoopView, Seq<EffectView>) {
    (
        LoopView {
            api: None,
            tasks: false,
            scout: false,
            sniper: false,
            vm: ViewModelView {
                is_connected: false,
                current_phase: "Disconnected"@,
                hud1_title: "等待 LCU 连接..."@,
                hud1_lines: Seq::empty(),
                ..m.vm
            },
            ..m.without_results()
        },
        nothing() + only_if(m.tasks, EffectView::CancelLcuTasks) + only_if(
            m.scout,
            EffectView::CancelScout,
        ) + only_if(m.sniper, EffectView::CancelSniper) + only_if(true, EffectView::Publish),
    )
}

/// The game is being picked for, loaded or played.
pub open spec fn in_game_process(phase: Seq<char>) -> bool {
    phase == gameflow::CHAMP_SELECT@ || phase == gameflow::IN_PROGRESS@ || phase
        == gameflow::GAME_START@ || phase == gameflow::RECONNECT@
}

/// The game is being loaded or played.
pub open spec fn playing(phase: Seq<char>) -> bool {
    phase == gameflow::IN_PROGRESS@ || phase == gameflow::GAME_START@
}

/// The phase changed. The bench layer is shown in champion select and in no other phase;
/// the information panel is shown, and in a game it is hidden again after a while. Outside
/// a game what is known of the players is forgotten. In a game the players are looked at
/// once, and again where nothing came of it.
pub open spec fn on_phase(m: LoopView, config: AppConfig, phase: Seq<char>) -> (
    LoopView,
    Seq<EffectView>,
) {
    let selecting = phase == gameflow::CHAMP_SELECT@;
    let in_game = in_game_process(phase);
    let keeps_picks = selecting || phase == gameflow::IN_PROGRESS@;
    let kept = if in_game {
        m
    } else {
        m.without_results()
    };
    let state = if keeps_picks {
        m.state
    } else {
        RuntimeView { analysis_done: false, ingame_done: false, pick_slot: None, ..m.state }
    };
    let analyze = playing(phase) && (!state.ingame_done || (kept.my_scores.len() == 0
        && kept.their_scores.len() == 0));
    let starts = analyze && m.api is Some && config.premade_ingame;
    let scouting = m.scout && in_game;
    (
        LoopView {
            sniper: m.sniper && selecting,
            scout: scouting || starts,
            hide_timer: if playing(phase) {
                Some(HIDE_AFTER_SECS)
            } else if selecting || !in_game {
                None
            } else {
                m.hide_timer
            },
            state: RuntimeView {
                ingame_done: if playing(phase) {
                    true
                } else {
                    state.ingame_done
                },
                ..state
            },
            vm: ViewModelView {
                current_phase: phase,
                hud2_visible: selecting,
                hud1_visible: true,
                hud1_title: if phase == gameflow::NONE@ {
                    "已连接"@
                } else {
                    "当前阶段: "@ + phase
                },
                hud1_lines: if in_game {
                    m.vm.hud1_lines
                } else {
                    Seq::empty()
                },
                hud2_selected_slot: if keeps_picks {
                    m.vm.hud2_selected_slot
                } else {
                    None
                },
                ..m.vm
            },
            ..kept
        },
        nothing() + only_if(m.sniper && !selecting, EffectView::CancelSniper) + only_if(
            m.scout && !in_game,
            EffectView::CancelScout,
        ) + only_if(starts && scouting, EffectView::CancelScout) + only_if(
            starts,
            EffectView::StartIngameScout,
        ) + only_if(
            phase == gameflow::END_OF_GAME@ && m.api is Some && config.auto_honor_skip,
            EffectView::SkipHonorVote { delay_secs: HONOR_DELAY_SECS },
        ) + only_if(true, EffectView::Publish),
    )
}

/// A ready check changed. While one is in progress and matches are to be accepted, the
/// countdown runs, for as long as the options say; with no delay the match is accepted at
/// once. Any other state of the check stops the countdown.
pub open spec fn on_ready_check(m: LoopView, config: AppConfig, payload: JsonView) -> (
    LoopView,
    Seq<EffectView>,
) {
    match payload.text_field("state"@) {
        Some(state) => if state == "InProgress"@ && config.auto_accept_enabled {
            if m.accept_timer is Some {
                (m, nothing())
            } else if config.auto_accept_delay_secs == 0 {
                (m, nothing() + only_if(m.api is Some, EffectView::AcceptReadyCheck))
            } else {
                (
                    LoopView { accept_timer: Some(config.auto_accept_delay_secs), ..m },
                    nothing(),
                )
            }
        } else {
            (LoopView { accept_timer: None, ..m }, nothing())
        },
        None => (m, nothing()),
    }
}

/// Identifiers and names alone.
pub open spec fn without_champions(roster: Seq<(Seq<char>, Seq<char>, i64)>) -> TeamView {
    Seq::new(roster.len(), |i: int| (roster[i].0, roster[i].1))
}

/// A session of champion select: the bench is taken over, and the first session of a
/// champion select has the player's own team looked at, where the options say so.
pub open spec fn on_session(m: LoopView, config: AppConfig, session: JsonView) -> (
    LoopView,
    Seq<EffectView>,
) {
    let starts = !m.state.analysis_done && config.premade_champ_select && m.api is Some;
    let team = without_champions(select_team(session, "myTeam"@));
    (
        LoopView {
            scout: m.scout || starts,
            state: RuntimeView { bench: bench_in(session), analysis_done: true, ..m.state },
            ..m
        },
        nothing() + only_if(starts && m.scout, EffectView::CancelScout) + only_if(
            starts && team.len() > 0,
            EffectView::StartScout {
                my_team: team,
                my_side: select_side(session, "myTeam"@),
                their_side: select_side(session, "theirTeam"@),
            },
        ),
    )
}

/// The options after a choice from the tray menu.
pub open spec fn toggled(config: AppConfig, action: TrayAction) -> AppConfig {
    match action {
        TrayAction::ToggleAutoAccept => AppConfig {
            auto_accept_enabled: !config.auto_accept_enabled,
            ..config
        },
        TrayAction::ToggleAutoHonor => AppConfig {
            auto_honor_skip: !config.auto_honor_skip,
            ..config
        },
        TrayAction::TogglePremadeChamp => AppConfig {
            premade_champ_select: !config.premade_champ_select,
            ..config
        },
        TrayAction::ToggleMemoryMonitor => AppConfig {
            memory_monitor: !config.memory_monitor,
            ..config
        },
        _ => config,
    }
}

/// What a choice from the tray menu asks for.
pub open spec fn tray_effect(action: TrayAction) -> EffectView {
    match action {
        TrayAction::FixWindow => EffectView::FixWindow,
        TrayAction::ReloadUx => EffectView::ReloadUx,
        TrayAction::PlayAgain => EffectView::PlayAgain,
        TrayAction::FindForgottenLoot => EffectView::FindForgottenLoot,
        TrayAction::ToggleAutoAccept => EffectView::SaveConfig,
        TrayAction::ToggleAutoHonor => EffectView::SaveConfig,
        TrayAction::TogglePremadeChamp => EffectView::SaveConfig,
        TrayAction::ToggleMemoryMonitor => EffectView::SaveConfig,
        TrayAction::Exit => EffectView::SendQuit,
    }
}

/// A click on a bench slot: the first one starts sniping its champion, in place of any
/// other; the next one on the same slot gives it up. A slot without a champion does
/// nothing.
pub open spec fn on_bench_click(m: LoopView, index: usize) -> (LoopView, Seq<EffectView>) {
    if index >= m.state.bench.len() {
        (m, nothing())
    } else if m.state.pick_slot == Some(index) {
        (
            LoopView {
                sniper: false,
                state: RuntimeView { pick_slot: None, ..m.state },
                vm: ViewModelView { hud2_selected_slot: None, ..m.vm },
                ..m
            },
            nothing() + only_if(m.sniper, EffectView::CancelSniper) + only_if(true, EffectView::Publish),
        )
    } else {
        (
            LoopView {
                sniper: true,
                state: RuntimeView { pick_slot: Some(index), ..m.state },
                vm: ViewModelView { hud2_selected_slot: Some(index), ..m.vm },
                ..m
            },
            nothing() + only_if(m.sniper, EffectView::CancelSniper) + only_if(
                m.api is Some,
                EffectView::StartSniper {
                    champion_id: m.state.bench[index as int],
                    slot: index,
                },
            ) + only_if(true, EffectView::Publish),
        )
    }
}

/// Sniping is over. The slot is no longer highlighted, unless another one is by now.
pub open spec fn on_sniper_finished(m: LoopView, index: usize) -> (LoopView, Seq<EffectView>) {
    if m.state.pick_slot == Some(index) {
        (
            LoopView {
                state: RuntimeView { pick_slot: None, ..m.state },
                vm: ViewModelView { hud2_selected_slot: None, ..m.vm },
                ..m
            },
            nothing() + only_if(true, EffectView::Publish),
        )
    } else {
        (m, nothing())
    }
}

/// The hot key shows or hides the information panel. Called up in a game, it is hidden
/// again after a while.
pub open spec fn on_hotkey(m: LoopView) -> (LoopView, Seq<EffectView>) {
    let shown = !m.vm.hud1_visible;
    (
        LoopView {
            hide_timer: if shown && (playing(m.vm.current_phase) || m.vm.current_phase
                == gameflow::RECONNECT@) {
                Some(RECALL_SECS)
            } else {
                None
            },
            vm: ViewModelView { hud1_visible: shown, ..m.vm },
            ..m
        },
        nothing() + only_if(true, EffectView::Publish),
    )
}

/// A second has passed: the countdowns go on. One that reaches zero hides the information
/// panel, or accepts the match.
pub open spec fn on_tick(m: LoopView) -> (LoopView, Seq<EffectView>) {
    let hides = m.hide_timer == Some(1u32);
    let accepts = m.accept_timer == Some(1u64);
    (
        LoopView {
            hide_timer: match m.hide_timer {
                Some(t) => if t > 0 {
                    Some((t - 1) as u32)
                } else {
                    Some(t)
                },
                None => None,
            },
            accept_timer: match m.accept_timer {
                Some(t) => if t == 1 {
                    None
                } else if t > 0 {
                    Some((t - 1) as u64)
                } else {
                    Some(t)
                },
                None => None,
            },
            vm: ViewModelView {
                hud1_visible: if hides {
                    false
                } else {
                    m.vm.hud1_visible
                },
                ..m.vm
            },
            ..m
        },
        nothing() + only_if(accepts && m.api is Some, EffectView::AcceptReadyCheck) + only_if(
            hides,
            EffectView::Publish,
        ),
    )
}

/// What is known after a result of looking at the players.
pub open spec fn with_result(
    m: LoopView,
    puuid: Seq<char>,
    content: Seq<char>,
    is_premade: bool,
    is_enemy: bool,
) -> LoopView {
    if is_premade {
        LoopView { premade_msg: content, ..m }
    } else if is_enemy {
        LoopView { their_scores: with_score(m.their_scores, puuid, content), ..m }
    } else {
        LoopView { my_scores: with_score(m.my_scores, puuid, content), ..m }
    }
}

/// A result of looking at the players: the information panel shows all that is known.
pub open spec fn on_scout_result(
    m: LoopView,
    puuid: Seq<char>,
    content: Seq<char>,
    is_premade: bool,
    is_enemy: bool,
) -> (LoopView, Seq<EffectView>) {
    let known = with_result(m, puuid, content, is_premade, is_enemy);
    (
        LoopView {
            vm: ViewModelView {
                hud1_lines: panel_lines(known.premade_msg, known.my_scores, known.their_scores),
                ..m.vm
            },
            ..known
        },
        nothing() + only_if(true, EffectView::Publish),
    )
}

/// The client's window is somewhere: the snapshot follows where it has moved or changed
/// its size, and only then takes over the zoom factor.
pub open spec fn on_window(m: LoopView, rect: LcuRect, zoom: u64) -> (LoopView, Seq<EffectView>) {
    if m.vm.lcu_rect == rect {
        (m, nothing())
    } else {
        (
            LoopView {
                vm: ViewModelView { lcu_rect: rect, zoom_scale_bits: zoom, ..m.vm },
                ..m
            },
            nothing() + only_if(true, EffectView::Publish),
        )
    }
}

/// The program is to end: everything that was begun is cancelled, and then the loop ends.
pub open spec fn on_quit(m: LoopView) -> (LoopView, Seq<EffectView>) {
    (
        LoopView { tasks: false, scout: false, sniper: false, ..m },
        nothing() + only_if(m.tasks, EffectView::CancelLcuTasks) + only_if(
            m.scout,
            EffectView::CancelScout,
        ) + only_if(m.sniper, EffectView::CancelSniper) + only_if(true, EffectView::Stop),
    )
}

/// An event of the client, by the address at which it happened.
pub open spec fn on_lcu_event(m: LoopView, config: AppConfig, e: LcuEventView) -> (
    LoopView,
    Seq<EffectView>,
) {
    if e.uri == "/lol-gameflow/v1/gameflow-phase"@ {
        match e.payload.text() {
            Some(phase) => on_phase(m, config, phase),
            None => (m, nothing()),
        }
    } else if e.uri == "/lol-champ-select/v1/session"@ {
        on_session(m, config, e.payload)
    } else if e.uri == "/lol-matchmaking/v1/ready-check"@ {
        on_ready_check(m, config, e.payload)
    } else {
        (m, nothing())
    }
}

/// A turn that leaves the options as they are.
pub open spec fn turn(step: (LoopView, Seq<EffectView>), config: AppConfig) -> Turn {
    Turn { model: step.0, config, effects: step.1 }
}

/// One turn of the loop. Choices from the tray menu, but for the one that ends the program,
/// count only while the client is connected.
pub open spec fn take_turn(m: LoopView, config: AppConfig, event: AppEventView) -> Turn {
    match event {
        AppEventView::LcuConnected(address) => turn(on_connected(m, address), config),
        AppEventView::LcuDisconnected => turn(on_disconnected(m), config),
        AppEventView::LcuEvent(e) => turn(on_lcu_event(m, config, e), config),
        AppEventView::LcuPhaseChanged(phase) => turn(on_phase(m, config, phase), config),
        AppEventView::LcuSessionUpdated(session) => turn(on_session(m, config, session), config),
        AppEventView::TrayAction(action) => if m.api is Some || action == TrayAction::Exit {
            Turn {
                model: m,
                config: toggled(config, action),
                effects: nothing() + only_if(true, tray_effect(action)),
            }
        } else {
            turn((m, nothing()), config)
        },
        AppEventView::BenchClick(index) => turn(on_bench_click(m, index), config),
        AppEventView::SniperFinished(index) => turn(on_sniper_finished(m, index), config),
        AppEventView::HotKeyF1 => turn(on_hotkey(m), config),
        AppEventView::Tick => turn(on_tick(m), config),
        AppEventView::ScoutResult { puuid, content, is_premade, is_enemy } => turn(
            on_scout_result(m, puuid, content, is_premade, is_enemy),
            config,
        ),
        AppEventView::RequestWindowFix { zoom, forced } => turn(
            (m, nothing() + only_if(true, EffectView::FixWindowFor { zoom, forced })),
            config,
        ),
        AppEventView::WindowRectUpdated { x, y, width, height, zoom_scale } => turn(
            on_window(m, LcuRect { x, y, width, height }, zoom_scale),
            config,
        ),
        AppEventView::Quit => turn(on_quit(m), config),
    }
}

// ---------------------------------------------------------------------------
// The loop
// ---------------------------------------------------------------------------

/// The state of the main loop.
pub struct MainLoop {
    api: Option<LcuClient>,
    hide_timer: Option<u32>,
    accept_timer: Option<u64>,
    premade_msg: String,
    my_scores: Vec<(String, String)>,
    their_scores: Vec<(String, String)>,
    tasks: bool,
    scout: bool,
    sniper: bool,
    state: RuntimeState,
    vm: ViewModel,
}

impl View for MainLoop {
    type V = LoopView;

    closed spec fn view(&self) -> LoopView {
        LoopView {
            api: match self.api {
                Some(c) => Some(c@),
                None => None,
            },
            hide_timer: self.hide_timer,
            accept_timer: self.accept_timer,
            premade_msg: self.premade_msg@,
            my_scores: team_view(self.my_scores@),
            their_scores: team_view(self.their_scores@),
            tasks: self.tasks,
            scout: self.scout,
            sniper: self.sniper,
            state: self.state@,
            vm: self.vm@,
        }
    }
}

fn push_if(effects: &mut Vec<Effect>, condition: bool, effect: Effect)
    ensures
        effect_views(final(effects)@) == effect_views(old(effects)@) + only_if(condition, effect@),
{
    let ghost before = effect_views(effects@);
    if condition {
        effects.push(effect);
        assert(effect_views(effects@) =~= before + seq![effect@]);
    } else {
        assert(before + Seq::<EffectView>::empty() =~= before);
    }
}

fn no_effects() -> (r: Vec<Effect>)
    ensures
        effect_views(r@) == nothing(),
{
    let r: Vec<Effect> = Vec::new();
    assert(effect_views(r@) =~= nothing());
    r
}

impl MainLoop {
    /// The loop before any event.
    pub fn new() -> (r: MainLoop)
        ensures
            r@ == fresh_loop(),
            r@.well_formed(),
    {
        let r = MainLoop {
            api: None,
            hide_timer: None,
            accept_timer: None,
            premade_msg: String::new(),
            my_scores: Vec::new(),
            their_scores: Vec::new(),
            tasks: false,
            scout: false,
            sniper: false,
            state: RuntimeState::new(),
            vm: ViewModel::default(),
        };
        assert(r@.my_scores =~= Seq::empty());
        assert(r@.their_scores =~= Seq::empty());
        r
    }

    /// The snapshot that the overlay shows.
    pub fn view_model(&self) -> (r: &ViewModel)
        ensures
            r@ == self@.vm,
    {
        &self.vm
    }

    /// The client, while it is connected.
    pub fn client(&self) -> (r: Option<&LcuClient>)
        ensures
            self@.api == match r {
                Some(c) => Some(c@),
                None => None,
            },
    {
        self.api.as_ref()
    }

    fn reset_scout_results(&mut self)
        requires
            old(self)@.well_formed(),
        ensures
            final(self)@ == old(self)@.without_results(),
            final(self)@.well_formed(),
    {
        self.premade_msg = String::new();
        self.my_scores = Vec::new();
        self.their_scores = Vec::new();
        assert(self@.my_scores =~= Seq::empty());
        assert(self@.their_scores =~= Seq::empty());
    }

    fn handle_connected(&mut self, client: LcuClient) -> (r: Vec<Effect>)
        requires
            old(self)@.well_formed(),
        ensures
            (final(self)@, effect_views(r@)) == on_connected(old(self)@, client@),
            final(self)@.well_formed(),
    {
        let mut effects = no_effects();
        self.api = Some(client);
        self.vm.is_connected = true;
        self.vm.hud1_visible = true;
        self.vm.hud1_title = "已连接 LCU".to_owned();
        push_if(&mut effects, true, Effect::Publish);
        push_if(&mut effects, self.tasks, Effect::CancelLcuTasks);
        self.tasks = true;
        push_if(&mut effects, true, Effect::StartLcuTasks);
        effects
    }

    fn handle_disconnected(&mut self) -> (r: Vec<Effect>)
        requires
            old(self)@.well_formed(),
        ensures
            (final(self)@, effect_views(r@)) == on_disconnected(old(self)@),
            final(self)@.well_formed(),
    {
        let mut effects = no_effects();
        self.api = None;
        self.reset_scout_results();
        push_if(&mut effects, self.tasks, Effect::CancelLcuTasks);
        push_if(&mut effects, self.scout, Effect::CancelScout);
        push_if(&mut effects, self.sniper, Effect::CancelSniper);
        self.tasks = false;
        self.scout = false;
        self.sniper = false;
        self.vm.is_connected = false;
        self.vm.current_phase = "Disconnected".to_owned();
        self.vm.hud1_title = "等待 LCU 连接...".to_owned();
        self.vm.hud1_lines = Vec::new();
        assert(self.vm@.hud1_lines =~= Seq::empty());
        push_if(&mut effects, true, Effect::Publish);
        effects
    }

    fn handle_phase_changed(&mut self, config: &AppConfig, phase: &str) -> (r: Vec<Effect>)
        requires
            old(self)@.well_formed(),
        ensures
            (final(self)@, effect_views(r@)) == on_phase(old(self)@, *config, phase@),
            final(self)@.well_formed(),
    {
        let mut effects = no_effects();
        let selecting = str_eq(phase, gameflow::CHAMP_SELECT);
        let in_progress = str_eq(phase, gameflow::IN_PROGRESS);
        let playing_now = in_progress || str_eq(phase, gameflow::GAME_START);
        let in_game = selecting || playing_now || str_eq(phase, gameflow::RECONNECT);

        self.vm.current_phase = phase.to_owned();
        self.vm.hud2_visible = selecting;
        self.vm.hud1_visible = true;
        push_if(&mut effects, self.sniper && !selecting, Effect::CancelSniper);
        self.sniper = self.sniper && selecting;
        push_if(&mut effects, self.scout && !in_game, Effect::CancelScout);
        self.scout = self.scout && in_game;
        self.vm.hud1_title = if str_eq(phase, gameflow::NONE) {
            "已连接".to_owned()
        } else {
            concat("当前阶段: ", phase)
        };
        if !in_game {
            self.vm.hud1_lines = Vec::new();
            assert(self.vm@.hud1_lines =~= Seq::empty());
            self.reset_scout_results();
            self.hide_timer = None;
        }
        if !selecting && !in_progress {
            self.state.reset_premade_status();
            self.state.cancel_pick_task();
            self.vm.hud2_selected_slot = None;
        }
        let analyze = playing_now && (!self.state.premade_ingame_done || (self.my_scores.len() == 0
            && self.their_scores.len() == 0));
        if playing_now {
            self.state.premade_ingame_done = true;
            self.hide_timer = Some(HIDE_AFTER_SECS);
        } else if selecting {
            self.hide_timer = None;
        }
        let starts = analyze && self.api.is_some() && config.premade_ingame;
        push_if(&mut effects, starts && self.scout, Effect::CancelScout);
        push_if(&mut effects, starts, Effect::StartIngameScout);
        self.scout = self.scout || starts;
        push_if(
            &mut effects,
            str_eq(phase, gameflow::END_OF_GAME) && self.api.is_some() && config.auto_honor_skip,
            Effect::SkipHonorVote { delay_secs: HONOR_DELAY_SECS },
        );
        push_if(&mut effects, true, Effect::Publish);
        proof {
            reveal_strlit("None");
            reveal_strlit("ChampSelect");
            reveal_strlit("InProgress");
            reveal_strlit("GameStart");
            reveal_strlit("Reconnect");
        }
        effects
    }

    fn handle_ready_check(&mut self, config: &AppConfig, payload: &Json) -> (r: Vec<Effect>)
        requires
            old(self)@.well_formed(),
        ensures
            (final(self)@, effect_views(r@)) == on_ready_check(old(self)@, *config, payload@),
            final(self)@.well_formed(),
    {
        let mut effects = no_effects();
        match payload.get_str("state") {
            Some(state) => {
                if str_eq(state, "InProgress") && config.auto_accept_enabled {
                    if self.accept_timer.is_none() {
                        if config.auto_accept_delay_secs == 0 {
                            push_if(&mut effects, self.api.is_some(), Effect::AcceptReadyCheck);
                        } else {
                            self.accept_timer = Some(config.auto_accept_delay_secs);
                        }
                    }
                } else {
                    self.accept_timer = None;
                }
            },
            None => {},
        }
        effects
    }

    fn handle_session_updated(&mut self, config: &AppConfig, session: &Json) -> (r: Vec<Effect>)
        requires
            old(self)@.well_formed(),
        ensures
            (final(self)@, effect_views(r@)) == on_session(old(self)@, *config, session@),
            final(self)@.well_formed(),
    {
        let mut effects = no_effects();
        self.state.current_bench_ids = LcuClient::extract_bench_champion_ids(session);
        let starts = !self.state.premade_analysis_done && config.premade_champ_select
            && self.api.is_some();
        self.state.premade_analysis_done = true;
        push_if(&mut effects, starts && self.scout, Effect::CancelScout);
        let (mine, _, my_side, their_side) = extract_teams_from_session(session);
        let my_team = names_only(&mine);
        push_if(
            &mut effects,
            starts && my_team.len() > 0,
            Effect::StartScout { my_team, my_side, their_side },
        );
        self.scout = self.scout || starts;
        effects
    }

    fn handle_lcu_event(&mut self, config: &AppConfig, event: &LcuEvent) -> (r: Vec<Effect>)
        requires
            old(self)@.well_formed(),
        ensures
            (final(self)@, effect_views(r@)) == on_lcu_event(old(self)@, *config, event@),
            final(self)@.well_formed(),
    {
        let uri = event.uri.as_str();
        if str_eq(uri, "/lol-gameflow/v1/gameflow-phase") {
            match event.payload.as_str() {
                Some(phase) => self.handle_phase_changed(config, phase),
                None => no_effects(),
            }
        } else if str_eq(uri, "/lol-champ-select/v1/session") {
            self.handle_session_updated(config, &event.payload)
        } else if str_eq(uri, "/lol-matchmaking/v1/ready-check") {
            self.handle_ready_check(config, &event.payload)
        } else {
            no_effects()
        }
    }

    fn handle_tray_action(&mut self, config: &mut AppConfig, action: TrayAction) -> (r: Vec<Effect>)
        requires
            old(self)@.well_formed(),
        ensures
            final(self)@ == old(self)@,
            *final(config) == if old(self)@.api is Some || action == TrayAction::Exit {
                toggled(*old(config), action)
            } else {
                *old(config)
            },
            effect_views(r@) == if old(self)@.api is Some || action == TrayAction::Exit {
                nothing() + only_if(true, tray_effect(action))
            } else {
                nothing()
            },
    {
        let mut effects = no_effects();
        if self.api.is_none() && action != TrayAction::Exit {
            return effects;
        }
        let effect = match action {
            TrayAction::FixWindow => Effect::FixWindow,
            TrayAction::ReloadUx => Effect::ReloadUx,
            TrayAction::PlayAgain => Effect::PlayAgain,
            TrayAction::FindForgottenLoot => Effect::FindForgottenLoot,
            TrayAction::ToggleAutoAccept => {
                config.auto_accept_enabled = !config.auto_accept_enabled;
                Effect::SaveConfig
            },
            TrayAction::ToggleAutoHonor => {
                config.auto_honor_skip = !config.auto_honor_skip;
                Effect::SaveConfig
            },
            TrayAction::TogglePremadeChamp => {
                config.premade_champ_select = !config.premade_champ_select;
                Effect::SaveConfig
            },
            TrayAction::ToggleMemoryMonitor => {
                config.memory_monitor = !config.memory_monitor;
                Effect::SaveConfig
            },
            TrayAction::Exit => Effect::SendQuit,
        };
        push_if(&mut effects, true, effect);
        effects
    }

    /// Reacts to a click on a bench slot: the champion there is sniped, or given up where it
    /// was being sniped. A click beyond the bench changes nothing.
    pub fn handle_bench_click(&mut self, index: usize) -> (r: Vec<Effect>)
        requires
            old(self)@.well_formed(),
        ensures
            (final(self)@, effect_views(r@)) == on_bench_click(old(self)@, index),
            final(self)@.well_formed(),
    {
        let mut effects = no_effects();
        if index >= self.state.current_bench_ids.len() {
            return effects;
        }
        let champion_id = self.state.current_bench_ids[index];
        let already = match self.state.active_pick_slot {
            Some(slot) => slot == index,
            None => false,
        };
        push_if(&mut effects, self.sniper, Effect::CancelSniper);
        if already {
            self.state.cancel_pick_task();
            self.sniper = false;
            self.vm.hud2_selected_slot = None;
        } else {
            self.state.active_pick_slot = Some(index);
            self.sniper = true;
            self.vm.hud2_selected_slot = Some(index);
            push_if(
                &mut effects,
                self.api.is_some(),
                Effect::StartSniper { champion_id, slot: index },
            );
        }
        push_if(&mut effects, true, Effect::Publish);
        effects
    }

    fn handle_sniper_finished(&mut self, index: usize) -> (r: Vec<Effect>)
        requires
            old(self)@.well_formed(),
        ensures
            (final(self)@, effect_views(r@)) == on_sniper_finished(old(self)@, index),
            final(self)@.well_formed(),
    {
        let mut effects = no_effects();
        let mine = match self.state.active_pick_slot {
            Some(slot) => slot == index,
            None => false,
        };
        if mine {
            self.state.active_pick_slot = None;
            self.vm.hud2_selected_slot = None;
            push_if(&mut effects, true, Effect::Publish);
        }
        effects
    }

    fn handle_tick(&mut self) -> (r: Vec<Effect>)
        requires
            old(self)@.well_formed(),
        ensures
            (final(self)@, effect_views(r@)) == on_tick(old(self)@),
            final(self)@.well_formed(),
    {
        let mut effects = no_effects();
        let mut hides = false;
        match self.hide_timer {
            Some(t) => {
                if t > 0 {
                    self.hide_timer = Some(t - 1);
                    if t == 1 {
                        self.vm.hud1_visible = false;
                        hides = true;
                    }
                }
            },
            None => {},
        }
        let mut accepts = false;
        match self.accept_timer {
            Some(t) => {
                if t == 1 {
                    self.accept_timer = None;
                    accepts = true;
                } else if t > 0 {
                    self.accept_timer = Some(t - 1);
                }
            },
            None => {},
        }
        push_if(&mut effects, accepts && self.api.is_some(), Effect::AcceptReadyCheck);
        push_if(&mut effects, hides, Effect::Publish);
        effects
    }

    fn handle_scout_result(
        &mut self,
        puuid: String,
        content: String,
        is_premade: bool,
        is_enemy: bool,
    ) -> (r: Vec<Effect>)
        requires
            old(self)@.well_formed(),
        ensures
            (final(self)@, effect_views(r@)) == on_scout_result(
                old(self)@,
                puuid@,
                content@,
                is_premade,
                is_enemy,
            ),
            final(self)@.well_formed(),
    {
        let mut effects = no_effects();
        if is_premade {
            self.premade_msg = content;
        } else if is_enemy {
            set_score(&mut self.their_scores, puuid, content);
        } else {
            set_score(&mut self.my_scores, puuid, content);
        }
        self.vm.hud1_lines = panel(
            self.premade_msg.as_str(),
            &self.my_scores,
            &self.their_scores,
        );
        push_if(&mut effects, true, Effect::Publish);
        effects
    }

    fn toggle_hud1(&mut self) -> (r: Vec<Effect>)
        requires
            old(self)@.well_formed(),
        ensures
            (final(self)@, effect_views(r@)) == on_hotkey(old(self)@),
            final(self)@.well_formed(),
    {
        let mut effects = no_effects();
        self.vm.hud1_visible = !self.vm.hud1_visible;
        let phase = self.vm.current_phase.as_str();
        let in_game = str_eq(phase, gameflow::IN_PROGRESS) || str_eq(phase, gameflow::GAME_START)
            || str_eq(phase, gameflow::RECONNECT);
        if self.vm.hud1_visible && in_game {
            self.hide_timer = Some(RECALL_SECS);
        } else {
            self.hide_timer = None;
        }
        push_if(&mut effects, true, Effect::Publish);
        effects
    }

    fn update_window_rect(&mut self, rect: LcuRect, zoom_scale: u64) -> (r: Vec<Effect>)
        requires
            old(self)@.well_formed(),
        ensures
            (final(self)@, effect_views(r@)) == on_window(old(self)@, rect, zoom_scale),
            final(self)@.well_formed(),
    {
        let mut effects = no_effects();
        if self.vm.lcu_rect != rect {
            self.vm.lcu_rect = rect;
            self.vm.zoom_scale_bits = zoom_scale;
            push_if(&mut effects, true, Effect::Publish);
        }
        effects
    }

    fn handle_quit(&mut self) -> (r: Vec<Effect>)
        requires
            old(self)@.well_formed(),
        ensures
            (final(self)@, effect_views(r@)) == on_quit(old(self)@),
            final(self)@.well_formed(),
    {
        let mut effects = no_effects();
        push_if(&mut effects, self.tasks, Effect::CancelLcuTasks);
        push_if(&mut effects, self.scout, Effect::CancelScout);
        push_if(&mut effects, self.sniper, Effect::CancelSniper);
        self.tasks = false;
        self.scout = false;
        self.sniper = false;
        push_if(&mut effects, true, Effect::Stop);
        effects
    }

    /// Takes one turn of the loop: returns what is to be done about an event.
    pub fn run(&mut self, config: &mut AppConfig, event: AppEvent) -> (r: Vec<Effect>)
        requires
            old(self)@.well_formed(),
        ensures
            final(self)@.well_formed(),
            (Turn {
                model: final(self)@,
                config: *final(config),
                effects: effect_views(r@),
            }) == take_turn(old(self)@, *old(config), event@),
    {
        match event {
            AppEvent::LcuConnected(client) => self.handle_connected(client),
            AppEvent::LcuDisconnected => self.handle_disconnected(),
            AppEvent::LcuEvent(e) => self.handle_lcu_event(config, &e),
            AppEvent::LcuPhaseChanged(phase) => self.handle_phase_changed(config, phase.as_str()),
            AppEvent::LcuSessionUpdated(session) => self.handle_session_updated(config, &session),
            AppEvent::TrayAction(action) => self.handle_tray_action(config, action),
            AppEvent::BenchClick(index) => self.handle_bench_click(index),
            AppEvent::SniperFinished(index) => self.handle_sniper_finished(index),
            AppEvent::HotKeyF1 => self.toggle_hud1(),
            AppEvent::Tick => self.handle_tick(),
            AppEvent::ScoutResult { puuid, content, is_premade, is_enemy } => {
                self.handle_scout_result(puuid, content, is_premade, is_enemy)
            },
            AppEvent::RequestWindowFix { zoom, forced } => {
                let mut effects = no_effects();
                push_if(&mut effects, true, Effect::FixWindowFor { zoom, forced });
                effects
            },
            AppEvent::WindowRectUpdated { x, y, width, height, zoom_scale } => {
                self.update_window_rect(LcuRect { x, y, width, height }, zoom_scale)
            },
            AppEvent::Quit => self.handle_quit(),
        }
    }
}

/// The identifiers and names of some players.
pub fn names_only(roster: &Vec<(String, String, i64)>) -> (r: Vec<(String, String)>)
    ensures
        team_view(r@) == without_champions(roster_view(roster@)),
{
    let mut r: Vec<(String, String)> = Vec::new();
    let mut i: usize = 0;
    while i < roster.len()
        invariant
            i <= roster@.len(),
            r@.len() == i,
            forall|k: int|
                0 <= k < i ==> (#[trigger] r@[k]).0@ == roster@[k].0@ && r@[k].1@ == roster@[k].1@,
        decreases roster@.len() - i,
    {
        r.push((roster[i].0.clone(), roster[i].1.clone()));
        i += 1;
    }
    assert(team_view(r@) =~= without_champions(roster_view(roster@)));
    r
}

} // verus!
