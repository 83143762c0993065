//! What is remembered of the session at hand.

use vstd::prelude::*;

verus! {

/// The state of the session.
pub struct RuntimeState {
    /// The champions on the bench.
    pub current_bench_ids: Vec<i64>,
    /// Whether the teams have been looked at in this champion select.
    pub premade_analysis_done: bool,
    /// Whether the teams have been looked at in this game.
    pub premade_ingame_done: bool,
    /// The bench slot whose champion is being sniped.
    pub active_pick_slot: Option<usize>,
}

/// What a `RuntimeState` holds.
pub struct RuntimeView {
    pub bench: Seq<i64>,
    pub analysis_done: bool,
    pub ingame_done: bool,
    pub pick_slot: Option<usize>,
}

impl View for RuntimeState {
    type V = RuntimeView;

    open spec fn view(&self) -> RuntimeView {
        RuntimeView {
            bench: self.current_bench_ids@,
            analysis_done: self.premade_analysis_done,
            ingame_done: self.premade_ingame_done,
            pick_slot: self.active_pick_slot,
        }
    }
}

/// The state of a session in which nothing has happened yet.
pub open spec fn fresh_runtime() -> RuntimeView {
    RuntimeView {
        bench: Seq::empty(),
        analysis_done: false,
        ingame_done: false,
        pick_slot: None,
    }
}

impl RuntimeState {
    pub fn new() -> (r: Self)
        ensures
            r@ == fresh_runtime(),
    {
        RuntimeState {
            current_bench_ids: Vec::new(),
            premade_analysis_done: false,
            premade_ingame_done: false,
            active_pick_slot: None,
        }
    }

    /// Forgets that the teams have been looked at.
    pub fn reset_premade_status(&mut self)
        ensures
            final(self)@ == (RuntimeView {
                analysis_done: false,
                ingame_done: false,
                ..old(self)@
            }),
    {
        self.premade_analysis_done = false;
        self.premade_ingame_done = false;
    }

    /// Gives up the champion that is being sniped.
    pub fn cancel_pick_task(&mut self)
        ensures
            final(self)@ == (RuntimeView { pick_slot: None, ..old(self)@ }),
    {
        self.active_pick_slot = None;
    }
}

} // verus!
