//! The overlay's windows: when they are shown, moved and painted.
//!
//! After every message the overlay takes one turn: it takes over a new snapshot if there
//! is one, follows the client's window, and paints what has changed.

use crate::app::viewmodel::{blank_view, LcuRect, ViewModel, ViewModelView};
use crate::text::strings_eq;
use vstd::prelude::*;

verus! {

/// How often the windows follow the client's window, in milliseconds.
pub const SYNC_INTERVAL_MS: u64 = 150;

/// What is to be done with the overlay's windows.
#[derive(Clone, Copy, Debug, PartialEq, Eq, Structural)]
pub enum OverlayAction {
    /// Show or hide the information panel.
    ShowHud(bool),
    /// Show or hide the bench layer.
    ShowBench(bool),
    /// The client's window was looked at: the time until the next look starts anew.
    Synced,
    /// Put the bench layer over the bench of a client's window with these edges.
    PlaceBench(LcuRect),
    /// Paint the information panel.
    PaintHud,
    /// Paint the bench layer.
    PaintBench,
}

/// The state of the overlay.
pub struct WndState {
    pub vm: ViewModel,
    pub win_w: i32,
    pub win_h: i32,
    pub force_sync: bool,
    pub needs_paint_hud: bool,
    pub needs_paint_bench: bool,
}

/// What a `WndState` holds.
pub struct WndView {
    pub vm: ViewModelView,
    pub win_w: i32,
    pub win_h: i32,
    pub force_sync: bool,
    pub needs_paint_hud: bool,
    pub needs_paint_bench: bool,
}

impl View for WndState {
    type V = WndView;

    open spec fn view(&self) -> WndView {
        WndView {
            vm: self.vm@,
            win_w: self.win_w,
            win_h: self.win_h,
            force_sync: self.force_sync,
            needs_paint_hud: self.needs_paint_hud,
            needs_paint_bench: self.needs_paint_bench,
        }
    }
}

/// The overlay before its first turn.
pub open spec fn fresh_overlay() -> WndView {
    WndView {
        vm: blank_view(),
        win_w: 1,
        win_h: 1,
        force_sync: true,
        needs_paint_hud: false,
        needs_paint_bench: false,
    }
}

/// An action under a condition.
pub open spec fn act_if(condition: bool, action: OverlayAction) -> Seq<OverlayAction> {
    if condition {
        seq![action]
    } else {
        Seq::empty()
    }
}

/// A new snapshot: windows are shown and hidden with it, and what it changes is to be
/// painted. The windows then follow the client's window at once.
pub open spec fn take_over(s: WndView, vm: ViewModelView) -> (WndView, Seq<OverlayAction>) {
    (
        WndView {
            vm,
            force_sync: true,
            needs_paint_hud: s.needs_paint_hud || s.vm.hud1_lines != vm.hud1_lines
                || s.vm.hud1_title != vm.hud1_title,
            needs_paint_bench: s.needs_paint_bench || s.vm.hud2_selected_slot
                != vm.hud2_selected_slot,
            ..s
        },
        act_if(
            s.vm.hud1_visible != vm.hud1_visible,
            OverlayAction::ShowHud(vm.hud1_visible),
        ) + act_if(
            s.vm.hud2_visible != vm.hud2_visible,
            OverlayAction::ShowBench(vm.hud2_visible),
        ),
    )
}

/// The windows follow the client's window, when it is time to: where its size has changed,
/// or a new snapshot came, everything is to be painted and the bench layer is moved. A
/// window without width is not followed.
pub open spec fn follow(s: WndView, ms_since_sync: u64) -> (WndView, Seq<OverlayAction>) {
    if s.force_sync || ms_since_sync >= SYNC_INTERVAL_MS {
        let r = s.vm.lcu_rect;
        let moves = r.width > 0 && (r.width != s.win_w || r.height != s.win_h || s.force_sync);
        (
            WndView {
                win_w: if moves {
                    r.width
                } else {
                    s.win_w
                },
                win_h: if moves {
                    r.height
                } else {
                    s.win_h
                },
                force_sync: false,
                needs_paint_hud: s.needs_paint_hud || moves,
                needs_paint_bench: s.needs_paint_bench || moves,
                ..s
            },
            act_if(true, OverlayAction::Synced) + act_if(
                moves && s.vm.hud2_visible,
                OverlayAction::PlaceBench(r),
            ),
        )
    } else {
        (s, Seq::empty())
    }
}

/// What is to be painted is painted, in the windows that are shown.
pub open spec fn paint(s: WndView) -> (WndView, Seq<OverlayAction>) {
    (
        WndView {
            needs_paint_hud: s.needs_paint_hud && !s.vm.hud1_visible,
            needs_paint_bench: s.needs_paint_bench && !s.vm.hud2_visible,
            ..s
        },
        act_if(s.needs_paint_hud && s.vm.hud1_visible, OverlayAction::PaintHud) + act_if(
            s.needs_paint_bench && s.vm.hud2_visible,
            OverlayAction::PaintBench,
        ),
    )
}

/// One turn of the overlay.
pub open spec fn overlay_turn(s: WndView, vm: Option<ViewModelView>, ms_since_sync: u64) -> (
    WndView,
    Seq<OverlayAction>,
) {
    let (a, first) = match vm {
        Some(vm) => take_over(s, vm),
        None => (s, Seq::empty()),
    };
    let (b, second) = follow(a, ms_since_sync);
    let (c, third) = paint(b);
    (c, first + second + third)
}

fn push_act(actions: &mut Vec<OverlayAction>, condition: bool, action: OverlayAction)
    ensures
        final(actions)@ == old(actions)@ + act_if(condition, action),
{
    if condition {
        actions.push(action);
    }
    assert(actions@ =~= old(actions)@ + act_if(condition, action));
}

impl WndState {
    /// The overlay before its first turn.
    pub fn new() -> (r: WndState)
        ensures
            r@ == fresh_overlay(),
    {
        WndState {
            vm: ViewModel::default(),
            win_w: 1,
            win_h: 1,
            force_sync: true,
            needs_paint_hud: false,
            needs_paint_bench: false,
        }
    }

    fn take_over_vm(&mut self, vm: ViewModel, actions: &mut Vec<OverlayAction>)
        ensures
            final(self)@ == take_over(old(self)@, vm@).0,
            final(actions)@ == old(actions)@ + take_over(old(self)@, vm@).1,
    {
        let ghost before = actions@;
        push_act(
            actions,
            self.vm.hud1_visible != vm.hud1_visible,
            OverlayAction::ShowHud(vm.hud1_visible),
        );
        push_act(
            actions,
            self.vm.hud2_visible != vm.hud2_visible,
            OverlayAction::ShowBench(vm.hud2_visible),
        );
        assert(actions@ =~= before + take_over(old(self)@, vm@).1);
        if !strings_eq(&self.vm.hud1_lines, &vm.hud1_lines) || self.vm.hud1_title != vm.hud1_title {
            self.needs_paint_hud = true;
        }
        if self.vm.hud2_selected_slot != vm.hud2_selected_slot {
            self.needs_paint_bench = true;
        }
        self.vm = vm;
        self.force_sync = true;
    }

    fn follow_window(&mut self, ms_since_sync: u64, actions: &mut Vec<OverlayAction>)
        ensures
            final(self)@ == follow(old(self)@, ms_since_sync).0,
            final(actions)@ == old(actions)@ + follow(old(self)@, ms_since_sync).1,
    {
        let ghost before = actions@;
        if self.force_sync || ms_since_sync >= SYNC_INTERVAL_MS {
            let rect = self.vm.lcu_rect;
            let moves = rect.width > 0 && (rect.width != self.win_w || rect.height != self.win_h
                || self.force_sync);
            push_act(actions, true, OverlayAction::Synced);
            push_act(
                actions,
                moves && self.vm.hud2_visible,
                OverlayAction::PlaceBench(rect),
            );
            if moves {
                self.win_w = rect.width;
                self.win_h = rect.height;
                self.needs_paint_hud = true;
                self.needs_paint_bench = true;
            }
            self.force_sync = false;
        }
        assert(actions@ =~= before + follow(old(self)@, ms_since_sync).1);
    }

    fn paint_windows(&mut self, actions: &mut Vec<OverlayAction>)
        ensures
            final(self)@ == paint(old(self)@).0,
            final(actions)@ == old(actions)@ + paint(old(self)@).1,
    {
        let ghost before = actions@;
        push_act(
            actions,
            self.needs_paint_hud && self.vm.hud1_visible,
            OverlayAction::PaintHud,
        );
        push_act(
            actions,
            self.needs_paint_bench && self.vm.hud2_visible,
            OverlayAction::PaintBench,
        );
        assert(actions@ =~= before + paint(old(self)@).1);
        self.needs_paint_hud = self.needs_paint_hud && !self.vm.hud1_visible;
        self.needs_paint_bench = self.needs_paint_bench && !self.vm.hud2_visible;
    }

    /// Takes one turn: takes over a new snapshot if there is one, follows the client's
    /// window, and paints.
    pub fn overlay_message_loop(&mut self, vm: Option<ViewModel>, ms_since_sync: u64) -> (r: Vec<
        OverlayAction,
    >)
        ensures
            (final(self)@, r@) == overlay_turn(
                old(self)@,
                match vm {
                    Some(v) => Some(v@),
                    None => None,
                },
                ms_since_sync,
            ),
    {
        let mut actions: Vec<OverlayAction> = Vec::new();
        match vm {
            Some(vm) => {
                self.take_over_vm(vm, &mut actions);
            },
            None => {},
        }
        self.follow_window(ms_since_sync, &mut actions);
        self.paint_windows(&mut actions);
        assert(actions@ =~= overlay_turn(
            old(self)@,
            match vm {
                Some(v) => Some(v@),
                None => None,
            },
            ms_since_sync,
        ).1);
        actions
    }
}

/// What is shown is never out of date: after a turn nothing is left to be painted in a
/// window that is shown.
pub proof fn law_shown_windows_are_painted(
    s: WndView,
    vm: Option<ViewModelView>,
    ms_since_sync: u64,
)
    ensures
        overlay_turn(s, vm, ms_since_sync).0.needs_paint_hud ==> !overlay_turn(
            s,
            vm,
            ms_since_sync,
        ).0.vm.hud1_visible,
        overlay_turn(s, vm, ms_since_sync).0.needs_paint_bench ==> !overlay_turn(
            s,
            vm,
            ms_since_sync,
        ).0.vm.hud2_visible,
{
}

/// A change of the panel's text or of the highlighted slot is painted in the same turn
/// where the window is shown, and is kept for later where it is not.
pub proof fn law_changes_are_painted(s: WndView, vm: ViewModelView, ms_since_sync: u64)
    ensures
        s.vm.hud1_lines != vm.hud1_lines || s.vm.hud1_title != vm.hud1_title ==> if vm.hud1_visible {
            overlay_turn(s, Some(vm), ms_since_sync).1.contains(OverlayAction::PaintHud)
        } else {
            overlay_turn(s, Some(vm), ms_since_sync).0.needs_paint_hud
        },
        s.vm.hud2_selected_slot != vm.hud2_selected_slot ==> if vm.hud2_visible {
            overlay_turn(s, Some(vm), ms_since_sync).1.contains(OverlayAction::PaintBench)
        } else {
            overlay_turn(s, Some(vm), ms_since_sync).0.needs_paint_bench
        },
{
    let (a, first) = take_over(s, vm);
    let (b, second) = follow(a, ms_since_sync);
    let (c, third) = paint(b);
    let all = first + second + third;
    if b.needs_paint_hud && vm.hud1_visible {
        assert(third[0] == OverlayAction::PaintHud);
        assert(all[(first + second).len() as int] == OverlayAction::PaintHud);
    }
    if b.needs_paint_bench && vm.hud2_visible {
        assert(third[third.len() - 1] == OverlayAction::PaintBench);
        assert(all[all.len() - 1] == OverlayAction::PaintBench);
    }
}

/// The panel and the bench layer are shown and hidden each on its own.
pub proof fn law_windows_are_independent(s: WndView, vm: ViewModelView)
    ensures
        s.vm.hud2_visible == vm.hud2_visible ==> !take_over(s, vm).1.contains(
            OverlayAction::ShowBench(true),
        ) && !take_over(s, vm).1.contains(OverlayAction::ShowBench(false)),
        s.vm.hud1_visible == vm.hud1_visible ==> !take_over(s, vm).1.contains(
            OverlayAction::ShowHud(true),
        ) && !take_over(s, vm).1.contains(OverlayAction::ShowHud(false)),
{
}

/// The code of a keyboard hook for a key that was pressed, the message for it, and the
/// number of the hot key.
pub const HC_ACTION: i32 = 0;

pub const WM_KEYDOWN: u32 = 0x0100;

pub const VK_F1: u32 = 0x70;

/// A call of the keyboard hook is the hot key being pressed.
pub open spec fn hotkey_pressed(code: i32, message: u32, key: u32) -> bool {
    code == HC_ACTION && message == WM_KEYDOWN && key == VK_F1
}

/// Whether a call of the keyboard hook is the hot key being pressed.
pub fn is_hotkey(code: i32, message: u32, key: u32) -> (r: bool)
    ensures
        r == hotkey_pressed(code, message, key),
{
    code == HC_ACTION && message == WM_KEYDOWN && key == VK_F1
}

} // verus!
