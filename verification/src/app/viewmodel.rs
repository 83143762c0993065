//! What the overlay shows.

use crate::text::views;
use vstd::prelude::*;

verus! {

/// A rectangle on the screen.
#[derive(Clone, Copy, Debug, PartialEq, Eq, Structural)]
pub struct LcuRect {
    pub x: i32,
    pub y: i32,
    pub width: i32,
    pub height: i32,
}

impl Default for LcuRect {
    fn default() -> (r: Self)
        ensures
            r == (LcuRect { x: 0, y: 0, width: 0, height: 0 }),
    {
        LcuRect { x: 0, y: 0, width: 0, height: 0 }
    }
}

/// A snapshot of everything that the overlay shows.
pub struct ViewModel {
    /// Whether the information panel at the top left is shown.
    pub hud1_visible: bool,
    /// Its title.
    pub hud1_title: String,
    /// Its lines.
    pub hud1_lines: Vec<String>,
    /// Whether the bench layer is shown.
    pub hud2_visible: bool,
    /// The bench slot that is highlighted.
    pub hud2_selected_slot: Option<usize>,
    /// A countdown, in seconds.
    pub countdown_secs: Option<u32>,
    /// Where the client's window is.
    pub lcu_rect: LcuRect,
    /// The bits of the client's zoom factor, a floating-point number.
    pub zoom_scale_bits: u64,
    /// Whether the client is connected.
    pub is_connected: bool,
    /// The phase of the game flow.
    pub current_phase: String,
}

/// What a `ViewModel` holds.
pub struct ViewModelView {
    pub hud1_visible: bool,
    pub hud1_title: Seq<char>,
    pub hud1_lines: Seq<Seq<char>>,
    pub hud2_visible: bool,
    pub hud2_selected_slot: Option<usize>,
    pub countdown_secs: Option<u32>,
    pub lcu_rect: LcuRect,
    pub zoom_scale_bits: u64,
    pub is_connected: bool,
    pub current_phase: Seq<char>,
}

impl View for ViewModel {
    type V = ViewModelView;

    open spec fn view(&self) -> ViewModelView {
        ViewModelView {
            hud1_visible: self.hud1_visible,
            hud1_title: self.hud1_title@,
            hud1_lines: views(self.hud1_lines@),
            hud2_visible: self.hud2_visible,
            hud2_selected_slot: self.hud2_selected_slot,
            countdown_secs: self.countdown_secs,
            lcu_rect: self.lcu_rect,
            zoom_scale_bits: self.zoom_scale_bits,
            is_connected: self.is_connected,
            current_phase: self.current_phase@,
        }
    }
}

/// A snapshot that shows nothing.
pub open spec fn blank_view() -> ViewModelView {
    ViewModelView {
        hud1_visible: false,
        hud1_title: Seq::empty(),
        hud1_lines: Seq::empty(),
        hud2_visible: false,
        hud2_selected_slot: None,
        countdown_secs: None,
        lcu_rect: LcuRect { x: 0, y: 0, width: 0, height: 0 },
        zoom_scale_bits: 0,
        is_connected: false,
        current_phase: Seq::empty(),
    }
}

impl Default for ViewModel {
    fn default() -> (r: Self)
        ensures
            r@ == blank_view(),
    {
        let r = ViewModel {
            hud1_visible: false,
            hud1_title: String::new(),
            hud1_lines: Vec::new(),
            hud2_visible: false,
            hud2_selected_slot: None,
            countdown_secs: None,
            lcu_rect: LcuRect::default(),
            zoom_scale_bits: 0,
            is_connected: false,
            current_phase: String::new(),
        };
        assert(r@.hud1_lines =~= Seq::empty());
        r
    }
}

impl ViewModel {
    /// A copy of the snapshot.
    pub fn copy(&self) -> (r: ViewModel)
        ensures
            r@ == self@,
    {
        ViewModel {
            hud1_visible: self.hud1_visible,
            hud1_title: self.hud1_title.clone(),
            hud1_lines: crate::text::copy_strings(&self.hud1_lines),
            hud2_visible: self.hud2_visible,
            hud2_selected_slot: self.hud2_selected_slot,
            countdown_secs: self.countdown_secs,
            lcu_rect: self.lcu_rect,
            zoom_scale_bits: self.zoom_scale_bits,
            is_connected: self.is_connected,
            current_phase: self.current_phase.clone(),
        }
    }
}

} // verus!
