//! The events that drive the assistant.

use crate::json::{Json, JsonView};
use crate::lcu::api::LcuClient;
use crate::lcu::websocket::{LcuEvent, LcuEventView};
use vstd::prelude::*;

verus! {

/// What the user picked from the tray menu.
#[derive(Clone, Copy, Debug, PartialEq, Eq, Structural)]
pub enum TrayAction {
    ReloadUx,
    PlayAgain,
    FindForgottenLoot,
    FixWindow,
    ToggleAutoAccept,
    ToggleAutoHonor,
    TogglePremadeChamp,
    ToggleMemoryMonitor,
    Exit,
}

/// Something that happened. A zoom factor is given by the bits of the floating-point
/// number.
pub enum AppEvent {
    /// The client is connected.
    LcuConnected(LcuClient),
    /// The client is gone.
    LcuDisconnected,
    /// An event of the client.
    LcuEvent(LcuEvent),
    /// The phase of the game flow, asked for when the client was connected.
    LcuPhaseChanged(String),
    /// A session of champion select.
    LcuSessionUpdated(Json),
    /// A choice from the tray menu.
    TrayAction(TrayAction),
    /// A click on a bench slot.
    BenchClick(usize),
    /// The attempt to get the champion of a bench slot is over.
    SniperFinished(usize),
    /// The hot key.
    HotKeyF1,
    /// A second has passed.
    Tick,
    /// A result of looking at the players.
    ScoutResult { puuid: String, content: String, is_premade: bool, is_enemy: bool },
    /// The client's window has to be brought to its proper size.
    RequestWindowFix { zoom: u64, forced: bool },
    /// Where the client's window is.
    WindowRectUpdated { x: i32, y: i32, width: i32, height: i32, zoom_scale: u64 },
    /// The program is to end.
    Quit,
}

/// What an `AppEvent` holds.
pub enum AppEventView {
    LcuConnected(Seq<char>),
    LcuDisconnected,
    LcuEvent(LcuEventView),
    LcuPhaseChanged(Seq<char>),
    LcuSessionUpdated(JsonView),
    TrayAction(TrayAction),
    BenchClick(usize),
    SniperFinished(usize),
    HotKeyF1,
    Tick,
    ScoutResult { puuid: Seq<char>, content: Seq<char>, is_premade: bool, is_enemy: bool },
    RequestWindowFix { zoom: u64, forced: bool },
    WindowRectUpdated { x: i32, y: i32, width: i32, height: i32, zoom_scale: u64 },
    Quit,
}

impl View for AppEvent {
    type V = AppEventView;

    open spec fn view(&self) -> AppEventView {
        match self {
            AppEvent::LcuConnected(c) => AppEventView::LcuConnected(c@),
            AppEvent::LcuDisconnected => AppEventView::LcuDisconnected,
            AppEvent::LcuEvent(e) => AppEventView::LcuEvent(e@),
            AppEvent::LcuPhaseChanged(p) => AppEventView::LcuPhaseChanged(p@),
            AppEvent::LcuSessionUpdated(s) => AppEventView::LcuSessionUpdated(s@),
            AppEvent::TrayAction(a) => AppEventView::TrayAction(*a),
            AppEvent::BenchClick(i) => AppEventView::BenchClick(*i),
            AppEvent::SniperFinished(i) => AppEventView::SniperFinished(*i),
            AppEvent::HotKeyF1 => AppEventView::HotKeyF1,
            AppEvent::Tick => AppEventView::Tick,
            AppEvent::ScoutResult { puuid, content, is_premade, is_enemy } => {
                AppEventView::ScoutResult {
                    puuid: puuid@,
                    content: content@,
                    is_premade: *is_premade,
                    is_enemy: *is_enemy,
                }
            },
            AppEvent::RequestWindowFix { zoom, forced } => AppEventView::RequestWindowFix {
                zoom: *zoom,
                forced: *forced,
            },
            AppEvent::WindowRectUpdated { x, y, width, height, zoom_scale } => {
                AppEventView::WindowRectUpdated {
                    x: *x,
                    y: *y,
                    width: *width,
                    height: *height,
                    zoom_scale: *zoom_scale,
                }
            },
            AppEvent::Quit => AppEventView::Quit,
        }
    }
}

} // verus!
