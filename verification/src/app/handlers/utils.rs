//! What the reactions have in common.

use crate::json::{opt_view, Json, JsonView};
use vstd::prelude::*;

verus! {

/// The data of an event, where it is an object or a string.
pub open spec fn data_of(event: JsonView) -> Option<JsonView> {
    match event.field("data"@) {
        Some(data) => if data is Object || data is Str {
            Some(data)
        } else {
            None
        },
        None => None,
    }
}

/// The data of an event.
pub fn event_data(event: &Json) -> (r: Option<&Json>)
    ensures
        opt_view(r) == data_of(event@),
{
    match event.get("data") {
        Some(data) => {
            if data.is_object() || data.is_string() {
                Some(data)
            } else {
                None
            }
        },
        None => None,
    }
}

/// What is to be done with the overlay.
#[derive(Debug)]
pub enum OverlayCmd {
    Show,
    Hide,
    /// Show or hide the bench layer.
    ShowBench(bool),
    /// Show a state and a message; an empty one is left as it is.
    UpdateHud(String, String),
    /// Show ratings.
    UpdateProphet(String),
    ClearHud,
    /// Ask the client for its zoom factor and fix its window where it is misshapen.
    AutoFixWindow,
    SetSelectedSlot(usize),
    ClearSelectedSlot,
}

/// What an `OverlayCmd` holds.
pub enum OverlayCmdView {
    Show,
    Hide,
    ShowBench(bool),
    UpdateHud(Seq<char>, Seq<char>),
    UpdateProphet(Seq<char>),
    ClearHud,
    AutoFixWindow,
    SetSelectedSlot(usize),
    ClearSelectedSlot,
}

impl View for OverlayCmd {
    type V = OverlayCmdView;

    open spec fn view(&self) -> OverlayCmdView {
        match self {
            OverlayCmd::Show => OverlayCmdView::Show,
            OverlayCmd::Hide => OverlayCmdView::Hide,
            OverlayCmd::ShowBench(b) => OverlayCmdView::ShowBench(*b),
            OverlayCmd::UpdateHud(a, b) => OverlayCmdView::UpdateHud(a@, b@),
            OverlayCmd::UpdateProphet(a) => OverlayCmdView::UpdateProphet(a@),
            OverlayCmd::ClearHud => OverlayCmdView::ClearHud,
            OverlayCmd::AutoFixWindow => OverlayCmdView::AutoFixWindow,
            OverlayCmd::SetSelectedSlot(i) => OverlayCmdView::SetSelectedSlot(*i),
            OverlayCmd::ClearSelectedSlot => OverlayCmdView::ClearSelectedSlot,
        }
    }
}

/// The views of some commands.
pub open spec fn cmd_views(s: Seq<OverlayCmd>) -> Seq<OverlayCmdView> {
    Seq::new(s.len(), |i: int| s[i]@)
}

} // verus!
