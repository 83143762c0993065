//! The connection to the client: looking for it, connecting, and starting over when it is
//! gone.

use crate::app::event::{AppEvent, AppEventView};
use crate::lcu::api::{text_result, ErrorView, LcuApiError, LcuClient};
use crate::lcu::websocket::{LcuEvent, LcuEventView};
use vstd::prelude::*;

verus! {

/// How long to wait before starting over, in seconds.
pub const RESTART_SECS: u64 = 3;

/// How far the connection has come.
#[derive(Clone, Copy, Debug, PartialEq, Eq, Structural)]
pub enum MonitorStage {
    /// The client's credentials are looked for.
    Searching,
    /// The means to send requests are built.
    Building,
    /// The connection for events is opened.
    Connecting,
    /// The phase is asked for.
    Greeting,
    /// Events are passed on.
    Forwarding,
}

/// What came of a stage.
pub enum MonitorEvent {
    /// The credentials were found.
    Found,
    /// The means to send requests were built, or not.
    Built(bool),
    /// The connection for events was opened, for this client, or not.
    Opened(Option<LcuClient>),
    /// The client's answer on the phase.
    Phase(Result<String, LcuApiError>),
    /// An event of the client.
    Event(LcuEvent),
    /// The connection for events has ended.
    Closed,
}

/// What a `MonitorEvent` holds.
pub enum MonitorEventView {
    Found,
    Built(bool),
    Opened(Option<Seq<char>>),
    Phase(Result<Seq<char>, ErrorView>),
    Event(LcuEventView),
    Closed,
}

impl View for MonitorEvent {
    type V = MonitorEventView;

    open spec fn view(&self) -> MonitorEventView {
        match self {
            MonitorEvent::Found => MonitorEventView::Found,
            MonitorEvent::Built(ok) => MonitorEventView::Built(*ok),
            MonitorEvent::Opened(c) => MonitorEventView::Opened(
                match c {
                    Some(c) => Some(c@),
                    None => None,
                },
            ),
            MonitorEvent::Phase(r) => MonitorEventView::Phase(text_result(*r)),
            MonitorEvent::Event(e) => MonitorEventView::Event(e@),
            MonitorEvent::Closed => MonitorEventView::Closed,
        }
    }
}

/// What follows: the next stage, what the main loop is told, and how long to wait before
/// the next stage begins.
pub struct MonitorStep {
    pub stage: MonitorStage,
    pub tell: Option<AppEvent>,
    pub wait_secs: u64,
}

/// What a `MonitorStep` holds.
pub struct MonitorStepView {
    pub stage: MonitorStage,
    pub tell: Option<AppEventView>,
    pub wait_secs: u64,
}

impl View for MonitorStep {
    type V = MonitorStepView;

    open spec fn view(&self) -> MonitorStepView {
        MonitorStepView {
            stage: self.stage,
            tell: match self.tell {
                Some(e) => Some(e@),
                None => None,
            },
            wait_secs: self.wait_secs,
        }
    }
}

/// Going on at once.
pub open spec fn go_on(stage: MonitorStage, tell: Option<AppEventView>) -> MonitorStepView {
    MonitorStepView { stage, tell, wait_secs: 0 }
}

/// Starting over after a while.
pub open spec fn start_over(tell: Option<AppEventView>) -> MonitorStepView {
    MonitorStepView { stage: MonitorStage::Searching, tell, wait_secs: RESTART_SECS }
}

/// What follows an event at a stage. A stage that fails leads back to the beginning. Once
/// the connection is open the main loop is told of the client, then of its phase where the
/// client gave it, then of its events, and at the end that it is gone. Events that do not
/// belong to the stage change nothing.
pub open spec fn monitor_after(stage: MonitorStage, e: MonitorEventView) -> MonitorStepView {
    match (stage, e) {
        (MonitorStage::Searching, MonitorEventView::Found) => go_on(MonitorStage::Building, None),
        (MonitorStage::Building, MonitorEventView::Built(ok)) => if ok {
            go_on(MonitorStage::Connecting, None)
        } else {
            start_over(None)
        },
        (MonitorStage::Connecting, MonitorEventView::Opened(client)) => match client {
            Some(c) => go_on(MonitorStage::Greeting, Some(AppEventView::LcuConnected(c))),
            None => start_over(None),
        },
        (MonitorStage::Greeting, MonitorEventView::Phase(phase)) => match phase {
            Ok(p) => go_on(MonitorStage::Forwarding, Some(AppEventView::LcuPhaseChanged(p))),
            Err(_) => go_on(MonitorStage::Forwarding, None),
        },
        (MonitorStage::Greeting, MonitorEventView::Event(e)) => go_on(
            stage,
            Some(AppEventView::LcuEvent(e)),
        ),
        (MonitorStage::Forwarding, MonitorEventView::Event(e)) => go_on(
            stage,
            Some(AppEventView::LcuEvent(e)),
        ),
        (MonitorStage::Forwarding, MonitorEventView::Closed) => start_over(
            Some(AppEventView::LcuDisconnected),
        ),
        _ => go_on(stage, None),
    }
}

/// What follows an event at a stage.
pub fn connection_monitor_loop(stage: MonitorStage, event: MonitorEvent) -> (r: MonitorStep)
    ensures
        r@ == monitor_after(stage, event@),
{
    match (stage, event) {
        (MonitorStage::Searching, MonitorEvent::Found) => MonitorStep {
            stage: MonitorStage::Building,
            tell: None,
            wait_secs: 0,
        },
        (MonitorStage::Building, MonitorEvent::Built(ok)) => if ok {
            MonitorStep { stage: MonitorStage::Connecting, tell: None, wait_secs: 0 }
        } else {
            MonitorStep { stage: MonitorStage::Searching, tell: None, wait_secs: RESTART_SECS }
        },
        (MonitorStage::Connecting, MonitorEvent::Opened(client)) => match client {
            Some(c) => MonitorStep {
                stage: MonitorStage::Greeting,
                tell: Some(AppEvent::LcuConnected(c)),
                wait_secs: 0,
            },
            None => MonitorStep {
                stage: MonitorStage::Searching,
                tell: None,
                wait_secs: RESTART_SECS,
            },
        },
        (MonitorStage::Greeting, MonitorEvent::Phase(phase)) => match phase {
            Ok(p) => MonitorStep {
                stage: MonitorStage::Forwarding,
                tell: Some(AppEvent::LcuPhaseChanged(p)),
                wait_secs: 0,
            },
            Err(_) => MonitorStep { stage: MonitorStage::Forwarding, tell: None, wait_secs: 0 },
        },
        (MonitorStage::Greeting, MonitorEvent::Event(e)) => MonitorStep {
            stage: MonitorStage::Greeting,
            tell: Some(AppEvent::LcuEvent(e)),
            wait_secs: 0,
        },
        (MonitorStage::Forwarding, MonitorEvent::Event(e)) => MonitorStep {
            stage: MonitorStage::Forwarding,
            tell: Some(AppEvent::LcuEvent(e)),
            wait_secs: 0,
        },
        (MonitorStage::Forwarding, MonitorEvent::Closed) => MonitorStep {
            stage: MonitorStage::Searching,
            tell: Some(AppEvent::LcuDisconnected),
            wait_secs: RESTART_SECS,
        },
        (stage, _) => MonitorStep { stage, tell: None, wait_secs: 0 },
    }
}

/// The main loop has been told that the client is connected, and not yet that it is gone.
pub open spec fn announced(stage: MonitorStage) -> bool {
    stage == MonitorStage::Greeting || stage == MonitorStage::Forwarding
}

/// The main loop is told in turn that the client is connected and that it is gone, and of
/// phases and events only in between.
pub proof fn law_connection_is_announced_in_turn(stage: MonitorStage, e: MonitorEventView)
    ensures
        match monitor_after(stage, e).tell {
            Some(AppEventView::LcuConnected(_)) => !announced(stage) && announced(
                monitor_after(stage, e).stage,
            ),
            Some(AppEventView::LcuDisconnected) => announced(stage) && !announced(
                monitor_after(stage, e).stage,
            ),
            Some(_) => announced(stage) && announced(monitor_after(stage, e).stage),
            None => announced(stage) == announced(monitor_after(stage, e).stage),
        },
{
}

} // verus!
