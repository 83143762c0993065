//! The events that the client sends.

use crate::json::{json_parse, lemma_array_view, parse, Json, JsonView};
use crate::lcu::connection::LcuCredentials;
use crate::text::{concat, contains, decimal, has_infix, str_eq, u64_text};
use vstd::prelude::*;

verus! {

/// How large a message of the client may be, in bytes.
pub const MAX_MESSAGE_BYTES: usize = 67108864;

/// The message that asks the client for all of its events.
pub const SUBSCRIPTION: &'static str = "[5,\"OnJsonApiEvent\"]";

/// An event of the client.
#[derive(Debug)]
pub struct LcuEvent {
    pub opcode: String,
    pub event_type: String,
    pub uri: String,
    pub payload: Json,
}

/// What an `LcuEvent` holds.
pub struct LcuEventView {
    pub opcode: Seq<char>,
    pub event_type: Seq<char>,
    pub uri: Seq<char>,
    pub payload: JsonView,
}

impl View for LcuEvent {
    type V = LcuEventView;

    open spec fn view(&self) -> LcuEventView {
        LcuEventView {
            opcode: self.opcode@,
            event_type: self.event_type@,
            uri: self.uri@,
            payload: self.payload@,
        }
    }
}

/// The view of an event that may be missing.
pub open spec fn event_view(e: Option<LcuEvent>) -> Option<LcuEventView> {
    match e {
        Some(e) => Some(e@),
        None => None,
    }
}

/// An event from its four parts, the first three of which have to be strings.
pub open spec fn event_of_parts(
    opcode: JsonView,
    event_type: JsonView,
    uri: JsonView,
    payload: JsonView,
) -> Option<LcuEventView> {
    match (opcode, event_type, uri) {
        (JsonView::Str(opcode), JsonView::Str(event_type), JsonView::Str(uri)) => Some(
            LcuEventView { opcode, event_type, uri, payload },
        ),
        _ => None,
    }
}

/// The event that a JSON value writes: an object with the four parts as members, or an
/// array of the four parts in order.
pub open spec fn event_in(v: JsonView) -> Option<LcuEventView> {
    match v {
        JsonView::Object(_) => match (
            v.field("opcode"@),
            v.field("event_type"@),
            v.field("uri"@),
            v.field("payload"@),
        ) {
            (Some(opcode), Some(event_type), Some(uri), Some(payload)) => event_of_parts(
                opcode,
                event_type,
                uri,
                payload,
            ),
            _ => None,
        },
        JsonView::Array(s) => if s.len() == 4 {
            event_of_parts(s[0], s[1], s[2], s[3])
        } else {
            None
        },
        _ => None,
    }
}

/// Whether the assistant reacts to events at an address.
pub open spec fn watched(uri: Seq<char>) -> bool {
    has_infix(uri, "gameflow"@) || has_infix(uri, "champ-select"@) || has_infix(
        uri,
        "ready-check"@,
    ) || has_infix(uri, "lobby"@)
}

/// The event that a message carries: an array of at least three items, the number 8,
/// the string `OnJsonApiEvent` and the event, at an address that the assistant watches.
pub open spec fn event_of_message(v: JsonView) -> Option<LcuEventView> {
    match v {
        JsonView::Array(s) => if s.len() >= 3 && s[0].integer() == Some(8i64) && s[1].text() == Some(
            "OnJsonApiEvent"@,
        ) {
            match event_in(s[2]) {
                Some(e) => if watched(e.uri) {
                    Some(e)
                } else {
                    None
                },
                None => None,
            }
        } else {
            None
        },
        _ => None,
    }
}

fn event_from_parts(opcode: &Json, event_type: &Json, uri: &Json, payload: &Json) -> (r: Option<
    LcuEvent,
>)
    ensures
        event_view(r) == event_of_parts(opcode@, event_type@, uri@, payload@),
{
    match (opcode, event_type, uri) {
        (Json::Str(opcode), Json::Str(event_type), Json::Str(uri)) => Some(
            LcuEvent {
                opcode: opcode.clone(),
                event_type: event_type.clone(),
                uri: uri.clone(),
                payload: payload.copy(),
            },
        ),
        _ => None,
    }
}

impl LcuEvent {
    /// Reads an event.
    pub fn from_json(v: &Json) -> (r: Option<LcuEvent>)
        ensures
            event_view(r) == event_in(v@),
    {
        match v {
            Json::Object(_) => {
                match (v.get("opcode"), v.get("event_type"), v.get("uri"), v.get("payload")) {
                    (Some(opcode), Some(event_type), Some(uri), Some(payload)) => event_from_parts(
                        opcode,
                        event_type,
                        uri,
                        payload,
                    ),
                    _ => None,
                }
            },
            Json::Array(s) => {
                proof {
                    lemma_array_view(s@);
                }
                if s.len() == 4 {
                    event_from_parts(&s[0], &s[1], &s[2], &s[3])
                } else {
                    None
                }
            },
            _ => None,
        }
    }

    /// A copy of the event.
    pub fn copy(&self) -> (r: LcuEvent)
        ensures
            r@ == self@,
    {
        LcuEvent {
            opcode: self.opcode.clone(),
            event_type: self.event_type.clone(),
            uri: self.uri.clone(),
            payload: self.payload.copy(),
        }
    }
}

/// Whether the assistant reacts to events at an address.
pub fn is_watched(uri: &str) -> (r: bool)
    ensures
        r == watched(uri@),
{
    contains(uri, "gameflow") || contains(uri, "champ-select") || contains(uri, "ready-check")
        || contains(uri, "lobby")
}

/// The event that a message carries, once its text has been read.
pub fn event_from_message(v: &Json) -> (r: Option<LcuEvent>)
    ensures
        event_view(r) == event_of_message(v@),
{
    match v {
        Json::Array(s) => {
            proof {
                lemma_array_view(s@);
            }
            if s.len() < 3 {
                return None;
            }
            match s[0].as_i64() {
                Some(8) => {},
                _ => {
                    return None;
                },
            }
            match s[1].as_str() {
                Some(name) => {
                    if !str_eq(name, "OnJsonApiEvent") {
                        return None;
                    }
                },
                None => {
                    return None;
                },
            }
            match LcuEvent::from_json(&s[2]) {
                Some(e) => {
                    if is_watched(e.uri.as_str()) {
                        Some(e)
                    } else {
                        None
                    }
                },
                None => None,
            }
        },
        _ => None,
    }
}

/// The event that the text of a message carries. Text that is not JSON carries none.
pub fn event_from_text(text: &str) -> (r: Option<LcuEvent>)
    ensures
        event_view(r) == match json_parse(text@) {
            Ok(v) => event_of_message(v),
            Err(_) => None,
        },
{
    match parse(text) {
        Ok(v) => event_from_message(&v),
        Err(_) => None,
    }
}

/// The address at which the client sends its events.
pub fn ws_url(creds: &LcuCredentials) -> (r: String)
    ensures
        r@ == "wss://127.0.0.1:"@ + decimal(creds.port as nat) + "/"@,
{
    let mut r = concat("wss://127.0.0.1:", u64_text(creds.port as u64).as_str());
    r.append("/");
    r
}

/// A message on the connection.
pub enum WsMessage {
    /// Text.
    Text(String),
    /// The client closed the connection.
    Close,
    /// The connection failed.
    Failed,
    /// Anything else.
    Other,
}

/// What a message on the connection leads to.
pub enum WsOutcome {
    /// An event to be passed on.
    Event(LcuEvent),
    /// Nothing.
    Ignore,
    /// The end of the connection.
    End,
}

/// What follows a message: text may carry an event, and a connection that was closed or
/// failed has ended.
pub fn on_message(message: &WsMessage) -> (r: WsOutcome)
    ensures
        match message {
            WsMessage::Text(text) => {
                let carried = match json_parse(text@) {
                    Ok(v) => event_of_message(v),
                    Err(_) => None,
                };
                match r {
                    WsOutcome::Event(e) => carried == Some(e@),
                    WsOutcome::Ignore => carried is None,
                    WsOutcome::End => false,
                }
            },
            WsMessage::Close => r is End,
            WsMessage::Failed => r is End,
            WsMessage::Other => r is Ignore,
        },
{
    match message {
        WsMessage::Text(text) => match event_from_text(text.as_str()) {
            Some(e) => WsOutcome::Event(e),
            None => WsOutcome::Ignore,
        },
        WsMessage::Close => WsOutcome::End,
        WsMessage::Failed => WsOutcome::End,
        WsMessage::Other => WsOutcome::Ignore,
    }
}

} // verus!
