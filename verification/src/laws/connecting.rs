//! How the client is found, reached and listened to.

use crate::app::event::AppEventView;
use crate::json::JsonView;
use crate::lcu::api::ErrorView;
use crate::lcu::connection::{
    base64_of, credentials_in, port_in, port_prefix, process_credentials, token_in, ProcessInfo,
};
use crate::lcu::monitor::{monitor_after, MonitorEventView, MonitorStage, MonitorStepView};
use crate::lcu::websocket::{event_in, event_of_message, LcuEvent, LcuEventView};
use crate::text::{has_infix, has_prefix, lowercase_of, parsed_unsigned, views};
use vstd::utf8::encode_utf8;
use vstd::prelude::*;

verus! {

/// The stages of the connection follow each other: the client is looked for, the means to
/// send requests are built, the connection for events is opened and announced, and then the
/// phase and the events are passed on.
pub proof fn law_connection_goes_on(client: Seq<char>, phase: Seq<char>, event: LcuEventView)
    ensures
        monitor_after(MonitorStage::Searching, MonitorEventView::Found) == (MonitorStepView {
            stage: MonitorStage::Building,
            tell: None,
            wait_secs: 0,
        }),
        monitor_after(MonitorStage::Building, MonitorEventView::Built(true)) == (MonitorStepView {
            stage: MonitorStage::Connecting,
            tell: None,
            wait_secs: 0,
        }),
        monitor_after(MonitorStage::Connecting, MonitorEventView::Opened(Some(client))) == (
        MonitorStepView {
            stage: MonitorStage::Greeting,
            tell: Some(AppEventView::LcuConnected(client)),
            wait_secs: 0,
        }),
        monitor_after(MonitorStage::Greeting, MonitorEventView::Phase(Ok(phase))) == (
        MonitorStepView {
            stage: MonitorStage::Forwarding,
            tell: Some(AppEventView::LcuPhaseChanged(phase)),
            wait_secs: 0,
        }),
        forall|stage: MonitorStage|
            stage == MonitorStage::Greeting || stage == MonitorStage::Forwarding
                ==> #[trigger] monitor_after(stage, MonitorEventView::Event(event)) == (
            MonitorStepView {
                stage,
                tell: Some(AppEventView::LcuEvent(event)),
                wait_secs: 0,
            }),
{
}

/// Whatever fails before the connection is open, and the end of an open connection, lead
/// back to the beginning after three seconds; only the latter is announced. A phase that
/// could not be had is passed over.
pub proof fn law_connection_starts_over(e: ErrorView)
    ensures
        monitor_after(MonitorStage::Building, MonitorEventView::Built(false)) == (MonitorStepView {
            stage: MonitorStage::Searching,
            tell: None,
            wait_secs: 3,
        }),
        monitor_after(MonitorStage::Connecting, MonitorEventView::Opened(None)) == (
        MonitorStepView { stage: MonitorStage::Searching, tell: None, wait_secs: 3 }),
        monitor_after(MonitorStage::Forwarding, MonitorEventView::Closed) == (MonitorStepView {
            stage: MonitorStage::Searching,
            tell: Some(AppEventView::LcuDisconnected),
            wait_secs: 3,
        }),
        monitor_after(MonitorStage::Greeting, MonitorEventView::Phase(Err(e))) == (
        MonitorStepView { stage: MonitorStage::Forwarding, tell: None, wait_secs: 0 }),
{
}

/// A message carries an event where it is a list of the number 8, the name `OnJsonApiEvent`
/// and the event; and only an event at an address that holds `gameflow`, `champ-select`,
/// `ready-check` or `lobby` is passed on.
pub proof fn law_which_messages_carry_events(
    items: Seq<JsonView>,
    opcode: Seq<char>,
    event_type: Seq<char>,
    uri: Seq<char>,
    payload: JsonView,
)
    requires
        items.len() >= 3,
        items[2].field("opcode"@) == Some(JsonView::Str(opcode)),
        items[2].field("event_type"@) == Some(JsonView::Str(event_type)),
        items[2].field("uri"@) == Some(JsonView::Str(uri)),
        items[2].field("payload"@) == Some(payload),
    ensures
        ({
            let e = event_of_message(JsonView::Array(items));
            let wanted = has_infix(uri, "gameflow"@) || has_infix(uri, "champ-select"@)
                || has_infix(uri, "ready-check"@) || has_infix(uri, "lobby"@);
            &&& e is Some <==> items[0].integer() == Some(8i64) && items[1] == JsonView::Str(
                "OnJsonApiEvent"@,
            ) && wanted
            &&& e is Some ==> e->0.opcode == opcode && e->0.event_type == event_type && e->0.uri
                == uri && e->0.payload == payload
        }),
{
}

/// An event may also be a list of its four parts, in order, and is the same event.
pub proof fn law_event_in_two_forms(
    opcode: JsonView,
    event_type: JsonView,
    uri: JsonView,
    payload: JsonView,
    v: JsonView,
)
    requires
        v.field("opcode"@) == Some(opcode),
        v.field("event_type"@) == Some(event_type),
        v.field("uri"@) == Some(uri),
        v.field("payload"@) == Some(payload),
    ensures
        event_in(v) == event_in(JsonView::Array(seq![opcode, event_type, uri, payload])),
        event_in(v) is Some <==> opcode is Str && event_type is Str && uri is Str,
{
}

/// Anything but a list of at least three items carries no event.
pub proof fn law_other_messages_carry_nothing(v: JsonView)
    requires
        !(v is Array) || v->Array_0.len() < 3,
    ensures
        event_of_message(v) is None,
{
}

/// The last argument that gives a port decides, whatever it says; one that gives none
/// leaves the port as it was.
pub proof fn law_last_port_decides(args: Seq<Seq<char>>, arg: Seq<char>, digits: Seq<char>)
    ensures
        port_in(args.push("--app-port="@ + digits)) == parsed_unsigned(digits, 65535),
        !has_prefix(arg, "--app-port="@) ==> port_in(args.push(arg)) == port_in(args),
        port_in(Seq::empty()) is None,
{
    let given = "--app-port="@ + digits;
    assert(args.push(given).drop_last() =~= args);
    assert(args.push(arg).drop_last() =~= args);
    assert(given.subrange(0, "--app-port="@.len() as int) =~= "--app-port="@);
    assert(given.subrange("--app-port="@.len() as int, given.len() as int) =~= digits);
}

/// The last argument that gives a token decides; one that gives none leaves it as it was.
pub proof fn law_last_token_decides(args: Seq<Seq<char>>, arg: Seq<char>, token: Seq<char>)
    ensures
        token_in(args.push("--remoting-auth-token="@ + token)) == Some(token),
        !has_prefix(arg, "--remoting-auth-token="@) ==> token_in(args.push(arg)) == token_in(args),
        token_in(Seq::empty()) is None,
{
    let given = "--remoting-auth-token="@ + token;
    assert(args.push(given).drop_last() =~= args);
    assert(args.push(arg).drop_last() =~= args);
    assert(given.subrange(0, "--remoting-auth-token="@.len() as int)
        =~= "--remoting-auth-token="@);
    assert(given.subrange("--remoting-auth-token="@.len() as int, given.len() as int) =~= token);
    reveal_strlit("--remoting-auth-token=");
    reveal_strlit("--app-port=");
    if has_prefix(given, port_prefix()) {
        assert(given.subrange(0, "--app-port="@.len() as int)[2] == given[2]);
        assert(given[2] == "--remoting-auth-token="@[2]);
        assert(false);
    }
}

/// A process gives away credentials where both a port and a token are among its arguments;
/// the header is the login of `riot` with that token.
pub proof fn law_credentials_need_port_and_token(args: Seq<Seq<char>>)
    ensures
        credentials_in(args) is Some <==> port_in(args) is Some && token_in(args) is Some,
        credentials_in(args) matches Some(c) ==> Some(c.port as nat) == port_in(args) && Some(
            c.auth_token,
        ) == token_in(args) && c.auth_header == "Basic "@ + base64_of(
            encode_utf8("riot:"@ + c.auth_token),
        ),
{
    lemma_port_range(args);
}

proof fn lemma_port_range(args: Seq<Seq<char>>)
    ensures
        port_in(args) matches Some(p) ==> p <= u16::MAX,
    decreases args.len(),
{
    if args.len() > 0 {
        lemma_port_range(args.drop_last());
    }
}

/// Only the client's own processes count, whatever the letters of their names: those named
/// `LeagueClient.exe` and `LeagueClientUx.exe`.
pub proof fn law_only_the_client_gives_credentials(p: ProcessInfo)
    ensures
        process_credentials(p) is Some ==> lowercase_of(p.name@) == "leagueclient.exe"@
            || lowercase_of(p.name@) == "leagueclientux.exe"@,
        lowercase_of(p.name@) == "leagueclient.exe"@ || lowercase_of(p.name@)
            == "leagueclientux.exe"@ ==> process_credentials(p) == credentials_in(views(p.cmd@)),
{
}

} // verus!
