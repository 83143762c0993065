//! What requests say, and what the answers to them mean.

use crate::json::{whole_view, Json, JsonView};
use crate::lcu::api::{answer_meaning, bare_request, AnswerView, ErrorView, Method, RequestView};
use crate::lcu::api::chat::{self_message_after, SelfMessageNextView, SelfMessageStage};
use crate::lcu::api::gameflow;
use crate::lcu::api::gameflow::phase_in;
use crate::lcu::api::honor::{honor_after, step_request, vote_body, HonorNextView, HonorSkip};
use crate::lcu::api::lobby::dismissed;
use crate::text::decimal;
use vstd::prelude::*;

verus! {

/// The steps of skipping a vote, as long as the client refuses each with an error status:
/// three forms of a vote that honors nobody, for the game of the ballot, and then two
/// addresses for skipping. What the client refuses last ends it.
pub proof fn law_ways_are_tried_in_turn(game_id: i64, e: ErrorView)
    requires
        e is Http,
    ensures
        honor_after(HonorSkip::Vote { game_id, form: 0 }, Err(e)) == HonorNextView::Send(
            HonorSkip::Vote { game_id, form: 1 },
        ),
        honor_after(HonorSkip::Vote { game_id, form: 1 }, Err(e)) == HonorNextView::Send(
            HonorSkip::Vote { game_id, form: 2 },
        ),
        honor_after(HonorSkip::Vote { game_id, form: 2 }, Err(e)) == HonorNextView::Send(
            HonorSkip::Skip { endpoint: 0 },
        ),
        honor_after(HonorSkip::Skip { endpoint: 0 }, Err(e)) == HonorNextView::Send(
            HonorSkip::Skip { endpoint: 1 },
        ),
        honor_after(HonorSkip::Skip { endpoint: 1 }, Err(e)) == HonorNextView::Done(Ok(false)),
{
}

/// The ballot decides how skipping begins: with a vote for its game, or without one where it
/// names none. Without a ballot nothing is tried, and it is no failure.
pub proof fn law_ballot_decides_the_first_way(ballot: JsonView, e: ErrorView)
    ensures
        ballot.integer_field("gameId"@) matches Some(id) ==> honor_after(
            HonorSkip::Ballot,
            Ok(ballot),
        ) == HonorNextView::Send(HonorSkip::Vote { game_id: id, form: 0 }),
        ballot.integer_field("gameId"@) is None ==> honor_after(HonorSkip::Ballot, Ok(ballot))
            == HonorNextView::Send(HonorSkip::Skip { endpoint: 0 }),
        honor_after(HonorSkip::Ballot, Err(e)) == HonorNextView::Done(Ok(false)),
{
}

/// An error other than an error status ends it as a failure, with that error.
pub proof fn law_other_errors_are_failures(s: HonorSkip, e: ErrorView)
    requires
        !(s is Ballot),
        !(e is Http),
    ensures
        honor_after(s, Err(e)) == HonorNextView::Done(Err(e)),
{
}

/// A vote names its game and honors nobody; the forms differ in how they say so.
pub proof fn law_votes_honor_nobody(game_id: i64)
    ensures
        forall|form: u8|
            form < 3 ==> {
                let q = #[trigger] step_request(HonorSkip::Vote { game_id, form });
                &&& q.method is Post
                &&& q.endpoint == "/lol-honor-v2/v1/honor-player"@
                &&& q.body matches Some(body)
                &&& body.field("gameId"@) == Some(whole_view(game_id as int))
                &&& body.field("summonerId"@) == Some(whole_view(0))
                &&& form == 0 ==> body.field("honorCategory"@) == Some(JsonView::Str("OPT_OUT"@))
                &&& form == 1 ==> body.field("honorCategory"@) == Some(JsonView::Str("NONE"@))
                &&& form == 2 ==> body.field("honorType"@) == Some(JsonView::Str("OPT_OUT"@))
            },
        step_request(HonorSkip::Ballot) == bare_request(Method::Get, "/lol-honor-v2/v1/ballot"@),
        step_request(HonorSkip::Skip { endpoint: 0 }) == bare_request(
            Method::Post,
            "/lol-honor-v2/v1/ballot/skip"@,
        ),
        step_request(HonorSkip::Skip { endpoint: 1 }) == bare_request(
            Method::Post,
            "/lol-honor-v2/v1/skip"@,
        ),
{
    reveal_strlit("gameId");
    reveal_strlit("summonerId");
    reveal_strlit("honorCategory");
    reveal_strlit("honorType");
    assert("gameId"@.len() == 6 && "summonerId"@.len() == 10 && "honorCategory"@.len() == 13
        && "honorType"@.len() == 9);
    assert forall|form: u8| form < 3 implies {
        let q = #[trigger] step_request(HonorSkip::Vote { game_id, form });
        &&& q.method is Post
        &&& q.endpoint == "/lol-honor-v2/v1/honor-player"@
        &&& q.body matches Some(body)
        &&& body.field("gameId"@) == Some(whole_view(game_id as int))
        &&& body.field("summonerId"@) == Some(whole_view(0))
        &&& form == 0 ==> body.field("honorCategory"@) == Some(JsonView::Str("OPT_OUT"@))
        &&& form == 1 ==> body.field("honorCategory"@) == Some(JsonView::Str("NONE"@))
        &&& form == 2 ==> body.field("honorType"@) == Some(JsonView::Str("OPT_OUT"@))
    } by {
        let body = vote_body(game_id as int, form);
        assert(body is Object);
        assert(body.field("gameId"@) == Some(whole_view(game_id as int)));
        assert(body.field("summonerId"@) == Some(whole_view(0)));
    }
}

/// A status of 400 and above is an error that names the request and the body; below it the
/// answer is its body, and an empty body is null.
pub proof fn law_what_an_answer_means(
    req: RequestView,
    status: u16,
    text: Seq<char>,
    m: Seq<char>,
)
    ensures
        status >= 400 ==> answer_meaning(req, AnswerView::Response { status, body: Ok(text) })
            == Err::<JsonView, ErrorView>(
            ErrorView::Http {
                status,
                method: req.method.verb_text(),
                endpoint: req.endpoint,
                body: text,
            },
        ),
        status >= 400 ==> (answer_meaning(req, AnswerView::Response { status, body: Err(m) })
            matches Err(e) && e is Http),
        status < 400 && text.len() == 0 ==> answer_meaning(
            req,
            AnswerView::Response { status, body: Ok(text) },
        ) == Ok::<JsonView, ErrorView>(JsonView::Null),
        status < 400 && text.len() > 0 ==> (crate::json::json_parse(text) matches Ok(v)
            ==> answer_meaning(req, AnswerView::Response { status, body: Ok(text) }) == Ok::<
            JsonView,
            ErrorView,
        >(v)),
        status < 400 && text.len() > 0 ==> (crate::json::json_parse(text) matches Err(why)
            ==> answer_meaning(req, AnswerView::Response { status, body: Ok(text) }) == Err::<
            JsonView,
            ErrorView,
        >(ErrorView::Json(why))),
        status < 400 ==> answer_meaning(req, AnswerView::Response { status, body: Err(m) })
            == Err::<JsonView, ErrorView>(ErrorView::Network(m)),
        answer_meaning(req, AnswerView::Failed(m)) == Err::<JsonView, ErrorView>(
            ErrorView::Network(m),
        ),
        Method::Get.verb_text() == "GET"@,
        Method::Post.verb_text() == "POST"@,
        Method::Patch.verb_text() == "PATCH"@,
        Method::Delete.verb_text() == "DELETE"@,
{
}

/// The client's phase is the string that it answers with, or none where it is no string;
/// an error stays the error that it is.
pub proof fn law_phase_is_the_answer(v: JsonView, phase: Seq<char>, e: ErrorView)
    ensures
        v == JsonView::Str(phase) ==> phase_in(Ok(v)) == Ok::<Seq<char>, ErrorView>(phase),
        !(v is Str) ==> phase_in(Ok(v)) == Ok::<Seq<char>, ErrorView>("None"@),
        phase_in(Err(e)) == Err::<Seq<char>, ErrorView>(e),
{
}

/// The statistics count as dismissed where the client accepted it, as not dismissed where it
/// answered with an error status; any other error is a failure.
pub proof fn law_when_statistics_are_dismissed(v: JsonView, e: ErrorView)
    ensures
        dismissed(Ok(v)) == Ok::<bool, ErrorView>(true),
        e is Http ==> dismissed(Err(e)) == Ok::<bool, ErrorView>(false),
        !(e is Http) ==> dismissed(Err(e)) == Err::<bool, ErrorView>(e),
{
}

/// A message to oneself goes into the conversation that the client opened for the player's
/// own chat address, and is the message that was to be sent.
pub proof fn law_message_to_self_arrives(
    body: Seq<char>,
    me: JsonView,
    pid: Seq<char>,
    conversation: JsonView,
    id: Seq<char>,
    sent: JsonView,
)
    requires
        me.field("pid"@) == Some(JsonView::Str(pid)),
        conversation.field("id"@) == Some(JsonView::Str(id)),
    ensures
        self_message_after(body, SelfMessageStage::Me, Ok(me)) matches SelfMessageNextView::Send(
            q,
            SelfMessageStage::Conversation,
        ) && q.method is Post && q.endpoint == "/lol-chat/v1/conversations"@ && (q.body matches Some(b)
            && b.field("pid"@) == Some(JsonView::Str(pid)) && b.field("type"@) == Some(
            JsonView::Str("chat"@),
        )),
        self_message_after(body, SelfMessageStage::Conversation, Ok(conversation))
            matches SelfMessageNextView::Send(q, SelfMessageStage::Message) && q.method is Post
            && q.endpoint == "/lol-chat/v1/conversations/"@ + id + "/messages"@ && (q.body
            matches Some(b) && b.field("body"@) == Some(JsonView::Str(body)) && b.field("type"@)
            == Some(JsonView::Str("chat"@))),
        self_message_after(body, SelfMessageStage::Message, Ok(sent)) == SelfMessageNextView::Done(
            Ok(()),
        ),
{
    reveal_strlit("pid");
    reveal_strlit("body");
    reveal_strlit("type");
    assert("body"@[0] != "type"@[0]);
}

/// An error at any stage ends the message with that error.
pub proof fn law_message_to_self_fails_with_its_error(
    body: Seq<char>,
    stage: SelfMessageStage,
    e: ErrorView,
)
    ensures
        self_message_after(body, stage, Err(e)) == SelfMessageNextView::Done(Err(e)),
{
}

/// A message to oneself is given up, with the complaint that says so, where the client does
/// not say who the player is or which conversation was opened.
pub proof fn law_message_needs_identifiers(body: Seq<char>, v: JsonView)
    ensures
        v.text_field("pid"@) is None ==> self_message_after(body, SelfMessageStage::Me, Ok(v))
            == SelfMessageNextView::Done(
            Err(ErrorView::Other("get_chat_me：响应缺少 pid 字段"@)),
        ),
        v.text_field("id"@) is None ==> self_message_after(
            body,
            SelfMessageStage::Conversation,
            Ok(v),
        ) == SelfMessageNextView::Done(
            Err(ErrorView::Other("open_conversation：响应缺少 id 字段"@)),
        ),
{
}

/// An error in words says what kind it is and keeps what it was told: the status, the method,
/// the address and the answer of a request that was refused, and the message of any other.
pub proof fn law_errors_say_what_happened(
    status: u16,
    method: Seq<char>,
    endpoint: Seq<char>,
    body: Seq<char>,
    m: Seq<char>,
)
    ensures
        (ErrorView::Http { status, method, endpoint, body }).message() == "HTTP "@ + decimal(
            status as nat,
        ) + " "@ + method + " "@ + endpoint + ": "@ + body,
        ErrorView::Network(m).message() == "网络错误: "@ + m,
        ErrorView::Json(m).message() == "JSON 解析错误: "@ + m,
        ErrorView::Other(m).message() == m,
{
}

/// The phases go by the names that the client gives them.
pub proof fn law_phases_have_the_names_of_the_client()
    ensures
        gameflow::NONE@ == "None"@ && gameflow::LOBBY@ == "Lobby"@,
        gameflow::MATCHMAKING@ == "Matchmaking"@ && gameflow::READY_CHECK@ == "ReadyCheck"@,
        gameflow::CHAMP_SELECT@ == "ChampSelect"@ && gameflow::GAME_START@ == "GameStart"@,
        gameflow::IN_PROGRESS@ == "InProgress"@ && gameflow::RECONNECT@ == "Reconnect"@,
        gameflow::WAITING_FOR_STATS@ == "WaitingForStats"@,
        gameflow::PRE_END_OF_GAME@ == "PreEndOfGame"@ && gameflow::END_OF_GAME@ == "EndOfGame"@,
        gameflow::TERMINATED_IN_ERROR@ == "TerminatedInError"@,
{
}

} // verus!
