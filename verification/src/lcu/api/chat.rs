//! Messages.

use crate::json::{empty_object, Json, JsonView};
use crate::lcu::api::match_history::{take_text, text_or_error};
use crate::lcu::api::{
    bare_request, json_result, plain_result, text_result, ErrorView, LcuApiError, LcuClient, Method,
    Request, RequestView,
};
use crate::text::concat;
use vstd::prelude::*;

verus! {

/// The request that opens a conversation.
pub open spec fn conversation_request(pid: Seq<char>) -> RequestView {
    RequestView {
        method: Method::Post,
        endpoint: "/lol-chat/v1/conversations"@,
        body: Some(
            empty_object().with("pid"@, JsonView::Str(pid)).with("type"@, JsonView::Str("chat"@)),
        ),
    }
}

/// The request that sends a message into a conversation.
pub open spec fn message_request(conversation: Seq<char>, body: Seq<char>) -> RequestView {
    RequestView {
        method: Method::Post,
        endpoint: "/lol-chat/v1/conversations/"@ + conversation + "/messages"@,
        body: Some(
            empty_object().with("body"@, JsonView::Str(body)).with("type"@, JsonView::Str("chat"@)),
        ),
    }
}

/// A message from the player to themselves, and how far it has come.
pub struct SelfMessage {
    pub body: String,
    pub stage: SelfMessageStage,
}

/// How far a message to oneself has come.
#[derive(Clone, Copy, Debug, PartialEq, Eq, Structural)]
pub enum SelfMessageStage {
    /// The player's own chat entry was asked for.
    Me,
    /// A conversation was opened.
    Conversation,
    /// The message was sent.
    Message,
}

/// What follows an answer.
pub enum SelfMessageNext {
    /// Another request, and the stage that it leads to.
    Send(Request, SelfMessageStage),
    /// The end.
    Done(Result<(), LcuApiError>),
}

/// What a `SelfMessageNext` holds.
pub enum SelfMessageNextView {
    Send(RequestView, SelfMessageStage),
    Done(Result<(), ErrorView>),
}

impl View for SelfMessageNext {
    type V = SelfMessageNextView;

    open spec fn view(&self) -> SelfMessageNextView {
        match self {
            SelfMessageNext::Send(q, s) => SelfMessageNextView::Send(q@, *s),
            SelfMessageNext::Done(r) => SelfMessageNextView::Done(plain_result(*r)),
        }
    }
}

/// What follows the answer at a stage: the player's own address gives a conversation, the
/// conversation takes the message, and any error ends it.
pub open spec fn self_message_after(
    body: Seq<char>,
    stage: SelfMessageStage,
    answer: Result<JsonView, ErrorView>,
) -> SelfMessageNextView {
    match stage {
        SelfMessageStage::Me => match text_or_error(
            answer,
            "pid"@,
            "get_chat_me：响应缺少 pid 字段"@,
        ) {
            Ok(pid) => SelfMessageNextView::Send(
                conversation_request(pid),
                SelfMessageStage::Conversation,
            ),
            Err(e) => SelfMessageNextView::Done(Err(e)),
        },
        SelfMessageStage::Conversation => match text_or_error(
            answer,
            "id"@,
            "open_conversation：响应缺少 id 字段"@,
        ) {
            Ok(id) => SelfMessageNextView::Send(
                message_request(id, body),
                SelfMessageStage::Message,
            ),
            Err(e) => SelfMessageNextView::Done(Err(e)),
        },
        SelfMessageStage::Message => match answer {
            Ok(_) => SelfMessageNextView::Done(Ok(())),
            Err(e) => SelfMessageNextView::Done(Err(e)),
        },
    }
}

impl LcuClient {
    /// Asks for the player's own chat entry.
    pub fn get_chat_me(&self) -> (r: Request)
        ensures
            r@ == bare_request(Method::Get, "/lol-chat/v1/me"@),
    {
        self.get_json("/lol-chat/v1/me")
    }

    /// Opens a conversation, or finds the one that is open; `conversation_id` reads the
    /// answer.
    pub fn open_conversation(&self, pid: &str) -> (r: Request)
        ensures
            r@ == conversation_request(pid@),
    {
        let body = Json::object().with("pid", Json::string(pid)).with("type", Json::string("chat"));
        self.post_json("/lol-chat/v1/conversations", Some(body))
    }

    /// The conversation in the client's answer.
    pub fn conversation_id(answer: Result<Json, LcuApiError>) -> (r: Result<String, LcuApiError>)
        ensures
            text_result(r) == text_or_error(
                json_result(answer),
                "id"@,
                "open_conversation：响应缺少 id 字段"@,
            ),
    {
        take_text(answer, "id", "open_conversation：响应缺少 id 字段")
    }

    /// Sends a message into a conversation.
    pub fn send_chat_message(&self, conversation_id: &str, body: &str) -> (r: Request)
        ensures
            r@ == message_request(conversation_id@, body@),
    {
        let mut endpoint = concat("/lol-chat/v1/conversations/", conversation_id);
        endpoint.append("/messages");
        let json = Json::object().with("body", Json::string(body)).with(
            "type",
            Json::string("chat"),
        );
        self.post_json(endpoint.as_str(), Some(json))
    }

    /// Begins to send a message to the player themselves.
    pub fn send_message_to_self(&self, body: &str) -> (r: (SelfMessage, Request))
        ensures
            r.0.body@ == body@,
            r.0.stage is Me,
            r.1@ == bare_request(Method::Get, "/lol-chat/v1/me"@),
    {
        (SelfMessage { body: body.to_owned(), stage: SelfMessageStage::Me }, self.get_chat_me())
    }

    /// Goes on with a message to the player themselves.
    pub fn resume_message_to_self(&self, message: &SelfMessage, answer: Result<Json, LcuApiError>) -> (r:
        SelfMessageNext)
        ensures
            r@ == self_message_after(message.body@, message.stage, json_result(answer)),
    {
        match message.stage {
            SelfMessageStage::Me => match take_text(
                answer,
                "pid",
                "get_chat_me：响应缺少 pid 字段",
            ) {
                Ok(pid) => SelfMessageNext::Send(
                    self.open_conversation(pid.as_str()),
                    SelfMessageStage::Conversation,
                ),
                Err(e) => SelfMessageNext::Done(Err(e)),
            },
            SelfMessageStage::Conversation => match Self::conversation_id(answer) {
                Ok(id) => SelfMessageNext::Send(
                    self.send_chat_message(id.as_str(), message.body.as_str()),
                    SelfMessageStage::Message,
                ),
                Err(e) => SelfMessageNext::Done(Err(e)),
            },
            SelfMessageStage::Message => match answer {
                Ok(_) => SelfMessageNext::Done(Ok(())),
                Err(e) => SelfMessageNext::Done(Err(e)),
            },
        }
    }
}

} // verus!
