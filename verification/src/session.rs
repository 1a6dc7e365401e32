//! Calls over a DevTools connection: how a command is framed and how its reply
//! is told from everything else that arrives.

use vstd::prelude::*;

use crate::json::{
    json_outcome, json_parsed, json_text, json_to_text, lemma_three_members_wf, member,
    object_of_three,
    notes_down, parse_json, spells, Json, JsonView,
};

verus! {

/// How long a reply may take, in seconds.
pub const REPLY_TIMEOUT_SECS: u64 = 15;

/// The calling side of a connection. Calls are numbered from one.
#[derive(Debug)]
pub struct CdpSession {
    pub next_id: u64,
}

/// A call whose reply is awaited.
#[derive(Debug)]
pub struct PendingCall {
    pub id: u64,
    pub method: String,
    /// The message to send.
    pub text: String,
}

/// What the connection brings while a reply is awaited.
#[derive(Debug)]
pub enum SocketEvent {
    /// A text message.
    Text(String),
    /// A message of another kind.
    Other,
    /// The connection failed, with this message.
    Failed(String),
    /// The connection was closed.
    Closed,
    /// Nothing came in time.
    TimedOut,
}

/// The content of a `SocketEvent`.
pub enum SocketEventView {
    Text(Seq<char>),
    Other,
    Failed(Seq<char>),
    Closed,
    TimedOut,
}

impl View for SocketEvent {
    type V = SocketEventView;

    open spec fn view(&self) -> SocketEventView {
        match self {
            SocketEvent::Text(text) => SocketEventView::Text(text@),
            SocketEvent::Other => SocketEventView::Other,
            SocketEvent::Failed(message) => SocketEventView::Failed(message@),
            SocketEvent::Closed => SocketEventView::Closed,
            SocketEvent::TimedOut => SocketEventView::TimedOut,
        }
    }
}

/// How far a call has come.
#[derive(Debug)]
pub enum CallProgress {
    Waiting,
    Finished(Result<Json, String>),
}

impl View for CallProgress {
    type V = Option<Result<JsonView, Seq<char>>>;

    open spec fn view(&self) -> Option<Result<JsonView, Seq<char>>> {
        match self {
            CallProgress::Waiting => None,
            CallProgress::Finished(outcome) => Some(json_outcome(*outcome)),
        }
    }
}

/// The message of a call: its number, its method and its parameters.
pub open spec fn call_frame(id: u64, method: Seq<char>, params: JsonView) -> JsonView {
    JsonView::Object(
        seq![
            ("id"@, JsonView::PosInt(id)),
            ("method"@, JsonView::Str(method)),
            ("params"@, params),
        ],
    )
}

/// A message carries the number of the call.
pub open spec fn carries_id(message: JsonView, id: u64) -> bool {
    match message.get("id"@) {
        Some(value) => value.as_u64() == Some(id),
        None => false,
    }
}

/// What a message that carries the number of the call says of its outcome.
pub open spec fn reply_outcome(method: Seq<char>, message: JsonView) -> Result<
    JsonView,
    Seq<char>,
> {
    match message.get("error"@) {
        Some(error) => Err("CDP error for "@ + method + ": "@ + json_text(error)),
        None => match message.get("result"@) {
            Some(result) => Ok(result),
            None => Ok(JsonView::Null),
        },
    }
}

/// What a message says of the call with the given number and method.
pub open spec fn message_progress(id: u64, method: Seq<char>, message: JsonView) -> Option<
    Result<JsonView, Seq<char>>,
> {
    if carries_id(message, id) {
        Some(reply_outcome(method, message))
    } else {
        None
    }
}

/// What an event says of the call with the given number and method: nothing
/// yet, or its outcome.
pub open spec fn call_progress(id: u64, method: Seq<char>, event: SocketEventView) -> Option<
    Result<JsonView, Seq<char>>,
> {
    match event {
        SocketEventView::Text(text) => match json_parsed(text) {
            Ok(message) => message_progress(id, method, message),
            Err(_) => Some(Err("CDP response is not valid JSON"@)),
        },
        SocketEventView::Other => None,
        SocketEventView::Failed(message) => Some(Err("CDP WebSocket error: "@ + message)),
        SocketEventView::Closed => Some(Err("CDP WebSocket closed unexpectedly"@)),
        SocketEventView::TimedOut => Some(
            Err("CDP command '"@ + method + "' timed out after 15 seconds"@),
        ),
    }
}

/// A call frame is well-formed when its parameters are.
proof fn lemma_call_frame_wf(id: u64, method: Seq<char>, params: JsonView)
    requires
        params.wf(),
    ensures
        call_frame(id, method, params).wf(),
{
    reveal_strlit("id");
    reveal_strlit("method");
    reveal_strlit("params");
    lemma_three_members_wf(
        ("id"@, JsonView::PosInt(id)),
        ("method"@, JsonView::Str(method)),
        ("params"@, params),
    );
}

impl CdpSession {
    /// A connection on which no call was made yet.
    pub fn new() -> (session: CdpSession)
        ensures
            session.next_id == 1,
    {
        CdpSession { next_id: 1 }
    }

    /// Frames a call and takes the next number for it.
    pub fn call(&mut self, method: &str, params: Json) -> (pending: PendingCall)
        requires
            old(self).next_id < u64::MAX,
            params@.wf(),
        ensures
            final(self).next_id == old(self).next_id + 1,
            pending.id == old(self).next_id,
            pending.method@ == method@,
            pending.text@ == json_text(call_frame(pending.id, method@, params@)),
    {
        let id = self.next_id;
        self.next_id = id + 1;
        proof {
            lemma_call_frame_wf(id, method@, params@);
        }
        let frame = object_of_three(
            ("id", Json::PosInt(id)),
            ("method", Json::Str(method.to_owned())),
            ("params", params),
        );
        PendingCall { id, method: method.to_owned(), text: json_to_text(frame) }
    }
}

impl PendingCall {
    /// The outcome of a call whose message could not be sent.
    pub fn send_failed(&self) -> (message: String)
        ensures
            message@ == "Failed to send CDP command"@,
    {
        "Failed to send CDP command".to_owned()
    }

    /// What an event says of the call.
    pub fn on_event(&self, event: SocketEvent) -> (progress: CallProgress)
        ensures
            progress@ == call_progress(self.id, self.method@, event@),
            event@ matches SocketEventView::Text(text) ==> forall|message: JsonView| #[trigger]
                spells(text, message) ==> progress@ == message_progress(
                    self.id,
                    self.method@,
                    message,
                ),
            event@ matches SocketEventView::Text(text) ==> forall|message: JsonView| #[trigger]
                notes_down(text, message) ==> progress@ == message_progress(
                    self.id,
                    self.method@,
                    message.read_back(),
                ),
            progress matches CallProgress::Finished(Ok(result)) ==> result@.wf(),
    {
        match event {
            SocketEvent::Text(text) => match parse_json(text.as_str()) {
                Ok(message) => self.on_message(message),
                Err(_) => CallProgress::Finished(Err("CDP response is not valid JSON".to_owned())),
            },
            SocketEvent::Other => CallProgress::Waiting,
            SocketEvent::Failed(message) => CallProgress::Finished(
                Err("CDP WebSocket error: ".to_owned().concat(message.as_str())),
            ),
            SocketEvent::Closed => CallProgress::Finished(
                Err("CDP WebSocket closed unexpectedly".to_owned()),
            ),
            SocketEvent::TimedOut => CallProgress::Finished(
                Err(
                    "CDP command '".to_owned().concat(self.method.as_str()).concat(
                        "' timed out after 15 seconds",
                    ),
                ),
            ),
        }
    }

    /// What a JSON message says of the call.
    pub fn on_message(&self, message: Json) -> (progress: CallProgress)
        requires
            message@.wf(),
        ensures
            progress@ == message_progress(self.id, self.method@, message@),
            progress matches CallProgress::Finished(Ok(result)) ==> result@.wf(),
    {
        let own = match message.get("id") {
            Some(value) => match value.as_u64() {
                Some(id) => id == self.id,
                None => false,
            },
            None => false,
        };
        if !own {
            return CallProgress::Waiting;
        }
        if message.get("error").is_some() {
            match message.into_member("error") {
                Some(error) => CallProgress::Finished(
                    Err(
                        "CDP error for ".to_owned().concat(self.method.as_str()).concat(
                            ": ",
                        ).concat(json_to_text(error).as_str()),
                    ),
                ),
                None => CallProgress::Waiting,
            }
        } else {
            match message.into_member("result") {
                Some(result) => CallProgress::Finished(Ok(result)),
                None => CallProgress::Finished(Ok(Json::Null)),
            }
        }
    }
}

/// Only a message with the call's own number ends it well: whatever else
/// arrives, the call goes on or fails.
pub proof fn law_only_own_reply_is_taken(id: u64, method: Seq<char>, event: SocketEventView)
    requires
        call_progress(id, method, event) matches Some(Ok(_)),
    ensures
        event matches SocketEventView::Text(text) && json_parsed(text) matches Ok(message)
            && carries_id(message, id) && message.get("error"@) is None,
{
}

/// A reply to one call leaves every call with another number waiting.
pub proof fn law_reply_leaves_other_calls_waiting(
    id: u64,
    other: u64,
    method: Seq<char>,
    text: Seq<char>,
)
    requires
        id != other,
        json_parsed(text) matches Ok(message) && carries_id(message, id),
    ensures
        call_progress(other, method, SocketEventView::Text(text)) is None,
{
}

/// The message of a call carries the call's own number, its method and its
/// parameters.
pub proof fn law_frame_carries_its_call(id: u64, method: Seq<char>, params: JsonView)
    ensures
        carries_id(call_frame(id, method, params), id),
        call_frame(id, method, params).get_str("method"@) == Some(method),
        call_frame(id, method, params).get("params"@) == Some(params),
{
    reveal_strlit("id");
    reveal_strlit("method");
    reveal_strlit("params");
    reveal_with_fuel(member, 4);
    let members = call_frame(id, method, params)->Object_0;
    assert("id"@.len() == 2 && "method"@[0] == 'm' && "params"@[0] == 'p');
    assert(members.skip(1)[0] == ("method"@, JsonView::Str(method)));
    assert(members.skip(1).skip(1)[0] == ("params"@, params));
}

/// The result in a reply is what the call comes to: a message with the call's
/// number and a result, and without an error, ends the call with that result.
pub proof fn law_result_comes_through(id: u64, method: Seq<char>, message: JsonView)
    requires
        carries_id(message, id),
        message.get("error"@) is None,
        message.get("result"@) is Some,
    ensures
        message_progress(id, method, message) == Some(
            Ok::<JsonView, Seq<char>>(message.get("result"@)->Some_0),
        ),
{
}

/// An error in a reply wins over a result.
pub proof fn law_error_wins(id: u64, method: Seq<char>, message: JsonView)
    requires
        carries_id(message, id),
        message.get("error"@) is Some,
    ensures
        message_progress(id, method, message) matches Some(Err(_)),
{
}

/// The message of a call is an object of three members: the call's number, its
/// method and its parameters, each as it is.
pub proof fn law_frame_is_made_of_its_call(id: u64, method: Seq<char>, params: JsonView)
    ensures
        call_frame(id, method, params) is Object,
        call_frame(id, method, params)->Object_0.len() == 3,
        call_frame(id, method, params).get("id"@) == Some(JsonView::PosInt(id)),
        call_frame(id, method, params).get("method"@) == Some(JsonView::Str(method)),
        call_frame(id, method, params).get("params"@) == Some(params),
{
    law_frame_carries_its_call(id, method, params);
}

/// A message is the reply to a call exactly if it carries the call's number as
/// an integer. Its result is then what the call comes to, null where it has
/// none; an error in it is told with the method, in JSON notation.
pub proof fn law_reply_is_known_by_its_number(
    id: u64,
    method: Seq<char>,
    text: Seq<char>,
    message: JsonView,
    value: JsonView,
)
    requires
        json_parsed(text) == Ok::<JsonView, Seq<char>>(message),
    ensures
        ({
            let progress = call_progress(id, method, SocketEventView::Text(text));
            let own = message.get("id"@) == Some(JsonView::PosInt(id));
            &&& !own ==> progress is None
            &&& own && message.get("error"@) is None && message.get("result"@) == Some(value)
                ==> progress == Some(Ok::<JsonView, Seq<char>>(value))
            &&& own && message.get("error"@) is None && message.get("result"@) is None ==> progress
                == Some(Ok::<JsonView, Seq<char>>(JsonView::Null))
            &&& own && message.get("error"@) == Some(value) ==> progress == Some(
                Err::<JsonView, Seq<char>>(
                    "CDP error for "@ + method + ": "@ + json_text(value),
                ),
            )
        }),
{
}

/// What befalls the connection ends the call with a message that says so; a
/// message of another kind than text leaves it waiting.
pub proof fn law_troubles_end_the_call(
    id: u64,
    method: Seq<char>,
    text: Seq<char>,
)
    ensures
        json_parsed(text) is Err ==> call_progress(id, method, SocketEventView::Text(text)) == Some(
            Err::<JsonView, Seq<char>>("CDP response is not valid JSON"@),
        ),
        call_progress(id, method, SocketEventView::Other) is None,
        call_progress(id, method, SocketEventView::Failed(text)) == Some(
            Err::<JsonView, Seq<char>>("CDP WebSocket error: "@ + text),
        ),
        call_progress(id, method, SocketEventView::Closed) == Some(
            Err::<JsonView, Seq<char>>("CDP WebSocket closed unexpectedly"@),
        ),
        call_progress(id, method, SocketEventView::TimedOut) == Some(
            Err::<JsonView, Seq<char>>("CDP command '"@ + method + "' timed out after 15 seconds"@),
        ),
        REPLY_TIMEOUT_SECS == 15,
{
}

} // verus!
