//! The rules of the connection to an agent: its phases, the handshake, what of a message is logged
//! and how, and what a decision on a permission comes to.
use vstd::prelude::*;

use crate::json::{json_entries, json_view, push_entry, Json, JsonValue};
use crate::permission_authority::RUNTIME_VERSION;
use crate::text::{byte_len, concat, same_text, str_view, text_view, utf8_len};

verus! {

/// After how many seconds the handshake is given up.
pub const INIT_TIMEOUT_SECS: u64 = 30;

/// The name that the client gives in the handshake.
pub const ACP_CLIENT_NAME: &'static str = "AionUi";

/// The version of the completions that the client offers.
pub const COMMAND_EVE_ASYNC_COMPLETION_CAPABILITY_VERSION: &'static str = "1";

/// How far a connection has come.
#[derive(Clone, Copy, Debug, PartialEq, Eq, Structural)]
pub enum AcpConnectionPhase {
    Starting,
    Initializing,
    Ready,
    ShuttingDown,
}

/// What happens to a connection.
#[derive(Clone, Copy, Debug, PartialEq, Eq, Structural)]
pub enum AcpConnectionEvent {
    /// The handshake is about to be sent.
    HandshakeSent,
    /// The agent has answered the handshake, or it failed.
    HandshakeAnswered { succeeded: bool },
    /// The connection was handed to its owner, or the owner is gone.
    Published { owned: bool },
    /// The owner lets the connection go.
    Released,
}

/// The phase after an event, and whether the connection goes on.
pub open spec fn phase_after(phase: AcpConnectionPhase, event: AcpConnectionEvent) -> (
    AcpConnectionPhase,
    bool,
) {
    match (phase, event) {
        (AcpConnectionPhase::Starting, AcpConnectionEvent::HandshakeSent) => (
            AcpConnectionPhase::Initializing,
            true,
        ),
        (AcpConnectionPhase::Initializing, AcpConnectionEvent::HandshakeAnswered { succeeded }) => (
            phase,
            succeeded,
        ),
        (AcpConnectionPhase::Initializing, AcpConnectionEvent::Published { owned }) => if owned {
            (AcpConnectionPhase::Ready, true)
        } else {
            (phase, false)
        },
        (AcpConnectionPhase::Ready, AcpConnectionEvent::Released) => (
            AcpConnectionPhase::ShuttingDown,
            false,
        ),
        _ => (phase, false),
    }
}

impl AcpConnectionPhase {
    /// The phase after an event, and whether the connection goes on.
    pub fn after(self, event: AcpConnectionEvent) -> (r: (AcpConnectionPhase, bool))
        ensures
            r == phase_after(self, event),
    {
        match (self, event) {
            (AcpConnectionPhase::Starting, AcpConnectionEvent::HandshakeSent) => (
                AcpConnectionPhase::Initializing,
                true,
            ),
            (
                AcpConnectionPhase::Initializing,
                AcpConnectionEvent::HandshakeAnswered { succeeded },
            ) => (self, succeeded),
            (AcpConnectionPhase::Initializing, AcpConnectionEvent::Published { owned }) => {
                if owned {
                    (AcpConnectionPhase::Ready, true)
                } else {
                    (self, false)
                }
            },
            (AcpConnectionPhase::Ready, AcpConnectionEvent::Released) => (
                AcpConnectionPhase::ShuttingDown,
                false,
            ),
            _ => (self, false),
        }
    }
}

/// How the client names itself.
#[derive(Debug, PartialEq, Eq)]
pub struct Implementation {
    pub name: String,
    pub version: String,
}

/// What the client says in the handshake.
#[derive(Debug)]
pub struct InitializeRequest {
    pub client_info: Implementation,
    /// What goes with the client's capabilities, if anything.
    pub capabilities_meta: Option<JsonValue>,
}

/// What a client says that takes completions.
pub open spec fn async_completion_meta() -> Json {
    Json::Object(
        seq![
            (
                "command_eve"@,
                Json::Object(
                    seq![
                        (
                            "async_completion"@,
                            Json::Object(
                                seq![
                                    (
                                        "version"@,
                                        Json::Number(
                                            COMMAND_EVE_ASYNC_COMPLETION_CAPABILITY_VERSION@,
                                        ),
                                    ),
                                ],
                            ),
                        ),
                    ],
                ),
            ),
        ],
    )
}

fn one_entry(key: &str, value: JsonValue) -> (r: JsonValue)
    ensures
        r@ == Json::Object(seq![(key@, value@)]),
{
    let mut entries: Vec<(String, JsonValue)> = Vec::new();
    push_entry(&mut entries, key, value);
    assert(json_entries(entries@) =~= seq![(key@, value@)]);
    JsonValue::Object(entries)
}

/// What the client says in the handshake. Its name and its version are never empty; completions are
/// offered only where there is a route for them.
pub fn build_initialize_request(advertise_async_completion: bool) -> (r: InitializeRequest)
    ensures
        r.client_info.name@ == ACP_CLIENT_NAME@,
        r.client_info.version@ == RUNTIME_VERSION@,
        r.client_info.name@.len() > 0,
        r.client_info.version@.len() > 0,
        json_view(r.capabilities_meta) == if advertise_async_completion {
            Some(async_completion_meta())
        } else {
            None
        },
{
    proof {
        reveal_strlit("AionUi");
        reveal_strlit("0.1.0");
    }
    let capabilities_meta = if advertise_async_completion {
        let version = one_entry(
            "version",
            JsonValue::Number(COMMAND_EVE_ASYNC_COMPLETION_CAPABILITY_VERSION.to_owned()),
        );
        let completion = one_entry("async_completion", version);
        Some(one_entry("command_eve", completion))
    } else {
        None
    };
    InitializeRequest {
        client_info: Implementation {
            name: ACP_CLIENT_NAME.to_owned(),
            version: RUNTIME_VERSION.to_owned(),
        },
        capabilities_meta,
    }
}

/// The user's decision on a permission request.
#[derive(Debug, PartialEq, Eq)]
pub enum PermissionDecision {
    /// The user chose an option.
    Selected { option_id: String },
    /// The user turned the request down.
    Cancelled,
}

/// The option that a decision chose; nothing where it turned the request down.
pub open spec fn selected_option(decision: Option<PermissionDecision>) -> Option<Seq<char>> {
    match decision {
        Some(PermissionDecision::Selected { option_id }) => Some(option_id@),
        _ => None,
    }
}

/// What a permission request is answered: the option that was chosen, or nothing where the user
/// turned the request down or never decided.
pub fn permission_outcome(decision: Option<PermissionDecision>) -> (r: Option<String>)
    ensures
        text_view(r) == selected_option(decision),
{
    match decision {
        Some(PermissionDecision::Selected { option_id }) => Some(option_id),
        _ => None,
    }
}

/// Whether what an agent replays is kept from the user's view.
#[derive(Debug)]
pub struct ReplaySuppression {
    active: bool,
}

impl View for ReplaySuppression {
    type V = bool;

    closed spec fn view(&self) -> bool {
        self.active
    }
}

/// The span of one request during which an agent replays its history.
#[derive(Debug)]
pub struct ReplaySuppressionGuard {}

impl ReplaySuppression {
    /// Nothing is suppressed.
    pub fn new() -> (r: Self)
        ensures
            !r@,
    {
        ReplaySuppression { active: false }
    }

    /// Whether the history is kept from the user's view.
    pub fn is_active(&self) -> (r: bool)
        ensures
            r == self@,
    {
        self.active
    }
}

impl ReplaySuppressionGuard {
    /// Starts the span.
    pub fn new(flag: &mut ReplaySuppression) -> (r: Self)
        ensures
            final(flag)@,
    {
        flag.active = true;
        ReplaySuppressionGuard {  }
    }

    /// Ends the span, however its request ended.
    pub fn end(self, flag: &mut ReplaySuppression)
        ensures
            !final(flag)@,
    {
        flag.active = false;
    }
}

/// The string that a JSON text holds at a pointer; nothing where the text is no JSON, or holds
/// something else there.
pub uninterp spec fn json_text_at(body: Seq<char>, pointer: Seq<char>) -> Option<Seq<char>>;

/// Whether a text is JSON.
pub uninterp spec fn is_json(body: Seq<char>) -> bool;

/// `serde_json::from_str` and `serde_json::Value::pointer`: the result is a function of the text and
/// the pointer alone, and a text that is no JSON holds nothing.
#[verifier::external_body]
fn text_at_pointer(body: &str, pointer: &str) -> (r: Option<String>)
    ensures
        text_view(r) == json_text_at(body@, pointer@),
        r is Some ==> is_json(body@),
{
    let value: serde_json::Value = serde_json::from_str(body).ok()?;
    value.pointer(pointer)?.as_str().map(str::to_owned)
}

/// `serde_json::from_str`: whether a text can be read is a function of the text alone.
#[verifier::external_body]
fn reads_as_json(body: &str) -> (r: bool)
    ensures
        r == is_json(body@),
{
    serde_json::from_str::<serde_json::Value>(body).is_ok()
}

/// Whether an update is a piece of the reply as it is being written.
pub open spec fn is_streaming_kind(kind: Seq<char>) -> bool {
    ||| kind == "agent_message_chunk"@
    ||| kind == "agent_thought_chunk"@
    ||| kind == "user_message_chunk"@
    ||| kind == "tool_call"@
    ||| kind == "tool_call_update"@
    ||| kind == "plan"@
}

/// Whether an update of a kind is a piece of the reply; one of no known kind is not.
pub fn streams(kind: Option<&str>) -> (r: bool)
    ensures
        r == (str_view(kind) matches Some(kind) && is_streaming_kind(kind)),
{
    match kind {
        Some(kind) => same_text(kind, "agent_message_chunk") || same_text(
            kind,
            "agent_thought_chunk",
        ) || same_text(kind, "user_message_chunk") || same_text(kind, "tool_call") || same_text(
            kind,
            "tool_call_update",
        ) || same_text(kind, "plan"),
        None => false,
    }
}

/// Whether the body of a notification is a piece of the reply as it is being written. A body that
/// cannot be read, or of an unknown kind, is not.
pub fn is_streaming_chunk(body: &str) -> (r: bool)
    ensures
        r == (json_text_at(body@, "/update/sessionUpdate"@) matches Some(kind) && is_streaming_kind(
            kind,
        )),
{
    match text_at_pointer(body, "/update/sessionUpdate") {
        Some(kind) => streams(Some(kind.as_str())),
        None => streams(None),
    }
}

/// What is logged of a message: never its body.
#[derive(Debug, PartialEq, Eq)]
pub struct AcpLogSummary {
    pub payload_bytes: usize,
    pub payload_json: bool,
    pub session_id: Option<String>,
    pub session_update_kind: Option<String>,
}

/// The first of two strings that is there.
pub open spec fn first_text(first: Option<Seq<char>>, second: Option<Seq<char>>) -> Option<
    Seq<char>,
> {
    if first is Some {
        first
    } else {
        second
    }
}

fn string_pointer(body: &str, first: &str, second: &str) -> (r: Option<String>)
    ensures
        text_view(r) == first_text(json_text_at(body@, first@), json_text_at(body@, second@)),
        r is Some ==> is_json(body@),
{
    match text_at_pointer(body, first) {
        Some(text) => Some(text),
        None => text_at_pointer(body, second),
    }
}

impl AcpLogSummary {
    /// What is logged of a message.
    pub fn from_payload(payload: &str) -> (r: Self)
        ensures
            r.payload_bytes == byte_len(payload@),
            r.payload_json == is_json(payload@),
            text_view(r.session_id) == first_text(
                json_text_at(payload@, "/sessionId"@),
                json_text_at(payload@, "/session_id"@),
            ),
            text_view(r.session_update_kind) == first_text(
                json_text_at(payload@, "/update/sessionUpdate"@),
                json_text_at(payload@, "/update/session_update"@),
            ),
            !r.payload_json ==> r.session_id is None && r.session_update_kind is None,
    {
        AcpLogSummary {
            payload_bytes: utf8_len(payload),
            payload_json: reads_as_json(payload),
            session_id: string_pointer(payload, "/sessionId", "/session_id"),
            session_update_kind: string_pointer(
                payload,
                "/update/sessionUpdate",
                "/update/session_update",
            ),
        }
    }
}

/// How loudly a message is logged.
#[derive(Clone, Copy, Debug, PartialEq, Eq, Structural)]
pub enum AcpLogLevel {
    Debug,
    Info,
}

/// How loudly a message of a method is logged.
pub open spec fn log_level(quiet: bool) -> AcpLogLevel {
    if quiet {
        AcpLogLevel::Debug
    } else {
        AcpLogLevel::Info
    }
}

/// Whether a request is logged quietly.
pub open spec fn is_quiet_request(method: Seq<char>) -> bool {
    method == "session/prompt"@
}

/// Whether a notification is logged quietly.
pub open spec fn is_quiet_notification(method: Seq<char>, streaming: bool) -> bool {
    method == "session/update"@ && streaming
}

/// How loudly a request of the client, or the agent's response to it, is logged. A prompt is large.
pub fn request_log_level(method: &str) -> (r: AcpLogLevel)
    ensures
        r == log_level(is_quiet_request(method@)),
{
    if same_text(method, "session/prompt") {
        AcpLogLevel::Debug
    } else {
        AcpLogLevel::Info
    }
}

/// How loudly a notification of the agent is logged. The pieces of a reply are many.
pub fn notification_log_level(method: &str, streaming: bool) -> (r: AcpLogLevel)
    ensures
        r == log_level(is_quiet_notification(method@, streaming)),
{
    if same_text(method, "session/update") && streaming {
        AcpLogLevel::Debug
    } else {
        AcpLogLevel::Info
    }
}

/// The name of an extension method on the wire.
pub fn wire_method(method: &str) -> (r: String)
    ensures
        r@ == "_"@ + method@,
{
    concat("_", method)
}

/// A connection becomes ready only after a handshake that was sent and a publication by its owner,
/// and goes on only while the steps come in that order.
pub proof fn connection_gets_ready_in_order(phase: AcpConnectionPhase, event: AcpConnectionEvent)
    ensures
        ({
            let (after, goes_on) = phase_after(phase, event);
            &&& after is Initializing <==> (phase is Starting && event is HandshakeSent) || (phase
                is Initializing && event != (AcpConnectionEvent::Published { owned: true }))
            &&& after is Ready <==> (phase is Initializing && event == (
            AcpConnectionEvent::Published { owned: true })) || (phase is Ready && !(event
                is Released))
            &&& after is ShuttingDown <==> phase is ShuttingDown || (phase is Ready && event
                is Released)
            &&& goes_on <==> (phase is Starting && event is HandshakeSent) || (phase is Initializing
                && (event == (AcpConnectionEvent::HandshakeAnswered { succeeded: true }) || event
                == (AcpConnectionEvent::Published { owned: true })))
        }),
{
}

/// A client that takes completions says which version it takes, under the name of the extension.
pub proof fn offered_completions_have_a_version()
    ensures
        async_completion_meta().field("command_eve"@) is Some,
        async_completion_meta().field("command_eve"@)->0.field("async_completion"@) is Some,
        async_completion_meta().field("command_eve"@)->0.field("async_completion"@)->0.field(
            "version"@,
        ) == Some(Json::Number("1"@)),
{
}

/// An update is a piece of the reply exactly where it is a piece of a message or a thought, a tool
/// call, a change of one, or a plan.
pub proof fn pieces_of_a_reply(kind: Seq<char>)
    ensures
        is_streaming_kind(kind) <==> ["agent_message_chunk"@, "agent_thought_chunk"@,
            "user_message_chunk"@, "tool_call"@, "tool_call_update"@, "plan"@]@.contains(kind),
{
    let kinds = ["agent_message_chunk"@, "agent_thought_chunk"@, "user_message_chunk"@,
        "tool_call"@, "tool_call_update"@, "plan"@]@;
    assert(kinds[0] == "agent_message_chunk"@);
    assert(kinds[1] == "agent_thought_chunk"@);
    assert(kinds[2] == "user_message_chunk"@);
    assert(kinds[3] == "tool_call"@);
    assert(kinds[4] == "tool_call_update"@);
    assert(kinds[5] == "plan"@);
}

/// Only a choice of the user is an answer with an option: it is the chosen one. Turning the request
/// down, and not deciding, choose nothing.
pub proof fn only_a_choice_selects(decision: Option<PermissionDecision>)
    ensures
        decision is None ==> selected_option(decision) is None,
        decision is Some && decision->0 is Cancelled ==> selected_option(decision) is None,
        decision is Some && decision->0 is Selected ==> selected_option(decision) == Some(
            decision->0->option_id@,
        ),
{
}

/// Of two texts the first counts, and the second only where the first is not there.
pub proof fn second_text_stands_in_for_the_first(
    first: Option<Seq<char>>,
    second: Option<Seq<char>>,
)
    ensures
        first is Some ==> first_text(first, second) == first,
        first is None ==> first_text(first, second) == second,
{
}

/// Only prompts, and of the updates only the pieces of a reply, are logged quietly.
pub proof fn prompts_and_pieces_are_logged_quietly(method: Seq<char>, streaming: bool)
    ensures
        log_level(is_quiet_request(method)) is Debug <==> method == "session/prompt"@,
        log_level(is_quiet_request(method)) is Info <==> method != "session/prompt"@,
        log_level(is_quiet_notification(method, streaming)) is Debug <==> streaming && method
            == "session/update"@,
        log_level(is_quiet_notification(method, streaming)) is Info <==> !streaming || method
            != "session/update"@,
{
}

} // verus!
