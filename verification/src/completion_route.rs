//! The way of a completion from the agent to the consumer of its conversation.
//!
//! A completion is refused for good only for what it says itself, or by its consumer. Whatever
//! stands between the route and the consumer leaves it to be sent again.
use vstd::prelude::*;

use crate::async_completion::{
    AcpSessionBinding, AcpSessionBindingLease, BindingModel, BindingStep,
    CommandEveAsyncCompletionDispatchKind, CommandEveAsyncCompletionResult,
};
use crate::client_extensions::{
    is_identifier, validate_identifier, AcpClientExtensionRouter, ExtensionModel, Reason,
};
use crate::text::{byte_len, chars_of, same_text, text_view, trim, trim_chars, utf8_len};

verus! {

/// The version of a completion.
pub const COMMAND_EVE_ASYNC_COMPLETION_VERSION: &'static str = "command-eve-async-completion/v1";

/// After how many seconds a consumer is no longer waited for.
pub const ASYNC_COMPLETION_REPLY_TIMEOUT_SECS: u64 = 1860;

/// How many completions one route has under way at a time.
pub const ASYNC_COMPLETION_MAX_CONCURRENCY: usize = 4;

/// The most bytes of a completion on the wire.
pub const MAX_ASYNC_COMPLETION_PAYLOAD_BYTES: usize = 98304;

/// The most bytes of a completion's content.
pub const MAX_ASYNC_COMPLETION_CONTENT_BYTES: usize = 65536;

/// A completion.
#[derive(Debug, PartialEq, Eq)]
pub struct AcpAsyncCompletionRequest {
    pub version: String,
    pub completion_id: String,
    pub session_id: String,
    pub content: String,
}

/// What a completion says.
pub struct CompletionModel {
    pub version: Seq<char>,
    pub completion_id: Seq<char>,
    pub session_id: Seq<char>,
    pub content: Seq<char>,
}

impl View for AcpAsyncCompletionRequest {
    type V = CompletionModel;

    open spec fn view(&self) -> CompletionModel {
        CompletionModel {
            version: self.version@,
            completion_id: self.completion_id@,
            session_id: self.session_id@,
            content: self.content@,
        }
    }
}

/// How a completion is acknowledged.
#[derive(Clone, Copy, Debug, PartialEq, Eq, Structural)]
pub enum AcpAsyncCompletionAckStatus {
    Accepted,
    AlreadyApplied,
    /// The completion may be sent again.
    Retryable,
    /// The completion is refused for good.
    Rejected,
}

/// The acknowledgement of a completion.
#[derive(Debug, PartialEq, Eq)]
pub struct AcpAsyncCompletionResponse {
    pub status: AcpAsyncCompletionAckStatus,
    pub turn_id: Option<String>,
    pub code: Option<String>,
}

/// What an acknowledgement says.
pub struct AckModel {
    pub status: AcpAsyncCompletionAckStatus,
    pub turn_id: Option<Seq<char>>,
    pub code: Option<Seq<char>>,
}

impl View for AcpAsyncCompletionResponse {
    type V = AckModel;

    open spec fn view(&self) -> AckModel {
        AckModel {
            status: self.status,
            turn_id: text_view(self.turn_id),
            code: text_view(self.code),
        }
    }
}

/// What becomes of a completion when it arrives.
#[derive(Debug)]
pub enum CompletionStep {
    MethodNotFound,
    Rejected(Reason),
    Retryable(Reason),
    /// The completion goes to the consumer, under the live lease.
    Dispatch { kind: CommandEveAsyncCompletionDispatchKind, lease: AcpSessionBindingLease },
}

/// What becomes of a completion, in terms of plain values.
pub enum CompletionOutcome {
    MethodNotFound,
    Rejected(Reason),
    Retryable(Reason),
    /// `mismatch` is the bound session where the completion is for another one.
    Dispatch { mismatch: Option<Seq<char>>, lease: (Seq<char>, u64) },
}

impl View for CompletionStep {
    type V = CompletionOutcome;

    open spec fn view(&self) -> CompletionOutcome {
        match *self {
            CompletionStep::MethodNotFound => CompletionOutcome::MethodNotFound,
            CompletionStep::Rejected(reason) => CompletionOutcome::Rejected(reason),
            CompletionStep::Retryable(reason) => CompletionOutcome::Retryable(reason),
            CompletionStep::Dispatch { kind, lease } => CompletionOutcome::Dispatch {
                mismatch: match kind {
                    CommandEveAsyncCompletionDispatchKind::Apply => None,
                    CommandEveAsyncCompletionDispatchKind::RejectSessionMismatch {
                        bound_session_id,
                    } => Some(bound_session_id@),
                },
                lease: lease@,
            },
        }
    }
}

/// What is wrong with a completion, if anything.
pub open spec fn completion_fault(request: CompletionModel) -> Option<Reason> {
    if request.version != COMMAND_EVE_ASYNC_COMPLETION_VERSION@ {
        Some(Reason::UnsupportedVersion)
    } else if !is_identifier(request.completion_id) {
        Some(Reason::InvalidCompletionId)
    } else if !is_identifier(request.session_id) {
        Some(Reason::InvalidSessionId)
    } else if trim(request.content).len() == 0 || byte_len(request.content)
        > MAX_ASYNC_COMPLETION_CONTENT_BYTES {
        Some(Reason::InvalidContent)
    } else {
        None
    }
}

/// Checks what a completion says.
pub fn validate_completion(request: &AcpAsyncCompletionRequest) -> (r: Result<(), Reason>)
    ensures
        r == match completion_fault(request@) {
            Some(reason) => Err::<(), Reason>(reason),
            None => Ok::<(), Reason>(()),
        },
{
    if !same_text(request.version.as_str(), COMMAND_EVE_ASYNC_COMPLETION_VERSION) {
        return Err(Reason::UnsupportedVersion);
    }
    if !validate_identifier(request.completion_id.as_str()) {
        return Err(Reason::InvalidCompletionId);
    }
    if !validate_identifier(request.session_id.as_str()) {
        return Err(Reason::InvalidSessionId);
    }
    let content = chars_of(request.content.as_str());
    if trim_chars(content.as_slice()).len() == 0 || utf8_len(request.content.as_str())
        > MAX_ASYNC_COMPLETION_CONTENT_BYTES {
        return Err(Reason::InvalidContent);
    }
    Ok(())
}

/// What becomes of a completion.
pub open spec fn completion_outcome(
    model: ExtensionModel,
    binding: BindingModel,
    payload_bytes: usize,
    request: Option<CompletionModel>,
    slot_free: bool,
) -> CompletionOutcome {
    if !model.async_completion_enabled {
        if model.routed {
            CompletionOutcome::Retryable(Reason::SessionNotBound)
        } else {
            CompletionOutcome::MethodNotFound
        }
    } else if payload_bytes > MAX_ASYNC_COMPLETION_PAYLOAD_BYTES {
        CompletionOutcome::Rejected(Reason::PayloadTooLarge)
    } else {
        match request {
            None => CompletionOutcome::Rejected(Reason::InvalidShape),
            Some(request) => match completion_fault(request) {
                Some(reason) => CompletionOutcome::Rejected(reason),
                None => if binding.pending > 0 || binding.bound is None {
                    CompletionOutcome::Retryable(Reason::SessionNotBound)
                } else if !model.routed {
                    CompletionOutcome::Retryable(Reason::ConsumerUnavailable)
                } else if !slot_free {
                    CompletionOutcome::Retryable(Reason::ConsumerSaturated)
                } else {
                    CompletionOutcome::Dispatch {
                        mismatch: if binding.bound == Some(request.session_id) {
                            None
                        } else {
                            binding.bound
                        },
                        lease: (binding.bound->0, binding.generation),
                    }
                },
            },
        }
    }
}

impl AcpClientExtensionRouter {
    /// Takes up a completion. `payload_bytes` is the length of what came over the wire, `request`
    /// what it was read as, if it could be read, and `slot_free` says whether one more completion
    /// may be under way.
    pub fn handle_async_completion_request(
        &self,
        binding: &AcpSessionBinding,
        payload_bytes: usize,
        request: Option<&AcpAsyncCompletionRequest>,
        slot_free: bool,
    ) -> (r: CompletionStep)
        ensures
            ({
                let asked = match request {
                    Some(request) => Some(request@),
                    None => None,
                };
                r@ == completion_outcome(self@, binding@, payload_bytes, asked, slot_free)
            }),
    {
        if !self.async_completion_enabled() {
            if self.is_routed() {
                return CompletionStep::Retryable(Reason::SessionNotBound);
            }
            return CompletionStep::MethodNotFound;
        }
        if payload_bytes > MAX_ASYNC_COMPLETION_PAYLOAD_BYTES {
            return CompletionStep::Rejected(Reason::PayloadTooLarge);
        }
        let request = match request {
            Some(request) => request,
            None => {
                return CompletionStep::Rejected(Reason::InvalidShape);
            },
        };
        if let Err(reason) = validate_completion(request) {
            return CompletionStep::Rejected(reason);
        }
        let lease = match binding.lease() {
            Some(lease) => lease,
            None => {
                return CompletionStep::Retryable(Reason::SessionNotBound);
            },
        };
        if !self.is_routed() {
            return CompletionStep::Retryable(Reason::ConsumerUnavailable);
        }
        if !slot_free {
            return CompletionStep::Retryable(Reason::ConsumerSaturated);
        }
        let kind = if same_text(lease.session_id(), request.session_id.as_str()) {
            CommandEveAsyncCompletionDispatchKind::Apply
        } else {
            CommandEveAsyncCompletionDispatchKind::RejectSessionMismatch {
                bound_session_id: lease.session_id().to_owned(),
            }
        };
        CompletionStep::Dispatch { kind, lease }
    }
}

/// What became of handing a completion to its consumer.
#[derive(Clone, Copy, Debug, PartialEq, Eq, Structural)]
pub enum HandOver {
    Sent,
    /// The consumer has more than it can take.
    Full,
    /// There is no consumer any more.
    Closed,
}

/// Why a completion that could not be handed over is to be sent again.
pub fn hand_over_refusal(outcome: HandOver) -> (r: Option<Reason>)
    ensures
        r == match outcome {
            HandOver::Sent => None::<Reason>,
            HandOver::Full => Some(Reason::ConsumerSaturated),
            HandOver::Closed => Some(Reason::ConsumerUnavailable),
        },
{
    match outcome {
        HandOver::Sent => None,
        HandOver::Full => Some(Reason::ConsumerSaturated),
        HandOver::Closed => Some(Reason::ConsumerUnavailable),
    }
}

/// What came back from the consumer.
#[derive(Debug)]
pub enum CompletionReply {
    Result(CommandEveAsyncCompletionResult),
    /// The consumer went away without a reply.
    Dropped,
    /// The consumer took too long.
    TimedOut,
}

/// The acknowledgement of a completion that is refused for good.
pub open spec fn rejection(code: Seq<char>) -> AckModel {
    AckModel { status: AcpAsyncCompletionAckStatus::Rejected, turn_id: None, code: Some(code) }
}

/// The acknowledgement of a completion that may be sent again.
pub open spec fn retry(code: Seq<char>) -> AckModel {
    AckModel { status: AcpAsyncCompletionAckStatus::Retryable, turn_id: None, code: Some(code) }
}

/// The acknowledgement of what came back from the consumer.
pub open spec fn reply_ack(reply: CompletionReply) -> AckModel {
    match reply {
        CompletionReply::Result(
            CommandEveAsyncCompletionResult::Completed { turn_id },
        ) => AckModel {
            status: AcpAsyncCompletionAckStatus::Accepted,
            turn_id: Some(turn_id@),
            code: None,
        },
        CompletionReply::Result(
            CommandEveAsyncCompletionResult::AlreadyCompleted { turn_id },
        ) => AckModel {
            status: AcpAsyncCompletionAckStatus::AlreadyApplied,
            turn_id: Some(turn_id@),
            code: None,
        },
        CompletionReply::Result(CommandEveAsyncCompletionResult::RetryableBusy { code }) => retry(
            code@,
        ),
        CompletionReply::Result(CommandEveAsyncCompletionResult::Rejected { code }) => rejection(
            code@,
        ),
        CompletionReply::Result(
            CommandEveAsyncCompletionResult::PersistedUnknown { code },
        ) => rejection(code@),
        CompletionReply::Dropped => retry("consumer_reply_dropped"@),
        CompletionReply::TimedOut => retry("consumer_reply_timeout"@),
    }
}

impl AcpAsyncCompletionResponse {
    /// The acknowledgement of a completion that is refused for good.
    pub fn rejected(code: &str) -> (r: Self)
        ensures
            r@ == rejection(code@),
    {
        AcpAsyncCompletionResponse {
            status: AcpAsyncCompletionAckStatus::Rejected,
            turn_id: None,
            code: Some(code.to_owned()),
        }
    }

    /// The acknowledgement of a completion that may be sent again.
    pub fn retryable(code: &str) -> (r: Self)
        ensures
            r@ == retry(code@),
    {
        AcpAsyncCompletionResponse {
            status: AcpAsyncCompletionAckStatus::Retryable,
            turn_id: None,
            code: Some(code.to_owned()),
        }
    }

    /// The acknowledgement of what came back from the consumer.
    pub fn of_reply(reply: CompletionReply) -> (r: Self)
        ensures
            r@ == reply_ack(reply),
    {
        match reply {
            CompletionReply::Result(
                CommandEveAsyncCompletionResult::Completed { turn_id },
            ) => AcpAsyncCompletionResponse {
                status: AcpAsyncCompletionAckStatus::Accepted,
                turn_id: Some(turn_id),
                code: None,
            },
            CompletionReply::Result(
                CommandEveAsyncCompletionResult::AlreadyCompleted { turn_id },
            ) => AcpAsyncCompletionResponse {
                status: AcpAsyncCompletionAckStatus::AlreadyApplied,
                turn_id: Some(turn_id),
                code: None,
            },
            CompletionReply::Result(
                CommandEveAsyncCompletionResult::RetryableBusy { code },
            ) => AcpAsyncCompletionResponse::retryable(code.as_str()),
            CompletionReply::Result(
                CommandEveAsyncCompletionResult::Rejected { code },
            ) => AcpAsyncCompletionResponse::rejected(code.as_str()),
            CompletionReply::Result(
                CommandEveAsyncCompletionResult::PersistedUnknown { code },
            ) => AcpAsyncCompletionResponse::rejected(code.as_str()),
            CompletionReply::Dropped => AcpAsyncCompletionResponse::retryable(
                Reason::ConsumerReplyDropped.as_str(),
            ),
            CompletionReply::TimedOut => AcpAsyncCompletionResponse::retryable(
                Reason::ConsumerReplyTimeout.as_str(),
            ),
        }
    }
}

/// A gap between the route and its consumer is never the end of a completion: an acknowledgement
/// refuses it for good only on the consumer's own word.
pub proof fn gap_is_never_terminal(reply: CompletionReply)
    ensures
        reply_ack(reply).status is Rejected ==> reply is Result && (reply->Result_0 is Rejected
            || reply->Result_0 is PersistedUnknown),
        reply is Dropped || reply is TimedOut ==> reply_ack(reply).status is Retryable,
        reply_ack(reply).turn_id is Some <==> reply_ack(reply).status is Accepted || reply_ack(
            reply,
        ).status is AlreadyApplied,
{
}

/// While no session is bound, or a transition is pending, nothing is dispatched and a sound
/// completion may be sent again.
pub proof fn unbound_route_dispatches_nothing(
    model: ExtensionModel,
    binding: BindingModel,
    payload_bytes: usize,
    request: CompletionModel,
    slot_free: bool,
)
    requires
        binding.pending > 0 || binding.bound is None,
    ensures
        !(completion_outcome(model, binding, payload_bytes, Some(request), slot_free) is Dispatch),
        model.async_completion_enabled && payload_bytes <= MAX_ASYNC_COMPLETION_PAYLOAD_BYTES
            && completion_fault(request) is None ==> completion_outcome(
            model,
            binding,
            payload_bytes,
            Some(request),
            slot_free,
        ) == CompletionOutcome::Retryable(Reason::SessionNotBound),
{
}

/// A completion is dispatched under the live lease, and is applied only to the session that it
/// names.
pub proof fn dispatch_goes_under_the_live_lease(
    model: ExtensionModel,
    binding: BindingModel,
    payload_bytes: usize,
    request: CompletionModel,
    slot_free: bool,
)
    ensures
        completion_outcome(
            model,
            binding,
            payload_bytes,
            Some(request),
            slot_free,
        ) matches CompletionOutcome::Dispatch { mismatch, lease } ==> {
            &&& binding.validates(lease.0, lease.1)
            &&& mismatch is None <==> request.session_id == lease.0
            &&& mismatch is Some ==> mismatch == Some(lease.0)
            &&& slot_free
        },
{
}

/// Whether a completion is refused for good depends on what it says alone, and not on the state of
/// the binding, the route or the consumer.
pub proof fn only_the_content_is_refused_for_good(
    model: ExtensionModel,
    binding: BindingModel,
    other: BindingModel,
    payload_bytes: usize,
    request: Option<CompletionModel>,
    slot_free: bool,
    other_free: bool,
)
    ensures
        completion_outcome(model, binding, payload_bytes, request, slot_free) is Rejected
            ==> completion_outcome(model, binding, payload_bytes, request, slot_free)
            == completion_outcome(model, other, payload_bytes, request, other_free),
{
}

/// Closing the bound session stops its completions: nothing is dispatched until a session is bound
/// again.
pub proof fn closed_session_dispatches_nothing(
    model: ExtensionModel,
    binding: BindingModel,
    payload_bytes: usize,
    request: Option<CompletionModel>,
    slot_free: bool,
)
    requires
        binding.bound is Some,
    ensures
        !(completion_outcome(
            model,
            binding.step(BindingStep::UnbindMatching { session_id: binding.bound->0 }),
            payload_bytes,
            request,
            slot_free,
        ) is Dispatch),
{
}

/// A completion is sound exactly where it is of the known version, is named properly, names its
/// session properly, and its content is more than white space and at most sixty-four kilobytes.
/// The first of these that fails is the one that is told.
pub proof fn sound_completions(request: CompletionModel)
    ensures
        ({
            let fault = completion_fault(request);
            let current = request.version == "command-eve-async-completion/v1"@;
            let named = is_identifier(request.completion_id);
            let placed = is_identifier(request.session_id);
            let filled = trim(request.content).len() > 0 && byte_len(request.content) <= 65536;
            &&& fault is None <==> current && named && placed && filled
            &&& !current ==> fault == Some(Reason::UnsupportedVersion)
            &&& current && !named ==> fault == Some(Reason::InvalidCompletionId)
            &&& current && named && !placed ==> fault == Some(Reason::InvalidSessionId)
            &&& current && named && placed && !filled ==> fault == Some(Reason::InvalidContent)
        }),
{
}

/// A sound completion for a bound session with nothing in its way is dispatched, and each thing in
/// its way is told as what it is.
pub proof fn sound_completion_is_dispatched(
    model: ExtensionModel,
    binding: BindingModel,
    payload_bytes: usize,
    request: Option<CompletionModel>,
    slot_free: bool,
)
    ensures
        ({
            let outcome = completion_outcome(model, binding, payload_bytes, request, slot_free);
            let enabled = model.async_completion_enabled;
            let fits = payload_bytes <= 98304;
            let sound = request is Some && completion_fault(request->0) is None;
            let bound = binding.pending == 0 && binding.bound is Some;
            &&& outcome is Dispatch <==> enabled && fits && sound && bound && model.routed
                && slot_free
            &&& !enabled && !model.routed ==> outcome is MethodNotFound
            &&& !enabled && model.routed ==> outcome == CompletionOutcome::Retryable(
                Reason::SessionNotBound,
            )
            &&& enabled && !fits ==> outcome == CompletionOutcome::Rejected(
                Reason::PayloadTooLarge,
            )
            &&& enabled && fits && request is None ==> outcome == CompletionOutcome::Rejected(
                Reason::InvalidShape,
            )
            &&& enabled && fits && request is Some && !sound ==> outcome
                == CompletionOutcome::Rejected(completion_fault(request->0)->0)
            &&& enabled && fits && sound && !bound ==> outcome == CompletionOutcome::Retryable(
                Reason::SessionNotBound,
            )
            &&& enabled && fits && sound && bound && !model.routed ==> outcome
                == CompletionOutcome::Retryable(Reason::ConsumerUnavailable)
            &&& enabled && fits && sound && bound && model.routed && !slot_free ==> outcome
                == CompletionOutcome::Retryable(Reason::ConsumerSaturated)
        }),
{
}

/// A completion is acknowledged with its turn where it was applied, now or before, and with a code
/// where it was not: for good where the consumer refuses it or cannot say what was stored, and
/// else to be sent again.
pub proof fn acknowledgement_says_what_was_done(
    turn_id: String,
    code: String,
)
    ensures
        ({
            let ack = reply_ack(
                CompletionReply::Result(CommandEveAsyncCompletionResult::Completed { turn_id }),
            );
            ack.status is Accepted && ack.turn_id == Some(turn_id@) && ack.code is None
        }),
        ({
            let ack = reply_ack(
                CompletionReply::Result(
                    CommandEveAsyncCompletionResult::AlreadyCompleted { turn_id },
                ),
            );
            ack.status is AlreadyApplied && ack.turn_id == Some(turn_id@) && ack.code is None
        }),
        ({
            let ack = reply_ack(
                CompletionReply::Result(CommandEveAsyncCompletionResult::RetryableBusy { code }),
            );
            ack.status is Retryable && ack.turn_id is None && ack.code == Some(code@)
        }),
        ({
            let ack = reply_ack(
                CompletionReply::Result(CommandEveAsyncCompletionResult::Rejected { code }),
            );
            ack.status is Rejected && ack.turn_id is None && ack.code == Some(code@)
        }),
        ({
            let ack = reply_ack(
                CompletionReply::Result(
                    CommandEveAsyncCompletionResult::PersistedUnknown { code },
                ),
            );
            ack.status is Rejected && ack.turn_id is None && ack.code == Some(code@)
        }),
        ({
            let dropped = reply_ack(CompletionReply::Dropped);
            let late = reply_ack(CompletionReply::TimedOut);
            &&& dropped.status is Retryable && dropped.turn_id is None
            &&& late.status is Retryable && late.turn_id is None
            &&& dropped.code == Some("consumer_reply_dropped"@)
            &&& late.code == Some("consumer_reply_timeout"@)
        }),
        rejection(code@).status is Rejected,
        rejection(code@).code == Some(code@),
        rejection(code@).turn_id is None,
        retry(code@).status is Retryable,
        retry(code@).code == Some(code@),
        retry(code@).turn_id is None,
{
}

} // verus!
