//! The requests that an agent may make of its client: bounded reads of a preview and of a terminal.
//!
//! A request that passes every check is held until it is answered, times out or is cancelled, and
//! leaves the router on the first of these. Whatever is not known is refused.
use vstd::prelude::*;

use crate::async_completion::{AcpSessionBinding, BindingStep};
use crate::prompt_admission::{
    reject_command_eve_prompt_admissions_for_session, session_waiter, AdmissionRegistry,
    AdmissionWake, RegistryModel, COMMAND_EVE_PROMPT_ADMISSION_EXT_METHOD,
};
use crate::text::{byte_len, chars_of, is_control, is_control_char, same_text, str_view, utf8_len};
use crate::text_map::TextMap;

verus! {

/// The method of a preview read, as the router matches it.
pub const COMMAND_EVE_READ_PREVIEW_EXT_METHOD: &'static str = "command_eve/read_preview";

/// The method of a preview read, as it stands on the wire.
pub const COMMAND_EVE_READ_PREVIEW_WIRE_METHOD: &'static str = "_command_eve/read_preview";

/// The method of a terminal read, as the router matches it.
pub const COMMAND_EVE_READ_TERMINAL_EXT_METHOD: &'static str = "command_eve/read_terminal";

/// The method of a terminal read, as it stands on the wire.
pub const COMMAND_EVE_READ_TERMINAL_WIRE_METHOD: &'static str = "_command_eve/read_terminal";

/// The method of a completion, as the router matches it.
pub const COMMAND_EVE_ASYNC_COMPLETION_EXT_METHOD: &'static str = "command_eve/async_completion";

/// The method of a completion, as it stands on the wire.
pub const COMMAND_EVE_ASYNC_COMPLETION_WIRE_METHOD: &'static str = "_command_eve/async_completion";

/// The method of a correction boundary, as the router matches it.
pub const COMMAND_EVE_CORRECTION_BOUNDARY_EXT_METHOD: &'static str =
    "command_eve/correction_boundary";

/// The method of a correction boundary, as it stands on the wire.
pub const COMMAND_EVE_CORRECTION_BOUNDARY_WIRE_METHOD: &'static str =
    "_command_eve/correction_boundary";

/// The version of a preview read.
pub const COMMAND_EVE_READ_PREVIEW_VERSION: &'static str = "command-eve-read-preview/v1";

/// The version of a terminal read.
pub const COMMAND_EVE_READ_TERMINAL_VERSION: &'static str = "command-eve-read-terminal/v1";

/// After how many seconds a read times out.
pub const CLIENT_EXTENSION_TIMEOUT_SECS: u64 = 45;

/// The most bytes of a read request.
pub const MAX_REQUEST_PAYLOAD_BYTES: usize = 4096;

/// The most bytes of an answer to a read request.
pub const MAX_RESPONSE_PAYLOAD_BYTES: usize = 32768;

/// The most bytes of an identifier.
pub const MAX_IDENTIFIER_BYTES: usize = 256;

/// The last position at which a read may start.
pub const MAX_START: u32 = 10_000_000;

/// The largest window of a read.
pub const MAX_COUNT: u32 = 24_000;

/// The code under which requests go whose session is no longer bound.
pub const PEER_ACK_UNAVAILABLE: &'static str = "ATTACHMENT_PROMPT_FINALIZE_PEER_ACK_UNAVAILABLE";

/// Why a request is refused or given up.
#[derive(Clone, Copy, Debug, PartialEq, Eq, Structural)]
pub enum Reason {
    PayloadTooLarge,
    InvalidShape,
    UnsupportedVersion,
    InvalidRequestId,
    InvalidSessionId,
    InvalidCompletionId,
    InvalidContent,
    StartOutOfRange,
    CountOutOfRange,
    SessionMismatch,
    DuplicateRequestId,
    RendererUnavailable,
    Timeout,
    SessionRebound,
    SessionRebinding,
    SessionClosed,
    SessionNotBound,
    ConsumerUnavailable,
    ConsumerSaturated,
    ConsumerReplyDropped,
    ConsumerReplyTimeout,
    ReceiptCapacityExhausted,
}

impl Reason {
    /// The reason as it stands on the wire.
    pub open spec fn text(self) -> Seq<char> {
        match self {
            Reason::PayloadTooLarge => "payload_too_large"@,
            Reason::InvalidShape => "invalid_shape"@,
            Reason::UnsupportedVersion => "unsupported_version"@,
            Reason::InvalidRequestId => "invalid_request_id"@,
            Reason::InvalidSessionId => "invalid_session_id"@,
            Reason::InvalidCompletionId => "invalid_completion_id"@,
            Reason::InvalidContent => "invalid_content"@,
            Reason::StartOutOfRange => "start_out_of_range"@,
            Reason::CountOutOfRange => "count_out_of_range"@,
            Reason::SessionMismatch => "session_mismatch"@,
            Reason::DuplicateRequestId => "duplicate_request_id"@,
            Reason::RendererUnavailable => "renderer_unavailable"@,
            Reason::Timeout => "timeout"@,
            Reason::SessionRebound => "session_rebound"@,
            Reason::SessionRebinding => "session_rebinding"@,
            Reason::SessionClosed => "session_closed"@,
            Reason::SessionNotBound => "session_not_bound"@,
            Reason::ConsumerUnavailable => "consumer_unavailable"@,
            Reason::ConsumerSaturated => "consumer_saturated"@,
            Reason::ConsumerReplyDropped => "consumer_reply_dropped"@,
            Reason::ConsumerReplyTimeout => "consumer_reply_timeout"@,
            Reason::ReceiptCapacityExhausted => "receipt_capacity_exhausted"@,
        }
    }

    pub fn as_str(self) -> (r: &'static str)
        ensures
            r@ == self.text(),
    {
        match self {
            Reason::PayloadTooLarge => "payload_too_large",
            Reason::InvalidShape => "invalid_shape",
            Reason::UnsupportedVersion => "unsupported_version",
            Reason::InvalidRequestId => "invalid_request_id",
            Reason::InvalidSessionId => "invalid_session_id",
            Reason::InvalidCompletionId => "invalid_completion_id",
            Reason::InvalidContent => "invalid_content",
            Reason::StartOutOfRange => "start_out_of_range",
            Reason::CountOutOfRange => "count_out_of_range",
            Reason::SessionMismatch => "session_mismatch",
            Reason::DuplicateRequestId => "duplicate_request_id",
            Reason::RendererUnavailable => "renderer_unavailable",
            Reason::Timeout => "timeout",
            Reason::SessionRebound => "session_rebound",
            Reason::SessionRebinding => "session_rebinding",
            Reason::SessionClosed => "session_closed",
            Reason::SessionNotBound => "session_not_bound",
            Reason::ConsumerUnavailable => "consumer_unavailable",
            Reason::ConsumerSaturated => "consumer_saturated",
            Reason::ConsumerReplyDropped => "consumer_reply_dropped",
            Reason::ConsumerReplyTimeout => "consumer_reply_timeout",
            Reason::ReceiptCapacityExhausted => "receipt_capacity_exhausted",
        }
    }
}

/// The error that a request is answered with.
#[derive(Clone, Copy, Debug, PartialEq, Eq, Structural)]
pub enum RpcError {
    MethodNotFound,
    InvalidParams(Reason),
    Internal(Reason),
}

impl RpcError {
    /// The error's number in the protocol.
    pub fn code(self) -> (r: i32)
        ensures
            r == match self {
                RpcError::MethodNotFound => -32601i32,
                RpcError::InvalidParams(_) => -32602i32,
                RpcError::Internal(_) => -32603i32,
            },
    {
        match self {
            RpcError::MethodNotFound => -32601,
            RpcError::InvalidParams(_) => -32602,
            RpcError::Internal(_) => -32603,
        }
    }

    /// The reason that goes with the error.
    pub fn reason(self) -> (r: Option<Reason>)
        ensures
            r == match self {
                RpcError::MethodNotFound => None::<Reason>,
                RpcError::InvalidParams(reason) => Some(reason),
                RpcError::Internal(reason) => Some(reason),
            },
    {
        match self {
            RpcError::MethodNotFound => None,
            RpcError::InvalidParams(reason) => Some(reason),
            RpcError::Internal(reason) => Some(reason),
        }
    }
}

/// A method that the router knows.
#[derive(Clone, Copy, Debug, PartialEq, Eq, Structural)]
pub enum ExtensionMethod {
    PromptAdmission,
    AsyncCompletion,
    CorrectionBoundary,
    Read(ReadKind),
}

/// What is read.
#[derive(Clone, Copy, Debug, PartialEq, Eq, Structural)]
pub enum ReadKind {
    Preview,
    Terminal,
}

/// The method of a name, if the router knows one.
pub open spec fn method_of(name: Seq<char>) -> Option<ExtensionMethod> {
    if name == COMMAND_EVE_PROMPT_ADMISSION_EXT_METHOD@ {
        Some(ExtensionMethod::PromptAdmission)
    } else if name == COMMAND_EVE_CORRECTION_BOUNDARY_EXT_METHOD@ {
        Some(ExtensionMethod::CorrectionBoundary)
    } else if name == COMMAND_EVE_ASYNC_COMPLETION_EXT_METHOD@ {
        Some(ExtensionMethod::AsyncCompletion)
    } else if name == COMMAND_EVE_READ_TERMINAL_EXT_METHOD@ {
        Some(ExtensionMethod::Read(ReadKind::Terminal))
    } else if name == COMMAND_EVE_READ_PREVIEW_EXT_METHOD@ {
        Some(ExtensionMethod::Read(ReadKind::Preview))
    } else {
        None
    }
}

/// Matches the name of a method against the ones that the router knows.
pub fn route_method(name: &str) -> (r: Result<ExtensionMethod, RpcError>)
    ensures
        r == match method_of(name@) {
            Some(method) => Ok::<ExtensionMethod, RpcError>(method),
            None => Err::<ExtensionMethod, RpcError>(RpcError::MethodNotFound),
        },
{
    if same_text(name, COMMAND_EVE_PROMPT_ADMISSION_EXT_METHOD) {
        Ok(ExtensionMethod::PromptAdmission)
    } else if same_text(name, COMMAND_EVE_CORRECTION_BOUNDARY_EXT_METHOD) {
        Ok(ExtensionMethod::CorrectionBoundary)
    } else if same_text(name, COMMAND_EVE_ASYNC_COMPLETION_EXT_METHOD) {
        Ok(ExtensionMethod::AsyncCompletion)
    } else if same_text(name, COMMAND_EVE_READ_TERMINAL_EXT_METHOD) {
        Ok(ExtensionMethod::Read(ReadKind::Terminal))
    } else if same_text(name, COMMAND_EVE_READ_PREVIEW_EXT_METHOD) {
        Ok(ExtensionMethod::Read(ReadKind::Preview))
    } else {
        Err(RpcError::MethodNotFound)
    }
}

impl ReadKind {
    /// The version of a read of this kind.
    pub open spec fn version_text(self) -> Seq<char> {
        match self {
            ReadKind::Preview => COMMAND_EVE_READ_PREVIEW_VERSION@,
            ReadKind::Terminal => COMMAND_EVE_READ_TERMINAL_VERSION@,
        }
    }

    pub fn version(self) -> (r: &'static str)
        ensures
            r@ == self.version_text(),
    {
        match self {
            ReadKind::Preview => COMMAND_EVE_READ_PREVIEW_VERSION,
            ReadKind::Terminal => COMMAND_EVE_READ_TERMINAL_VERSION,
        }
    }
}

/// A text that can name a request, a completion or a session.
pub open spec fn is_identifier(s: Seq<char>) -> bool {
    &&& 0 < s.len()
    &&& byte_len(s) <= MAX_IDENTIFIER_BYTES
    &&& forall|i: int| 0 <= i < s.len() ==> !is_control(#[trigger] s[i])
}

/// Whether a text can name a request, a completion or a session.
pub fn validate_identifier(value: &str) -> (r: bool)
    ensures
        r == is_identifier(value@),
{
    if utf8_len(value) > MAX_IDENTIFIER_BYTES {
        return false;
    }
    let chars = chars_of(value);
    if chars.len() == 0 {
        return false;
    }
    let mut i: usize = 0;
    while i < chars.len()
        invariant
            chars@ == value@,
            i <= chars@.len(),
            forall|j: int| 0 <= j < i ==> !is_control(#[trigger] chars@[j]),
        decreases chars@.len() - i,
    {
        if is_control_char(chars[i]) {
            return false;
        }
        i = i + 1;
    }
    true
}

/// A request for a bounded read.
#[derive(Debug, PartialEq, Eq)]
pub struct ReadRequest {
    pub version: String,
    pub request_id: String,
    pub session_id: String,
    pub start: Option<u32>,
    pub count: Option<u32>,
}

/// What a read request says.
pub struct ReadModel {
    pub version: Seq<char>,
    pub request_id: Seq<char>,
    pub session_id: Seq<char>,
    pub start: Option<u32>,
    pub count: Option<u32>,
}

impl View for ReadRequest {
    type V = ReadModel;

    open spec fn view(&self) -> ReadModel {
        ReadModel {
            version: self.version@,
            request_id: self.request_id@,
            session_id: self.session_id@,
            start: self.start,
            count: self.count,
        }
    }
}

/// A read that waits for its answer.
#[derive(Debug)]
pub struct PendingRead {
    session_id: String,
    start: Option<u32>,
    count: Option<u32>,
}

/// What a waiting read keeps of its request.
pub struct PendingModel {
    pub session_id: Seq<char>,
    pub start: Option<u32>,
    pub count: Option<u32>,
}

impl View for PendingRead {
    type V = PendingModel;

    closed spec fn view(&self) -> PendingModel {
        PendingModel { session_id: self.session_id@, start: self.start, count: self.count }
    }
}

impl PendingRead {
    pub fn session_id(&self) -> (r: &str)
        ensures
            r@ == self@.session_id,
    {
        self.session_id.as_str()
    }

    pub fn start(&self) -> (r: Option<u32>)
        ensures
            r == self@.start,
    {
        self.start
    }

    pub fn count(&self) -> (r: Option<u32>)
        ensures
            r == self@.count,
    {
        self.count
    }
}

/// What is wrong with a read request, if anything.
pub open spec fn read_fault(kind: ReadKind, request: ReadModel) -> Option<Reason> {
    if request.version != kind.version_text() {
        Some(Reason::UnsupportedVersion)
    } else if !is_identifier(request.request_id) {
        Some(Reason::InvalidRequestId)
    } else if !is_identifier(request.session_id) {
        Some(Reason::InvalidSessionId)
    } else if request.start matches Some(start) && start > MAX_START {
        Some(Reason::StartOutOfRange)
    } else if request.count matches Some(count) && (count == 0 || count > MAX_COUNT) {
        Some(Reason::CountOutOfRange)
    } else {
        None
    }
}

/// Checks the shape of a read request.
pub fn validate_request(kind: ReadKind, request: &ReadRequest) -> (r: Result<(), Reason>)
    ensures
        r == match read_fault(kind, request@) {
            Some(reason) => Err::<(), Reason>(reason),
            None => Ok::<(), Reason>(()),
        },
{
    if !same_text(request.version.as_str(), kind.version()) {
        return Err(Reason::UnsupportedVersion);
    }
    if !validate_identifier(request.request_id.as_str()) {
        return Err(Reason::InvalidRequestId);
    }
    if !validate_identifier(request.session_id.as_str()) {
        return Err(Reason::InvalidSessionId);
    }
    if let Some(start) = request.start {
        if start > MAX_START {
            return Err(Reason::StartOutOfRange);
        }
    }
    if let Some(count) = request.count {
        if count == 0 || count > MAX_COUNT {
            return Err(Reason::CountOutOfRange);
        }
    }
    Ok(())
}

/// What the router holds, in terms of plain values.
pub struct ExtensionModel {
    pub read_preview_enabled: bool,
    pub read_terminal_enabled: bool,
    pub async_completion_enabled: bool,
    /// Whether there is a route for completions.
    pub routed: bool,
    pub previews: Map<Seq<char>, PendingModel>,
    pub terminals: Map<Seq<char>, PendingModel>,
}

impl ExtensionModel {
    /// No request waits under two kinds.
    pub open spec fn wf(self) -> bool {
        forall|id: Seq<char>|
            !(#[trigger] self.previews.dom().contains(id) && self.terminals.dom().contains(id))
    }

    /// The waiting reads of a kind.
    pub open spec fn pending(self, kind: ReadKind) -> Map<Seq<char>, PendingModel> {
        match kind {
            ReadKind::Preview => self.previews,
            ReadKind::Terminal => self.terminals,
        }
    }

    /// Whether reads of a kind are answered at all.
    pub open spec fn enabled(self, kind: ReadKind) -> bool {
        match kind {
            ReadKind::Preview => self.read_preview_enabled,
            ReadKind::Terminal => self.read_terminal_enabled,
        }
    }

    /// With other waiting reads of a kind.
    pub open spec fn with_pending(self, kind: ReadKind, pending: Map<Seq<char>, PendingModel>) -> Self {
        match kind {
            ReadKind::Preview => ExtensionModel { previews: pending, ..self },
            ReadKind::Terminal => ExtensionModel { terminals: pending, ..self },
        }
    }

    /// Without any waiting read.
    pub open spec fn drained(self) -> Self {
        ExtensionModel {
            previews: Map::<Seq<char>, PendingModel>::empty(),
            terminals: Map::<Seq<char>, PendingModel>::empty(),
            ..self
        }
    }

    /// Without any waiting read, and with every extension switched off.
    pub open spec fn shut(self) -> Self {
        ExtensionModel {
            read_preview_enabled: false,
            read_terminal_enabled: false,
            async_completion_enabled: false,
            ..self.drained()
        }
    }

    /// The error with which a read request is refused, if it is.
    pub open spec fn refusal(
        self,
        kind: ReadKind,
        payload_bytes: usize,
        request: Option<ReadModel>,
        bound: Option<Seq<char>>,
    ) -> Option<RpcError> {
        if !self.enabled(kind) {
            Some(RpcError::MethodNotFound)
        } else if payload_bytes > MAX_REQUEST_PAYLOAD_BYTES {
            Some(RpcError::InvalidParams(Reason::PayloadTooLarge))
        } else {
            match request {
                None => Some(RpcError::InvalidParams(Reason::InvalidShape)),
                Some(request) => match read_fault(kind, request) {
                    Some(reason) => Some(RpcError::InvalidParams(reason)),
                    None => if bound != Some(request.session_id) {
                        Some(RpcError::InvalidParams(Reason::SessionMismatch))
                    } else if self.previews.dom().contains(request.request_id)
                        || self.terminals.dom().contains(request.request_id) {
                        Some(RpcError::InvalidParams(Reason::DuplicateRequestId))
                    } else {
                        None
                    },
                },
            }
        }
    }

    /// With one more waiting read.
    pub open spec fn accepted(self, kind: ReadKind, request: ReadModel) -> Self {
        self.with_pending(
            kind,
            self.pending(kind).insert(
                request.request_id,
                PendingModel {
                    session_id: request.session_id,
                    start: request.start,
                    count: request.count,
                },
            ),
        )
    }

    /// Without one waiting read.
    pub open spec fn without(self, kind: ReadKind, request_id: Seq<char>) -> Self {
        self.with_pending(kind, self.pending(kind).remove(request_id))
    }

    /// Whether a request of a session waits.
    pub open spec fn waits(self, kind: ReadKind, request_id: Seq<char>, session_id: Seq<char>) -> bool {
        &&& self.pending(kind).dom().contains(request_id)
        &&& self.pending(kind)[request_id].session_id == session_id
    }

    /// Whether every waiting read belongs to a session.
    pub open spec fn belongs_to(self, session_id: Option<Seq<char>>) -> bool {
        &&& forall|id: Seq<char>| #[trigger]
            self.previews.dom().contains(id) ==> session_id == Some(self.previews[id].session_id)
        &&& forall|id: Seq<char>| #[trigger]
            self.terminals.dom().contains(id) ==> session_id == Some(self.terminals[id].session_id)
    }
}

/// The reads that are given up at once.
#[derive(Debug)]
pub struct CancelledReads {
    pub previews: Vec<String>,
    pub terminals: Vec<String>,
}

/// Whether a list names every key of a map, each once.
pub open spec fn names_all(names: Seq<String>, pending: Map<Seq<char>, PendingModel>) -> bool {
    &&& forall|i: int| 0 <= i < names.len() ==> pending.dom().contains((#[trigger] names[i])@)
    &&& forall|i: int, j: int|
        0 <= i < names.len() && 0 <= j < names.len() && (#[trigger] names[i])@ == (
        #[trigger] names[j])@ ==> i == j
    &&& forall|id: Seq<char>| #[trigger]
        pending.dom().contains(id) ==> exists|i: int|
            0 <= i < names.len() && (#[trigger] names[i])@ == id
}

impl CancelledReads {
    /// Whether these are all the reads that waited.
    pub open spec fn are_all_of(&self, model: ExtensionModel) -> bool {
        names_all(self.previews@, model.previews) && names_all(self.terminals@, model.terminals)
    }
}

/// The state of the client's extensions.
#[derive(Debug)]
pub struct AcpClientExtensionRouter {
    read_preview_enabled: bool,
    read_terminal_enabled: bool,
    async_completion_enabled: bool,
    routed: bool,
    pending: TextMap<PendingRead>,
    pending_terminal: TextMap<PendingRead>,
}

impl View for AcpClientExtensionRouter {
    type V = ExtensionModel;

    closed spec fn view(&self) -> ExtensionModel {
        ExtensionModel {
            read_preview_enabled: self.read_preview_enabled,
            read_terminal_enabled: self.read_terminal_enabled,
            async_completion_enabled: self.async_completion_enabled,
            routed: self.routed,
            previews: self.pending@.map_values(|read: PendingRead| read@),
            terminals: self.pending_terminal@.map_values(|read: PendingRead| read@),
        }
    }
}

impl AcpClientExtensionRouter {
    pub closed spec fn wf(&self) -> bool {
        self.pending.wf() && self.pending_terminal.wf() && self@.wf()
    }

    /// Nothing enabled, nothing waiting, and no route for completions.
    pub fn new() -> (r: Self)
        ensures
            r.wf(),
            r@ == (ExtensionModel {
                read_preview_enabled: false,
                read_terminal_enabled: false,
                async_completion_enabled: false,
                routed: false,
                previews: Map::<Seq<char>, PendingModel>::empty(),
                terminals: Map::<Seq<char>, PendingModel>::empty(),
            }),
    {
        let r = AcpClientExtensionRouter {
            read_preview_enabled: false,
            read_terminal_enabled: false,
            async_completion_enabled: false,
            routed: false,
            pending: TextMap::new(),
            pending_terminal: TextMap::new(),
        };
        proof {
            assert(r@.previews =~= Map::<Seq<char>, PendingModel>::empty());
            assert(r@.terminals =~= Map::<Seq<char>, PendingModel>::empty());
        }
        r
    }

    /// Gives the router a route for completions.
    pub fn with_async_completion(self) -> (r: Self)
        requires
            self.wf(),
        ensures
            r.wf(),
            r@ == (ExtensionModel { routed: true, ..self@ }),
    {
        let mut router = self;
        router.routed = true;
        router
    }

    /// Whether there is a route for completions.
    pub fn is_routed(&self) -> (r: bool)
        ensures
            r == self@.routed,
    {
        self.routed
    }

    /// Whether completions are answered.
    pub fn async_completion_enabled(&self) -> (r: bool)
        ensures
            r == self@.async_completion_enabled,
    {
        self.async_completion_enabled
    }

    /// Switches completions on, which needs a route.
    pub fn enable_async_completion(&mut self) -> (r: Result<(), ()>)
        requires
            old(self).wf(),
        ensures
            final(self).wf(),
            r is Ok <==> old(self)@.routed,
            final(self)@ == if old(self)@.routed {
                ExtensionModel { async_completion_enabled: true, ..old(self)@ }
            } else {
                old(self)@
            },
    {
        if !self.routed {
            return Err(());
        }
        self.async_completion_enabled = true;
        Ok(())
    }

    /// Switches preview reads on.
    pub fn enable_read_preview(&mut self)
        requires
            old(self).wf(),
        ensures
            final(self).wf(),
            final(self)@ == (ExtensionModel { read_preview_enabled: true, ..old(self)@ }),
    {
        self.read_preview_enabled = true;
    }

    /// Switches terminal reads on.
    pub fn enable_read_terminal(&mut self)
        requires
            old(self).wf(),
        ensures
            final(self).wf(),
            final(self)@ == (ExtensionModel { read_terminal_enabled: true, ..old(self)@ }),
    {
        self.read_terminal_enabled = true;
    }

    /// The number of preview reads that wait.
    pub fn pending_count(&self) -> (r: usize)
        requires
            self.wf(),
        ensures
            r == self@.previews.len(),
    {
        proof {
            assert(self@.previews.dom() =~= self.pending@.dom());
        }
        self.pending.len()
    }

    /// The number of terminal reads that wait.
    pub fn pending_terminal_count(&self) -> (r: usize)
        requires
            self.wf(),
        ensures
            r == self@.terminals.len(),
    {
        proof {
            assert(self@.terminals.dom() =~= self.pending_terminal@.dom());
        }
        self.pending_terminal.len()
    }

    fn enabled(&self, kind: ReadKind) -> (r: bool)
        ensures
            r == self@.enabled(kind),
    {
        match kind {
            ReadKind::Preview => self.read_preview_enabled,
            ReadKind::Terminal => self.read_terminal_enabled,
        }
    }

    /// The waiting read of a request.
    pub fn pending_read(&self, kind: ReadKind, request_id: &str) -> (r: Option<&PendingRead>)
        requires
            self.wf(),
        ensures
            r is Some <==> self@.pending(kind).dom().contains(request_id@),
            r matches Some(read) ==> read@ == self@.pending(kind)[request_id@],
    {
        match kind {
            ReadKind::Preview => self.pending.get(request_id),
            ReadKind::Terminal => self.pending_terminal.get(request_id),
        }
    }

    /// Takes up a read request. `payload_bytes` is the length of what came over the wire, `request`
    /// what it was read as, if it could be read.
    pub fn handle_read_request(
        &mut self,
        kind: ReadKind,
        payload_bytes: usize,
        request: Option<&ReadRequest>,
        bound_session_id: Option<&str>,
    ) -> (r: Result<(), RpcError>)
        requires
            old(self).wf(),
        ensures
            final(self).wf(),
            ({
                let read = match request {
                    Some(request) => Some(request@),
                    None => None,
                };
                let refusal = old(self)@.refusal(
                    kind,
                    payload_bytes,
                    read,
                    str_view(bound_session_id),
                );
                match refusal {
                    Some(error) => r == Err::<(), RpcError>(error) && final(self)@ == old(self)@,
                    None => r == Ok::<(), RpcError>(()) && request is Some && final(self)@ == old(
                        self,
                    )@.accepted(kind, request->0@),
                }
            }),
    {
        if !self.enabled(kind) {
            return Err(RpcError::MethodNotFound);
        }
        if payload_bytes > MAX_REQUEST_PAYLOAD_BYTES {
            return Err(RpcError::InvalidParams(Reason::PayloadTooLarge));
        }
        let request = match request {
            Some(request) => request,
            None => {
                return Err(RpcError::InvalidParams(Reason::InvalidShape));
            },
        };
        if let Err(reason) = validate_request(kind, request) {
            return Err(RpcError::InvalidParams(reason));
        }
        let bound = match bound_session_id {
            Some(bound) => same_text(bound, request.session_id.as_str()),
            None => false,
        };
        if !bound {
            return Err(RpcError::InvalidParams(Reason::SessionMismatch));
        }
        if self.pending.contains_key(request.request_id.as_str())
            || self.pending_terminal.contains_key(request.request_id.as_str()) {
            return Err(RpcError::InvalidParams(Reason::DuplicateRequestId));
        }
        let read = PendingRead {
            session_id: request.session_id.clone(),
            start: request.start,
            count: request.count,
        };
        match kind {
            ReadKind::Preview => self.pending.insert(request.request_id.as_str(), read),
            ReadKind::Terminal => self.pending_terminal.insert(request.request_id.as_str(), read),
        }
        proof {
            let after = old(self)@.accepted(kind, request@);
            assert(self@.previews =~= after.previews);
            assert(self@.terminals =~= after.terminals);
        }
        Ok(())
    }

    /// Removes a waiting read, as when its request cannot be shown to anyone, and returns whether it
    /// waited.
    pub fn reject_pending(&mut self, kind: ReadKind, request_id: &str) -> (r: bool)
        requires
            old(self).wf(),
        ensures
            final(self).wf(),
            final(self)@ == old(self)@.without(kind, request_id@),
            r == old(self)@.pending(kind).dom().contains(request_id@),
    {
        let removed = match kind {
            ReadKind::Preview => self.pending.remove(request_id),
            ReadKind::Terminal => self.pending_terminal.remove(request_id),
        };
        proof {
            let after = old(self)@.without(kind, request_id@);
            assert(self@.previews =~= after.previews);
            assert(self@.terminals =~= after.terminals);
        }
        removed.is_some()
    }

    /// Removes a waiting read whose time is over, where it still is the one of that session, and
    /// returns whether it was.
    pub fn expire_pending(&mut self, kind: ReadKind, request_id: &str, session_id: &str) -> (r: bool)
        requires
            old(self).wf(),
        ensures
            final(self).wf(),
            r == old(self)@.waits(kind, request_id@, session_id@),
            final(self)@ == if r {
                old(self)@.without(kind, request_id@)
            } else {
                old(self)@
            },
    {
        let waits = match self.pending_read(kind, request_id) {
            Some(read) => same_text(read.session_id.as_str(), session_id),
            None => false,
        };
        if !waits {
            return false;
        }
        self.reject_pending(kind, request_id)
    }

    fn drain(&mut self) -> (r: CancelledReads)
        requires
            old(self).wf(),
        ensures
            final(self).wf(),
            final(self)@ == old(self)@.drained(),
            r.are_all_of(old(self)@),
    {
        let previews = self.pending.keys();
        let terminals = self.pending_terminal.keys();
        proof {
            assert(self@.previews.dom() =~= self.pending@.dom());
            assert(self@.terminals.dom() =~= self.pending_terminal@.dom());
        }
        self.pending = TextMap::new();
        self.pending_terminal = TextMap::new();
        proof {
            assert(self@.previews =~= Map::<Seq<char>, PendingModel>::empty());
            assert(self@.terminals =~= Map::<Seq<char>, PendingModel>::empty());
        }
        CancelledReads { previews, terminals }
    }

    /// Binds the session that the agent acknowledged, in a transition that was entered. Where
    /// another session was bound, its reads and its admissions are given up. `previous_session` is
    /// what was bound when the bind was asked for. Nothing is given up where the session was bound
    /// already.
    pub fn bind_session(
        &mut self,
        binding: &mut AcpSessionBinding,
        admissions: &mut AdmissionRegistry,
        previous_session: Option<&str>,
        session_id: &str,
    ) -> (r: Result<Option<SessionChange>, ()>)
        requires
            old(self).wf(),
            old(binding)@.wf(),
            old(binding)@.writer,
            old(admissions).wf(),
        ensures
            final(self).wf(),
            final(binding)@.wf(),
            final(admissions).wf(),
            r is Err <==> !is_identifier(session_id@) || (old(binding)@.bound != Some(session_id@)
                && old(binding)@.generation == u64::MAX),
            r matches Ok(change) ==> (change is None <==> old(binding)@.bound == Some(session_id@)),
            final(binding)@ == if r is Ok {
                old(binding)@.step(BindingStep::Bind { session_id: session_id@ })
            } else {
                old(binding)@
            },
            match r {
                Ok(Some(change)) => {
                    &&& change.ends(old(self)@, old(admissions)@, str_view(previous_session))
                    &&& final(self)@ == old(self)@.drained()
                    &&& final(admissions)@ == admissions_after(
                        old(admissions)@,
                        str_view(previous_session),
                    )
                },
                _ => final(self)@ == old(self)@ && final(admissions)@ == old(admissions)@,
            },
    {
        if !validate_identifier(session_id) {
            return Err(());
        }
        match binding.bind(session_id) {
            Ok(true) => Ok(Some(self.end_session(admissions, previous_session))),
            Ok(false) => Ok(None),
            Err(()) => Err(()),
        }
    }

    /// Unbinds whatever is bound, in a transition that was entered, before a session is made, loaded
    /// or resumed. Every read that waits is given up.
    pub fn begin_session_binding(
        &mut self,
        binding: &mut AcpSessionBinding,
        admissions: &mut AdmissionRegistry,
        previous_session: Option<&str>,
    ) -> (r: SessionChange)
        requires
            old(self).wf(),
            old(binding)@.wf(),
            old(binding)@.writer,
            old(admissions).wf(),
        ensures
            final(self).wf(),
            final(binding)@.wf(),
            final(admissions).wf(),
            final(binding)@ == old(binding)@.step(BindingStep::Invalidate),
            r.ends(old(self)@, old(admissions)@, str_view(previous_session)),
            final(self)@ == old(self)@.drained(),
            final(admissions)@ == admissions_after(old(admissions)@, str_view(previous_session)),
    {
        binding.invalidate();
        self.end_session(admissions, previous_session)
    }

    /// Unbinds a session that is to be closed, in a transition that was entered. Nothing is given up
    /// where another session is bound.
    pub fn begin_session_close(
        &mut self,
        binding: &mut AcpSessionBinding,
        admissions: &mut AdmissionRegistry,
        session_id: &str,
    ) -> (r: Option<SessionChange>)
        requires
            old(self).wf(),
            old(binding)@.wf(),
            old(binding)@.writer,
            old(admissions).wf(),
        ensures
            final(self).wf(),
            final(binding)@.wf(),
            final(admissions).wf(),
            final(binding)@ == old(binding)@.step(
                BindingStep::UnbindMatching { session_id: session_id@ },
            ),
            r is Some <==> old(binding)@.bound == Some(session_id@),
            match r {
                Some(change) => {
                    &&& change.ends(old(self)@, old(admissions)@, Some(session_id@))
                    &&& final(self)@ == old(self)@.drained()
                    &&& final(admissions)@ == old(admissions)@.without_session(session_id@)
                },
                None => final(self)@ == old(self)@ && final(admissions)@ == old(admissions)@,
            },
    {
        if !binding.unbind_matching(session_id) {
            return None;
        }
        Some(self.end_session(admissions, Some(session_id)))
    }

    /// Gives up everything that waits and switches every extension off, before the transport goes
    /// away. The route's admissions are closed for good.
    pub fn cancel_all(
        &mut self,
        binding: &mut AcpSessionBinding,
        admissions: &mut AdmissionRegistry,
    ) -> (r: SessionChange)
        requires
            old(self).wf(),
            old(binding)@.wf(),
            old(binding)@.pending < usize::MAX,
            old(admissions).wf(),
        ensures
            final(self).wf(),
            final(binding)@.wf(),
            final(admissions).wf(),
            final(binding)@ == old(binding)@.step(BindingStep::Close),
            final(self)@ == old(self)@.shut(),
            ({
                let cancelled = old(binding)@.shown_session();
                &&& r.ends(old(self)@, old(admissions)@, cancelled)
                &&& final(admissions)@ == admissions_after(old(admissions)@, cancelled)
            }),
    {
        let cancelled_session = binding.bound_session_id();
        binding.close_admissions();
        let change = match &cancelled_session {
            Some(session_id) => self.end_session(admissions, Some(session_id.as_str())),
            None => self.end_session(admissions, None),
        };
        self.read_preview_enabled = false;
        self.read_terminal_enabled = false;
        self.async_completion_enabled = false;
        change
    }

    fn end_session(
        &mut self,
        admissions: &mut AdmissionRegistry,
        previous_session: Option<&str>,
    ) -> (r: SessionChange)
        requires
            old(self).wf(),
            old(admissions).wf(),
        ensures
            final(self).wf(),
            final(admissions).wf(),
            r.ends(old(self)@, old(admissions)@, str_view(previous_session)),
            final(self)@ == old(self)@.drained(),
            final(admissions)@ == admissions_after(old(admissions)@, str_view(previous_session)),
    {
        let wakes = match previous_session {
            Some(session_id) => reject_command_eve_prompt_admissions_for_session(
                admissions,
                session_id,
                PEER_ACK_UNAVAILABLE,
            ),
            None => Vec::new(),
        };
        let cancelled = self.drain();
        SessionChange { wakes, cancelled }
    }
}

/// What is given up when a session is no longer bound.
#[derive(Debug)]
pub struct SessionChange {
    /// The turns that are to be told that their admission is gone.
    pub wakes: Vec<AdmissionWake>,
    /// The reads that are to be answered with an error.
    pub cancelled: CancelledReads,
}

/// The admissions without those of a session.
pub open spec fn admissions_after(
    admissions: RegistryModel,
    session_id: Option<Seq<char>>,
) -> RegistryModel {
    match session_id {
        Some(session_id) => admissions.without_session(session_id),
        None => admissions,
    }
}

/// Whether a list tells every admission that goes with a session, each once.
pub open spec fn tells_all(
    wakes: Seq<AdmissionWake>,
    admissions: RegistryModel,
    session_id: Seq<char>,
) -> bool {
    &&& forall|i: int| #![trigger wakes[i]]
        0 <= i < wakes.len() ==> admissions.goes_with_session(wakes[i]@.0, session_id) && wakes[i]@
            == (
            wakes[i]@.0,
            session_waiter(admissions.entries[wakes[i]@.0].stage),
            PEER_ACK_UNAVAILABLE@,
        )
    &&& forall|i: int, j: int|
        0 <= i < wakes.len() && 0 <= j < wakes.len() && (#[trigger] wakes[i])@.0 == (
        #[trigger] wakes[j])@.0 ==> i == j
    &&& forall|request_id: Seq<char>| #[trigger]
        admissions.goes_with_session(request_id, session_id) ==> exists|i: int|
            0 <= i < wakes.len() && (#[trigger] wakes[i])@.0 == request_id
}

impl SessionChange {
    /// Whether this is all that waited in the router, and all that went with the session.
    pub open spec fn ends(
        &self,
        model: ExtensionModel,
        admissions: RegistryModel,
        session_id: Option<Seq<char>>,
    ) -> bool {
        &&& self.cancelled.are_all_of(model)
        &&& match session_id {
            Some(session_id) => tells_all(self.wakes@, admissions, session_id),
            None => self.wakes@.len() == 0,
        }
    }
}

/// Every operation on the router keeps the reads of the two kinds apart.
pub proof fn reads_of_two_kinds_stay_apart(
    model: ExtensionModel,
    kind: ReadKind,
    payload_bytes: usize,
    request: ReadModel,
    bound: Option<Seq<char>>,
    request_id: Seq<char>,
)
    requires
        model.wf(),
    ensures
        model.refusal(kind, payload_bytes, Some(request), bound) is None ==> model.accepted(
            kind,
            request,
        ).wf(),
        model.without(kind, request_id).wf(),
        model.drained().wf(),
        model.shut().wf(),
{
    let accepted = model.accepted(kind, request);
    if model.refusal(kind, payload_bytes, Some(request), bound) is None {
        assert forall|id: Seq<char>|
            !(#[trigger] accepted.previews.dom().contains(id) && accepted.terminals.dom().contains(
                id,
            )) by {
            if id != request.request_id {
                assert(model.previews.dom().contains(id) == accepted.previews.dom().contains(id));
            }
        }
    }
    let without = model.without(kind, request_id);
    assert forall|id: Seq<char>|
        !(#[trigger] without.previews.dom().contains(id) && without.terminals.dom().contains(
            id,
        )) by {
        assert(without.previews.dom().contains(id) ==> model.previews.dom().contains(id));
    }
}

/// The reads that wait are those of the bound session: a request is taken up for that session
/// alone, and none outlives its session.
pub proof fn waiting_reads_belong_to_the_bound_session(
    model: ExtensionModel,
    kind: ReadKind,
    payload_bytes: usize,
    request: ReadModel,
    bound: Option<Seq<char>>,
    other: Option<Seq<char>>,
    request_id: Seq<char>,
)
    requires
        model.belongs_to(bound),
    ensures
        model.refusal(kind, payload_bytes, Some(request), bound) is None ==> model.accepted(
            kind,
            request,
        ).belongs_to(bound),
        model.without(kind, request_id).belongs_to(bound),
        model.drained().belongs_to(other),
        model.shut().belongs_to(other),
{
    let accepted = model.accepted(kind, request);
    if model.refusal(kind, payload_bytes, Some(request), bound) is None {
        assert forall|id: Seq<char>| #[trigger]
            accepted.previews.dom().contains(id) implies bound == Some(
            accepted.previews[id].session_id,
        ) by {
            if !(kind is Preview && id == request.request_id) {
                assert(model.previews.dom().contains(id));
            }
        }
        assert forall|id: Seq<char>| #[trigger]
            accepted.terminals.dom().contains(id) implies bound == Some(
            accepted.terminals[id].session_id,
        ) by {
            if !(kind is Terminal && id == request.request_id) {
                assert(model.terminals.dom().contains(id));
            }
        }
    }
    let without = model.without(kind, request_id);
    assert forall|id: Seq<char>| #[trigger] without.previews.dom().contains(id) implies bound
        == Some(without.previews[id].session_id) by {
        assert(model.previews.dom().contains(id));
    }
    assert forall|id: Seq<char>| #[trigger] without.terminals.dom().contains(id) implies bound
        == Some(without.terminals[id].session_id) by {
        assert(model.terminals.dom().contains(id));
    }
}

/// A request that is taken up holds its identifier: a second request under the same one, of either
/// kind, is refused, and the first keeps waiting.
pub proof fn duplicate_request_is_refused(
    model: ExtensionModel,
    kind: ReadKind,
    payload_bytes: usize,
    request: ReadModel,
    bound: Option<Seq<char>>,
    other_kind: ReadKind,
    other: ReadModel,
)
    requires
        model.refusal(kind, payload_bytes, Some(request), bound) is None,
        other.request_id == request.request_id,
    ensures
        model.accepted(kind, request).refusal(other_kind, payload_bytes, Some(other), bound) is Some,
        model.accepted(kind, request).waits(kind, request.request_id, request.session_id),
{
    let accepted = model.accepted(kind, request);
    assert(accepted.pending(kind).dom().contains(request.request_id));
}

/// A read that has left the router cannot be taken out again, and its identifier can be used anew.
pub proof fn read_leaves_once(
    model: ExtensionModel,
    kind: ReadKind,
    request_id: Seq<char>,
    session_id: Seq<char>,
)
    ensures
        !model.without(kind, request_id).pending(kind).dom().contains(request_id),
        !model.without(kind, request_id).waits(kind, request_id, session_id),
        model.without(kind, request_id).without(kind, request_id) == model.without(kind, request_id),
{
    let without = model.without(kind, request_id);
    assert(without.pending(kind).remove(request_id) =~= without.pending(kind));
}

/// After everything was given up nothing waits and every read request is refused.
pub proof fn nothing_is_read_after_the_end(
    model: ExtensionModel,
    kind: ReadKind,
    payload_bytes: usize,
    request: Option<ReadModel>,
    bound: Option<Seq<char>>,
)
    ensures
        model.shut().previews.len() == 0,
        model.shut().terminals.len() == 0,
        model.shut().refusal(kind, payload_bytes, request, bound) == Some(RpcError::MethodNotFound),
{
}

/// Every waiting read starts and counts within the bounds of a read, because none is taken up that
/// does not.
pub proof fn taken_up_read_is_bounded(
    model: ExtensionModel,
    kind: ReadKind,
    payload_bytes: usize,
    request: ReadModel,
    bound: Option<Seq<char>>,
)
    requires
        model.refusal(kind, payload_bytes, Some(request), bound) is None,
    ensures
        ({
            let read = model.accepted(kind, request).pending(kind)[request.request_id];
            &&& read.start is Some ==> read.start->0 <= MAX_START
            &&& read.count is Some ==> 0 < read.count->0 <= MAX_COUNT
            &&& is_identifier(read.session_id)
            &&& is_identifier(request.request_id)
        }),
{
}

/// What can name a request or a session: a text of one to 256 bytes without a control character.
pub proof fn identifiers_are_short_and_plain(s: Seq<char>)
    ensures
        is_identifier(s) <==> s.len() > 0 && byte_len(s) <= 256 && forall|i: int|
            0 <= i < s.len() ==> ' ' <= #[trigger] s[i] <= '~' || '\u{a0}' <= s[i],
{
}

/// The methods that an agent can call, and that no other name is a method.
pub proof fn names_of_the_methods(name: Seq<char>)
    ensures
        method_of(name) == Some(ExtensionMethod::PromptAdmission) <==> name
            == "command_eve/prompt_admission"@,
        method_of(name) == Some(ExtensionMethod::CorrectionBoundary) <==> name
            == "command_eve/correction_boundary"@,
        method_of(name) == Some(ExtensionMethod::AsyncCompletion) <==> name
            == "command_eve/async_completion"@,
        method_of(name) == Some(ExtensionMethod::Read(ReadKind::Terminal)) <==> name
            == "command_eve/read_terminal"@,
        method_of(name) == Some(ExtensionMethod::Read(ReadKind::Preview)) <==> name
            == "command_eve/read_preview"@,
{
    reveal_strlit("command_eve/prompt_admission");
    reveal_strlit("command_eve/correction_boundary");
    reveal_strlit("command_eve/async_completion");
    reveal_strlit("command_eve/read_terminal");
    reveal_strlit("command_eve/read_preview");
    assert("command_eve/prompt_admission"@.len() == 28 && "command_eve/prompt_admission"@[12]
        == 'p');
    assert("command_eve/async_completion"@.len() == 28 && "command_eve/async_completion"@[12]
        == 'a');
    assert("command_eve/correction_boundary"@.len() == 31);
    assert("command_eve/read_terminal"@.len() == 25);
    assert("command_eve/read_preview"@.len() == 24);
}

/// A read is taken up exactly where its kind is switched on, its request is of the right version and
/// of bounded size, names itself and its session plainly, asks for a bounded part, comes from the
/// bound session, and repeats no id that waits.
pub proof fn read_is_taken_up(
    model: ExtensionModel,
    kind: ReadKind,
    payload_bytes: usize,
    request: ReadModel,
    bound: Option<Seq<char>>,
)
    ensures
        model.refusal(kind, payload_bytes, Some(request), bound) is None <==> {
            &&& (kind == ReadKind::Preview ==> model.read_preview_enabled && request.version
                == "command-eve-read-preview/v1"@)
            &&& (kind == ReadKind::Terminal ==> model.read_terminal_enabled && request.version
                == "command-eve-read-terminal/v1"@)
            &&& payload_bytes <= 4096
            &&& is_identifier(request.request_id)
            &&& is_identifier(request.session_id)
            &&& (request.start is Some ==> request.start->0 <= 10_000_000)
            &&& (request.count is Some ==> 1 <= request.count->0 <= 24_000)
            &&& bound == Some(request.session_id)
            &&& !model.previews.dom().contains(request.request_id)
            &&& !model.terminals.dom().contains(request.request_id)
        },
        model.refusal(kind, payload_bytes, None, bound) is Some,
        kind == ReadKind::Preview && !model.read_preview_enabled || kind == ReadKind::Terminal
            && !model.read_terminal_enabled ==> model.refusal(
            kind,
            payload_bytes,
            Some(request),
            bound,
        ) == Some(RpcError::MethodNotFound),
{
}

/// A read that is taken up waits as it was asked for, beside all others; taking it back, of either
/// kind, restores what was there.
pub proof fn taken_up_read_waits_as_asked(
    model: ExtensionModel,
    kind: ReadKind,
    request: ReadModel,
    other: Seq<char>,
)
    requires
        !model.pending(kind).dom().contains(request.request_id),
        other != request.request_id,
    ensures
        ({
            let after = model.accepted(kind, request);
            let read = after.pending(kind)[request.request_id];
            let apart = if kind == ReadKind::Preview {
                ReadKind::Terminal
            } else {
                ReadKind::Preview
            };
            &&& after.waits(kind, request.request_id, request.session_id)
            &&& read.session_id == request.session_id
            &&& read.start == request.start
            &&& read.count == request.count
            &&& after.pending(apart) == model.pending(apart)
            &&& after.pending(kind).dom().contains(other) == model.pending(kind).dom().contains(
                other,
            )
            &&& model.pending(kind).dom().contains(other) ==> after.pending(kind)[other]
                == model.pending(kind)[other]
            &&& after.read_preview_enabled == model.read_preview_enabled
            &&& after.read_terminal_enabled == model.read_terminal_enabled
            &&& after.async_completion_enabled == model.async_completion_enabled
            &&& after.without(kind, request.request_id).previews =~= model.previews
            &&& after.without(kind, request.request_id).terminals =~= model.terminals
        }),
        kind == ReadKind::Preview ==> model.pending(kind) == model.previews,
        kind == ReadKind::Terminal ==> model.pending(kind) == model.terminals,
        model.drained().previews.dom() =~= Set::<Seq<char>>::empty(),
        model.drained().terminals.dom() =~= Set::<Seq<char>>::empty(),
        model.drained().read_preview_enabled == model.read_preview_enabled,
        model.drained().read_terminal_enabled == model.read_terminal_enabled,
        model.drained().async_completion_enabled == model.async_completion_enabled,
        !model.shut().read_preview_enabled && !model.shut().read_terminal_enabled
            && !model.shut().async_completion_enabled,
{
}

/// A read that is not taken up is told the first thing that is wrong with it: the method is off, it
/// is too large, cannot be read, is of another version, names itself or its session badly, begins
/// or counts out of range, is of another session, or was made before.
pub proof fn refused_read_is_told_the_first_fault(
    model: ExtensionModel,
    kind: ReadKind,
    payload_bytes: usize,
    request: Option<ReadModel>,
    bound: Option<Seq<char>>,
)
    ensures
        ({
            let refusal = model.refusal(kind, payload_bytes, request, bound);
            let told = |reason: Reason| refusal == Some(RpcError::InvalidParams(reason));
            let read = request->0;
            let on = if kind is Preview {
                model.read_preview_enabled
            } else {
                model.read_terminal_enabled
            };
            let fits = on && payload_bytes <= 4096;
            let current = fits && request is Some && read.version == if kind is Preview {
                "command-eve-read-preview/v1"@
            } else {
                "command-eve-read-terminal/v1"@
            };
            let named = current && is_identifier(read.request_id);
            let placed = named && is_identifier(read.session_id);
            let begins = placed && (read.start is None || read.start->0 <= 10_000_000);
            let counts = begins && (read.count is None || 1 <= read.count->0 <= 24_000);
            let own = counts && bound == Some(read.session_id);
            let fresh = own && !model.previews.dom().contains(read.request_id)
                && !model.terminals.dom().contains(read.request_id);
            &&& !on ==> refusal == Some(RpcError::MethodNotFound)
            &&& on && !fits ==> told(Reason::PayloadTooLarge)
            &&& fits && request is None ==> told(Reason::InvalidShape)
            &&& fits && request is Some && !current ==> told(Reason::UnsupportedVersion)
            &&& current && !named ==> told(Reason::InvalidRequestId)
            &&& named && !placed ==> told(Reason::InvalidSessionId)
            &&& placed && !begins ==> told(Reason::StartOutOfRange)
            &&& begins && !counts ==> told(Reason::CountOutOfRange)
            &&& counts && !own ==> told(Reason::SessionMismatch)
            &&& own && !fresh ==> told(Reason::DuplicateRequestId)
            &&& fresh ==> refusal is None
        }),
{
}

/// Each reason has its text.
pub proof fn texts_of_the_reasons(reason: Reason)
    ensures
        reason is PayloadTooLarge ==> reason.text() == "payload_too_large"@,
        reason is InvalidShape ==> reason.text() == "invalid_shape"@,
        reason is UnsupportedVersion ==> reason.text() == "unsupported_version"@,
        reason is InvalidRequestId ==> reason.text() == "invalid_request_id"@,
        reason is InvalidSessionId ==> reason.text() == "invalid_session_id"@,
        reason is InvalidCompletionId ==> reason.text() == "invalid_completion_id"@,
        reason is InvalidContent ==> reason.text() == "invalid_content"@,
        reason is StartOutOfRange ==> reason.text() == "start_out_of_range"@,
        reason is CountOutOfRange ==> reason.text() == "count_out_of_range"@,
        reason is SessionMismatch ==> reason.text() == "session_mismatch"@,
        reason is DuplicateRequestId ==> reason.text() == "duplicate_request_id"@,
        reason is RendererUnavailable ==> reason.text() == "renderer_unavailable"@,
        reason is Timeout ==> reason.text() == "timeout"@,
        reason is SessionRebound ==> reason.text() == "session_rebound"@,
        reason is SessionRebinding ==> reason.text() == "session_rebinding"@,
        reason is SessionClosed ==> reason.text() == "session_closed"@,
        reason is SessionNotBound ==> reason.text() == "session_not_bound"@,
        reason is ConsumerUnavailable ==> reason.text() == "consumer_unavailable"@,
        reason is ConsumerSaturated ==> reason.text() == "consumer_saturated"@,
        reason is ConsumerReplyDropped ==> reason.text() == "consumer_reply_dropped"@,
        reason is ConsumerReplyTimeout ==> reason.text() == "consumer_reply_timeout"@,
        reason is ReceiptCapacityExhausted ==> reason.text() == "receipt_capacity_exhausted"@,
{
}

/// A session that ends takes exactly its own admissions along, and where none was bound nothing
/// goes. Each one whose request goes is told once that no acknowledgement can come.
pub proof fn ended_session_tells_its_own(
    admissions: RegistryModel,
    session_id: Seq<char>,
    wakes: Seq<AdmissionWake>,
    i: int,
)
    ensures
        admissions_after(admissions, None) == admissions,
        admissions_after(admissions, Some(session_id)) == admissions.without_session(session_id),
        tells_all(wakes, admissions, session_id) && 0 <= i < wakes.len() ==> {
            let told = wakes[i];
            let entry = admissions.entries[told.request_id@];
            &&& admissions.entries.dom().contains(told.request_id@)
            &&& entry.session == Some(session_id)
            &&& !(entry.stage is Accepted)
            &&& told@.1 == session_waiter(entry.stage)
            &&& told@.2 == "ATTACHMENT_PROMPT_FINALIZE_PEER_ACK_UNAVAILABLE"@
        },
        tells_all(wakes, admissions, session_id) ==> forall|request_id: Seq<char>| #[trigger]
            admissions.entries.dom().contains(request_id)
                && admissions.entries[request_id].session == Some(session_id)
                && !(admissions.entries[request_id].stage is Accepted) ==> exists|k: int|
                0 <= k < wakes.len() && (#[trigger] wakes[k]).request_id@ == request_id,
{
    if tells_all(wakes, admissions, session_id) {
        assert forall|request_id: Seq<char>| #[trigger]
            admissions.entries.dom().contains(request_id)
                && admissions.entries[request_id].session == Some(session_id)
                && !(admissions.entries[request_id].stage is Accepted) implies exists|k: int|
            0 <= k < wakes.len() && (#[trigger] wakes[k]).request_id@ == request_id by {
            assert(admissions.goes_with_session(request_id, session_id));
            let k = choose|k: int| 0 <= k < wakes.len() && (#[trigger] wakes[k])@.0 == request_id;
            assert(wakes[k].request_id@ == request_id);
        }
    }
}

/// A change of the session cancels every read that waits, each once and no other, and where no
/// session was bound nobody is told.
pub proof fn session_change_cancels_every_read(
    change: SessionChange,
    model: ExtensionModel,
    admissions: RegistryModel,
    session_id: Option<Seq<char>>,
    id: Seq<char>,
)
    requires
        change.ends(model, admissions, session_id),
    ensures
        model.previews.dom().contains(id) <==> exists|i: int|
            0 <= i < change.cancelled.previews@.len() && (
            #[trigger] change.cancelled.previews@[i])@ == id,
        model.terminals.dom().contains(id) <==> exists|i: int|
            0 <= i < change.cancelled.terminals@.len() && (
            #[trigger] change.cancelled.terminals@[i])@ == id,
        forall|i: int, j: int|
            0 <= i < j < change.cancelled.previews@.len() ==> (
            #[trigger] change.cancelled.previews@[i])@ != (
            #[trigger] change.cancelled.previews@[j])@,
        forall|i: int, j: int|
            0 <= i < j < change.cancelled.terminals@.len() ==> (
            #[trigger] change.cancelled.terminals@[i])@ != (
            #[trigger] change.cancelled.terminals@[j])@,
        session_id is None ==> change.wakes@.len() == 0,
        session_id is Some ==> tells_all(change.wakes@, admissions, session_id->0),
{
}

} // verus!
