//! The phases of a prompt admission as the agent goes through them over the wire, and what becomes
//! of the admission when an answer cannot be delivered.
use vstd::prelude::*;

use crate::client_extensions::{Reason, RpcError};
use crate::prompt_admission::{
    acknowledge_command_eve_prompt_admission, admit_command_eve_prompt_admission,
    claim_command_eve_prompt_admission, complete_command_eve_prompt_admission,
    complete_command_eve_prompt_admission_commit, finalize_command_eve_prompt_admission,
    mark_command_eve_prompt_finalize_response, wake_view, AdmissionRegistry,
    AdmissionStage, AdmissionStep, AdmissionWaiter, AdmissionWake,
    CommandEvePromptAdmissionClaimResult,
    CommandEvePromptAdmissionRequest, RegistryModel, RequestModel,
    COMMAND_EVE_PROMPT_ADMISSION_VERSION,
};
use crate::text::{same_text, str_view};

verus! {

/// The most bytes of a prompt admission request.
pub const MAX_PROMPT_ADMISSION_PAYLOAD_BYTES: usize = 2048;

/// A phase of a prompt admission.
#[derive(Clone, Copy, Debug, PartialEq, Eq, Structural)]
pub enum CommandEvePromptAdmissionPhase {
    Accept,
    Commit,
    Finalize,
    Ack,
}

/// Whether a phase was granted.
#[derive(Clone, Copy, Debug, PartialEq, Eq, Structural)]
pub enum CommandEvePromptAdmissionStatus {
    Accepted,
    Rejected,
}

/// A request for one phase, as it came over the wire.
#[derive(Debug, PartialEq, Eq)]
pub struct CommandEvePromptAdmissionWireRequest {
    pub version: String,
    pub request_id: String,
    pub turn_id: String,
    pub receipt_sha256: String,
    pub session_id: String,
    pub phase: CommandEvePromptAdmissionPhase,
}

/// What a request for one phase says.
pub struct WireModel {
    pub version: Seq<char>,
    pub request_id: Seq<char>,
    pub turn_id: Seq<char>,
    pub receipt_sha256: Seq<char>,
    pub session_id: Seq<char>,
    pub phase: CommandEvePromptAdmissionPhase,
}

impl WireModel {
    /// The admission that the request is about.
    pub open spec fn request(self) -> RequestModel {
        RequestModel {
            version: self.version,
            request_id: self.request_id,
            turn_id: self.turn_id,
            receipt_sha256: self.receipt_sha256,
        }
    }
}

impl View for CommandEvePromptAdmissionWireRequest {
    type V = WireModel;

    open spec fn view(&self) -> WireModel {
        WireModel {
            version: self.version@,
            request_id: self.request_id@,
            turn_id: self.turn_id@,
            receipt_sha256: self.receipt_sha256@,
            session_id: self.session_id@,
            phase: self.phase,
        }
    }
}

impl CommandEvePromptAdmissionWireRequest {
    /// The admission that the request is about.
    pub fn request(&self) -> (r: CommandEvePromptAdmissionRequest)
        ensures
            r@ == self@.request(),
    {
        CommandEvePromptAdmissionRequest {
            version: self.version.clone(),
            request_id: self.request_id.clone(),
            turn_id: self.turn_id.clone(),
            receipt_sha256: self.receipt_sha256.clone(),
        }
    }
}

/// The answer to a request for one phase.
#[derive(Debug, PartialEq, Eq)]
pub struct CommandEvePromptAdmissionResponse {
    pub version: String,
    pub request_id: String,
    pub status: CommandEvePromptAdmissionStatus,
}

/// Frames the answer to a request for one phase.
pub fn prompt_admission_response(request_id: &str, accepted: bool) -> (r:
    CommandEvePromptAdmissionResponse)
    ensures
        r.version@ == COMMAND_EVE_PROMPT_ADMISSION_VERSION@,
        r.request_id@ == request_id@,
        r.status == if accepted {
            CommandEvePromptAdmissionStatus::Accepted
        } else {
            CommandEvePromptAdmissionStatus::Rejected
        },
{
    CommandEvePromptAdmissionResponse {
        version: COMMAND_EVE_PROMPT_ADMISSION_VERSION.to_owned(),
        request_id: request_id.to_owned(),
        status: if accepted {
            CommandEvePromptAdmissionStatus::Accepted
        } else {
            CommandEvePromptAdmissionStatus::Rejected
        },
    }
}

/// How a request for one phase goes on.
#[derive(Clone, Copy, Debug, PartialEq, Eq, Structural)]
pub enum PromptAdmissionProgress {
    /// The request is answered with an error.
    Refused(RpcError),
    /// The request is answered, and nothing depends on whether the answer arrives.
    Answer { accepted: bool },
    /// The accept phase is answered, and [`after_accept`] is told whether the answer went out.
    AnswerAccept { accepted: bool },
    /// The turn has to decide on the commit, the finalize or the acknowledge phase.
    AwaitDecision(CommandEvePromptAdmissionPhase),
}

/// The stages that a phase leads from and to, and the code for a request that has not come to it.
pub open spec fn phase_stages(phase: CommandEvePromptAdmissionPhase) -> (
    AdmissionStage,
    AdmissionStage,
    Seq<char>,
) {
    match phase {
        CommandEvePromptAdmissionPhase::Accept => (
            AdmissionStage::Pending,
            AdmissionStage::Admitted,
            "request_not_admitted"@,
        ),
        CommandEvePromptAdmissionPhase::Commit => (
            AdmissionStage::Admitted,
            AdmissionStage::Claimed,
            "request_not_admitted"@,
        ),
        CommandEvePromptAdmissionPhase::Finalize => (
            AdmissionStage::Committed,
            AdmissionStage::Finalizing,
            "request_not_committed"@,
        ),
        CommandEvePromptAdmissionPhase::Ack => (
            AdmissionStage::AwaitingPeerAck,
            AdmissionStage::PeerAcked,
            "request_not_finalized"@,
        ),
    }
}

/// How a request for one phase goes on, and the registry afterwards.
pub open spec fn phase_progress(
    registry: RegistryModel,
    payload_bytes: usize,
    wire: Option<WireModel>,
    bound: Option<Seq<char>>,
    listening: bool,
) -> (PromptAdmissionProgress, RegistryModel) {
    if payload_bytes > MAX_PROMPT_ADMISSION_PAYLOAD_BYTES {
        (PromptAdmissionProgress::Refused(RpcError::Internal(Reason::PayloadTooLarge)), registry)
    } else {
        match wire {
            None => (
                PromptAdmissionProgress::Refused(RpcError::Internal(Reason::InvalidShape)),
                registry,
            ),
            Some(wire) => if bound != Some(wire.session_id) {
                (PromptAdmissionProgress::Answer { accepted: false }, registry)
            } else if wire.phase is Accept {
                (
                    PromptAdmissionProgress::AnswerAccept {
                        accepted: registry.admit_result(wire.request(), wire.session_id) is Ok,
                    },
                    registry.admitted(wire.request(), wire.session_id),
                )
            } else {
                let (from, to, before) = phase_stages(wire.phase);
                (
                    match registry.claim_result(
                        wire.request(),
                        wire.session_id,
                        listening,
                        from,
                        before,
                    ) {
                        Ok(CommandEvePromptAdmissionClaimResult::AlreadyAccepted) =>
                            PromptAdmissionProgress::Answer { accepted: true },
                        Ok(CommandEvePromptAdmissionClaimResult::AwaitingDecision) =>
                            PromptAdmissionProgress::AwaitDecision(wire.phase),
                        Err(_) => PromptAdmissionProgress::Answer { accepted: false },
                    },
                    registry.claimed(wire.request(), wire.session_id, listening, from, to),
                )
            },
        }
    }
}

/// Takes up a request for one phase. `payload_bytes` is the length of what came over the wire,
/// `wire` what it was read as, if it could be read, and `listening` says whether the turn still
/// waits for this phase.
pub fn handle_prompt_admission_request(
    registry: &mut AdmissionRegistry,
    payload_bytes: usize,
    wire: Option<&CommandEvePromptAdmissionWireRequest>,
    bound_session_id: Option<&str>,
    listening: bool,
) -> (r: PromptAdmissionProgress)
    requires
        old(registry).wf(),
    ensures
        final(registry).wf(),
        ({
            let asked = match wire {
                Some(wire) => Some(wire@),
                None => None,
            };
            (r, final(registry)@) == phase_progress(
                old(registry)@,
                payload_bytes,
                asked,
                str_view(bound_session_id),
                listening,
            )
        }),
{
    if payload_bytes > MAX_PROMPT_ADMISSION_PAYLOAD_BYTES {
        return PromptAdmissionProgress::Refused(RpcError::Internal(Reason::PayloadTooLarge));
    }
    let wire = match wire {
        Some(wire) => wire,
        None => {
            return PromptAdmissionProgress::Refused(RpcError::Internal(Reason::InvalidShape));
        },
    };
    let session_id = wire.session_id.as_str();
    let bound = match bound_session_id {
        Some(bound) => same_text(bound, session_id),
        None => false,
    };
    if !bound {
        return PromptAdmissionProgress::Answer { accepted: false };
    }
    let request = wire.request();
    let claimed = match wire.phase {
        CommandEvePromptAdmissionPhase::Accept => {
            return PromptAdmissionProgress::AnswerAccept {
                accepted: admit_command_eve_prompt_admission(
                    registry,
                    &request,
                    session_id,
                ).is_ok(),
            };
        },
        CommandEvePromptAdmissionPhase::Commit => claim_command_eve_prompt_admission(
            registry,
            &request,
            session_id,
            listening,
        ),
        CommandEvePromptAdmissionPhase::Finalize => finalize_command_eve_prompt_admission(
            registry,
            &request,
            session_id,
            listening,
        ),
        CommandEvePromptAdmissionPhase::Ack => acknowledge_command_eve_prompt_admission(
            registry,
            &request,
            session_id,
            listening,
        ),
    };
    match claimed {
        Ok(CommandEvePromptAdmissionClaimResult::AlreadyAccepted) =>
            PromptAdmissionProgress::Answer { accepted: true },
        Ok(CommandEvePromptAdmissionClaimResult::AwaitingDecision) =>
            PromptAdmissionProgress::AwaitDecision(wire.phase),
        Err(_) => PromptAdmissionProgress::Answer { accepted: false },
    }
}

/// The registry after the answer to the accept phase.
pub open spec fn accept_answered(
    registry: RegistryModel,
    request_id: Seq<char>,
    session_id: Seq<char>,
    accepted: bool,
    delivered: bool,
) -> RegistryModel {
    if accepted && delivered {
        registry
    } else {
        registry.completed(request_id, session_id, false)
    }
}

/// The registry before the answer to the commit phase goes out.
pub open spec fn commit_recorded(
    registry: RegistryModel,
    request_id: Seq<char>,
    session_id: Seq<char>,
    accepted: bool,
) -> RegistryModel {
    if accepted {
        registry.commit_completed(request_id, session_id, true)
    } else {
        registry
    }
}

/// The registry after the answer to the commit phase.
pub open spec fn commit_answered(
    registry: RegistryModel,
    request_id: Seq<char>,
    session_id: Seq<char>,
    accepted: bool,
    delivered: bool,
) -> RegistryModel {
    if accepted && delivered {
        registry
    } else {
        registry.commit_completed(request_id, session_id, false)
    }
}

/// The registry after the answer to the finalize phase.
pub open spec fn finalize_answered(
    registry: RegistryModel,
    request_id: Seq<char>,
    session_id: Seq<char>,
    accepted: bool,
    delivered: bool,
) -> RegistryModel {
    registry.finalize_responded(request_id, session_id, accepted && delivered)
}

/// Who is told of the answer to the accept phase, and what.
pub open spec fn accept_wake(
    registry: RegistryModel,
    request_id: Seq<char>,
    accepted: bool,
    delivered: bool,
) -> Option<(Seq<char>, AdmissionWaiter, Seq<char>)> {
    if accepted && delivered {
        None
    } else {
        registry.completion_wake(request_id)
    }
}

/// Who is told before the answer to the commit phase goes out, and what.
pub open spec fn commit_record_wake(
    registry: RegistryModel,
    request_id: Seq<char>,
    session_id: Seq<char>,
    accepted: bool,
) -> Option<(Seq<char>, AdmissionWaiter, Seq<char>)> {
    if accepted {
        registry.commit_wake(request_id, session_id, true)
    } else {
        None
    }
}

/// Who is told of the answer to the commit phase, and what.
pub open spec fn commit_answer_wake(
    registry: RegistryModel,
    request_id: Seq<char>,
    session_id: Seq<char>,
    accepted: bool,
    delivered: bool,
) -> Option<(Seq<char>, AdmissionWaiter, Seq<char>)> {
    if accepted && delivered {
        None
    } else {
        registry.commit_wake(request_id, session_id, false)
    }
}

/// Ends the accept phase: where the answer was a refusal, or did not go out, the admission is
/// dropped, and the result says who is to be told.
pub fn after_accept(
    registry: &mut AdmissionRegistry,
    request_id: &str,
    session_id: &str,
    accepted: bool,
    delivered: bool,
) -> (r: Option<AdmissionWake>)
    requires
        old(registry).wf(),
    ensures
        final(registry).wf(),
        final(registry)@ == accept_answered(
            old(registry)@,
            request_id@,
            session_id@,
            accepted,
            delivered,
        ),
        wake_view(r) == accept_wake(old(registry)@, request_id@, accepted, delivered),
{
    if accepted && delivered {
        return None;
    }
    complete_command_eve_prompt_admission(registry, request_id, session_id, false)
}

/// Records an acceptance of the commit phase before its answer goes out, so that the finalize
/// request that follows finds it.
pub fn before_commit_answer(
    registry: &mut AdmissionRegistry,
    request_id: &str,
    session_id: &str,
    accepted: bool,
) -> (r: Option<AdmissionWake>)
    requires
        old(registry).wf(),
    ensures
        final(registry).wf(),
        final(registry)@ == commit_recorded(old(registry)@, request_id@, session_id@, accepted),
        wake_view(r) == commit_record_wake(
            old(registry)@,
            request_id@,
            session_id@,
            accepted,
        ),
{
    if accepted {
        complete_command_eve_prompt_admission_commit(registry, request_id, session_id, true)
    } else {
        None
    }
}

/// Ends the commit phase: where the answer was a refusal, or did not go out, the admission is
/// dropped, and the result says who is to be told.
pub fn after_commit_answer(
    registry: &mut AdmissionRegistry,
    request_id: &str,
    session_id: &str,
    accepted: bool,
    delivered: bool,
) -> (r: Option<AdmissionWake>)
    requires
        old(registry).wf(),
    ensures
        final(registry).wf(),
        final(registry)@ == commit_answered(
            old(registry)@,
            request_id@,
            session_id@,
            accepted,
            delivered,
        ),
        wake_view(r) == commit_answer_wake(
            old(registry)@,
            request_id@,
            session_id@,
            accepted,
            delivered,
        ),
{
    if accepted && delivered {
        return None;
    }
    complete_command_eve_prompt_admission_commit(registry, request_id, session_id, false)
}

/// Ends the finalize phase: the admission awaits the peer's acknowledgement where an acceptance
/// went out, and is dropped where it did not.
pub fn after_finalize_answer(
    registry: &mut AdmissionRegistry,
    request_id: &str,
    session_id: &str,
    accepted: bool,
    delivered: bool,
) -> (r: Option<AdmissionWake>)
    requires
        old(registry).wf(),
    ensures
        final(registry).wf(),
        final(registry)@ == finalize_answered(
            old(registry)@,
            request_id@,
            session_id@,
            accepted,
            delivered,
        ),
        wake_view(r) == old(registry)@.finalize_wake(
            request_id@,
            session_id@,
            accepted && delivered,
        ),
{
    mark_command_eve_prompt_finalize_response(
        registry,
        request_id,
        session_id,
        accepted && delivered,
    )
}

/// An answer of the accept or the commit phase that does not go out takes its admission with it,
/// and nothing else.
pub proof fn undelivered_answer_drops_the_admission(
    registry: RegistryModel,
    request_id: Seq<char>,
    session_id: Seq<char>,
    other: Seq<char>,
)
    ensures
        !registry.completed(request_id, session_id, false).entries.dom().contains(request_id),
        !registry.commit_completed(request_id, session_id, false).entries.dom().contains(request_id),
        other != request_id && registry.entries.dom().contains(other) ==> registry.completed(
            request_id,
            session_id,
            false,
        ).entries.dom().contains(other) && registry.commit_completed(
            request_id,
            session_id,
            false,
        ).entries.dom().contains(other),
{
}

/// A local answer to the finalize phase is no acknowledgement by the peer: after it the admission
/// is not accepted, whether the answer went out or not.
pub proof fn finalize_answer_is_no_acknowledgement(
    registry: RegistryModel,
    request_id: Seq<char>,
    session_id: Seq<char>,
    delivered: bool,
)
    requires
        registry.entries.dom().contains(request_id),
        registry.entries[request_id].stage == AdmissionStage::Finalizing,
    ensures
        ({
            let after = registry.finalize_responded(request_id, session_id, delivered);
            after.entries.dom().contains(request_id) ==> after.entries[request_id].stage
                == AdmissionStage::AwaitingPeerAck
        }),
{
}

/// A request of another session than the bound one changes nothing and is refused.
pub proof fn request_of_another_session_changes_nothing(
    registry: RegistryModel,
    payload_bytes: usize,
    wire: WireModel,
    bound: Option<Seq<char>>,
    listening: bool,
)
    requires
        bound != Some(wire.session_id),
        payload_bytes <= MAX_PROMPT_ADMISSION_PAYLOAD_BYTES,
    ensures
        phase_progress(registry, payload_bytes, Some(wire), bound, listening) == (
            PromptAdmissionProgress::Answer { accepted: false },
            registry,
        ),
{
}

/// An admission outlives the answer to a phase exactly where the answer is favourable and goes
/// out. The accept phase leaves it as it is then, the commit phase has it committed before the
/// answer goes out, and the finalize phase has it await the peer's acknowledgement.
pub proof fn admission_outlives_a_favourable_answer(
    registry: RegistryModel,
    request_id: Seq<char>,
    session_id: Seq<char>,
    accepted: bool,
    delivered: bool,
)
    requires
        registry.entries.dom().contains(request_id),
    ensures
        ({
            let entry = registry.entries[request_id];
            let own = entry.session == Some(session_id);
            let accept = accept_answered(registry, request_id, session_id, accepted, delivered);
            let recorded = commit_recorded(registry, request_id, session_id, accepted);
            let commit = commit_answered(registry, request_id, session_id, accepted, delivered);
            let finalize = finalize_answered(
                registry,
                request_id,
                session_id,
                accepted,
                delivered,
            );
            &&& accept.entries.dom().contains(request_id) <==> accepted && delivered
            &&& commit.entries.dom().contains(request_id) <==> accepted && delivered
            &&& accepted && delivered ==> accept == registry && commit == registry
            &&& !accepted ==> recorded == registry
            &&& accepted && own && entry.stage is Claimed ==> recorded.entries.dom().contains(
                request_id,
            ) && recorded.entries[request_id].stage is Committed
            &&& accepted && !(own && entry.stage is Claimed)
                ==> !recorded.entries.dom().contains(request_id)
            &&& !(entry.stage is Finalizing) ==> finalize == registry
            &&& entry.stage is Finalizing ==> (finalize.entries.dom().contains(request_id)
                <==> accepted && delivered && own)
            &&& entry.stage is Finalizing && accepted && delivered && own
                ==> finalize.entries[request_id].stage is AwaitingPeerAck
        }),
{
}

/// Each phase over the wire is the phase of the registry: the accept phase admits, the commit
/// phase claims, the finalize phase finalizes and the last one acknowledges, each for the bound
/// session alone. A request that is too large or cannot be read fails without touching the
/// registry.
pub proof fn wire_phase_is_the_phase_of_the_registry(
    registry: RegistryModel,
    payload_bytes: usize,
    wire: Option<WireModel>,
    bound: Option<Seq<char>>,
    listening: bool,
)
    ensures
        ({
            let (progress, after) = phase_progress(
                registry,
                payload_bytes,
                wire,
                bound,
                listening,
            );
            let asked = wire->0;
            let request = RequestModel {
                version: asked.version,
                request_id: asked.request_id,
                turn_id: asked.turn_id,
                receipt_sha256: asked.receipt_sha256,
            };
            let session = asked.session_id;
            let taken = payload_bytes <= 2048 && wire is Some && bound == Some(session);
            &&& payload_bytes > 2048 ==> progress == PromptAdmissionProgress::Refused(
                RpcError::Internal(Reason::PayloadTooLarge),
            )
            &&& payload_bytes <= 2048 && wire is None ==> progress
                == PromptAdmissionProgress::Refused(RpcError::Internal(Reason::InvalidShape))
            &&& payload_bytes <= 2048 && wire is Some && bound != Some(session) ==> progress == (
            PromptAdmissionProgress::Answer { accepted: false })
            &&& !taken ==> after == registry
            &&& taken && asked.phase is Accept ==> after == registry.step(
                AdmissionStep::Admit { request, session },
            ) && progress == (PromptAdmissionProgress::AnswerAccept {
                accepted: registry.admit_result(request, session) is Ok,
            })
            &&& taken && asked.phase is Commit ==> after == registry.step(
                AdmissionStep::Claim { request, session, listening },
            ) && progress == claim_progress(
                registry.claim_result(
                    request,
                    session,
                    listening,
                    AdmissionStage::Admitted,
                    "request_not_admitted"@,
                ),
                CommandEvePromptAdmissionPhase::Commit,
            )
            &&& taken && asked.phase is Finalize ==> after == registry.step(
                AdmissionStep::Finalize { request, session, listening },
            ) && progress == claim_progress(
                registry.claim_result(
                    request,
                    session,
                    listening,
                    AdmissionStage::Committed,
                    "request_not_committed"@,
                ),
                CommandEvePromptAdmissionPhase::Finalize,
            )
            &&& taken && asked.phase is Ack ==> after == registry.step(
                AdmissionStep::Acknowledge { request, session, listening },
            ) && progress == claim_progress(
                registry.claim_result(
                    request,
                    session,
                    listening,
                    AdmissionStage::AwaitingPeerAck,
                    "request_not_finalized"@,
                ),
                CommandEvePromptAdmissionPhase::Ack,
            )
        }),
{
}

/// What a phase that needs a decision comes to on the wire: the turn decides, a request that was
/// accepted before is accepted again, and any fault is a refusal.
pub open spec fn claim_progress(
    result: Result<CommandEvePromptAdmissionClaimResult, Seq<char>>,
    phase: CommandEvePromptAdmissionPhase,
) -> PromptAdmissionProgress {
    if result is Err {
        PromptAdmissionProgress::Answer { accepted: false }
    } else if result->Ok_0 is AlreadyAccepted {
        PromptAdmissionProgress::Answer { accepted: true }
    } else {
        PromptAdmissionProgress::AwaitDecision(phase)
    }
}

/// A favourable answer that goes out tells nobody. Any other one has the waiter told whom the drop of
/// the admission concerns.
pub proof fn only_lost_answers_are_told(
    registry: RegistryModel,
    request_id: Seq<char>,
    session_id: Seq<char>,
    accepted: bool,
    delivered: bool,
)
    ensures
        accepted && delivered ==> accept_wake(registry, request_id, accepted, delivered) is None
            && commit_answer_wake(registry, request_id, session_id, accepted, delivered) is None,
        !(accepted && delivered) ==> accept_wake(registry, request_id, accepted, delivered)
            == registry.completion_wake(request_id) && commit_answer_wake(
            registry,
            request_id,
            session_id,
            accepted,
            delivered,
        ) == registry.commit_wake(request_id, session_id, false),
        !accepted ==> commit_record_wake(registry, request_id, session_id, accepted) is None,
        accepted ==> commit_record_wake(registry, request_id, session_id, accepted)
            == registry.commit_wake(request_id, session_id, true),
{
}

} // verus!
