//! The admission of prompts. A turn registers a request; the peer has it accepted, committed,
//! finalized and acknowledged, each phase once and in this order.
use vstd::prelude::*;

use crate::error::{AgentError, AgentErrorKind};
use crate::outside::{is_lower_hex, is_uuid_text, new_uuid_v4};
use crate::text::{byte_len, chars_of, same_text, text_view, utf8_len};
use crate::text_map::TextMap;

verus! {

pub const COMMAND_EVE_PROMPT_ADMISSION_VERSION: &'static str = "command-eve-prompt-admission/v1";

pub const COMMAND_EVE_PROMPT_ADMISSION_EXT_METHOD: &'static str = "command_eve/prompt_admission";

/// How long, in seconds, a turn waits for its request to be committed.
pub const PROMPT_ADMISSION_TIMEOUT_SECS: u64 = 30;

/// How long, in seconds, a turn waits for its request to be finalized, and then for delivery.
pub const PROMPT_ADMISSION_FINALIZE_TIMEOUT_SECS: u64 = 30;

/// How many turns can be registered at a time.
pub const MAX_ACTIVE_ADMISSIONS: usize = 128;

/// How many bytes an identifier has at most.
pub const MAX_IDENTIFIER_BYTES: usize = 256;

/// What the peer is asked to admit, as text.
pub struct RequestModel {
    pub version: Seq<char>,
    pub request_id: Seq<char>,
    pub turn_id: Seq<char>,
    pub receipt_sha256: Seq<char>,
}

/// How far a request has come.
#[derive(Clone, Copy, Debug, PartialEq, Eq, Structural)]
pub enum AdmissionStage {
    Pending,
    Admitted,
    Claimed,
    Committed,
    Finalizing,
    AwaitingPeerAck,
    PeerAcked,
    Accepted,
}

/// A registered request, its stage, and the session that had it accepted.
pub struct EntryModel {
    pub request: RequestModel,
    pub stage: AdmissionStage,
    pub session: Option<Seq<char>>,
}

/// All registered requests, by their id, and the id of each turn's request.
pub struct RegistryModel {
    pub by_turn: Map<Seq<char>, Seq<char>>,
    pub entries: Map<Seq<char>, EntryModel>,
}

/// A character that may not stand in an identifier: an ASCII control character or white space.
pub open spec fn breaks_identifier(c: char) -> bool {
    c <= ' ' || c == '\u{7f}'
}

/// A text that can name a turn, a request or a session.
pub open spec fn is_identifier(s: Seq<char>) -> bool {
    &&& 0 < s.len()
    &&& byte_len(s) <= MAX_IDENTIFIER_BYTES
    &&& forall|i: int| 0 <= i < s.len() ==> !breaks_identifier(#[trigger] s[i])
}

/// The lower-case hexadecimal text of a SHA-256 digest.
pub open spec fn is_sha256_text(s: Seq<char>) -> bool {
    s.len() == 64 && forall|i: int| 0 <= i < 64 ==> is_lower_hex(#[trigger] s[i])
}

/// What is wrong with a request of a session, if anything.
pub open spec fn request_fault(request: RequestModel, session: Seq<char>) -> Option<Seq<char>> {
    if !is_identifier(session) {
        Some("invalid_identifier"@)
    } else if request.version != COMMAND_EVE_PROMPT_ADMISSION_VERSION@ {
        Some("unsupported_version"@)
    } else if !is_identifier(request.request_id) || !is_identifier(request.turn_id) {
        Some("invalid_identifier"@)
    } else if !is_sha256_text(request.receipt_sha256) {
        Some("invalid_receipt_sha256"@)
    } else {
        None
    }
}

/// The code of a failed result, as text.
pub open spec fn code_of<T>(r: Result<T, &'static str>) -> Result<T, Seq<char>> {
    match r {
        Ok(value) => Ok(value),
        Err(code) => Err(code@),
    }
}

/// What a phase that needs a decision of the turn comes to.
#[derive(Clone, Copy, Debug, PartialEq, Eq, Structural)]
pub enum CommandEvePromptAdmissionClaimResult {
    /// The turn has been told and will decide.
    AwaitingDecision,
    /// The request was accepted before.
    AlreadyAccepted,
}

impl RegistryModel {
    /// Whether a request is the registered one, and still that of its turn.
    pub open spec fn matches(self, expected: RequestModel, request: RequestModel) -> bool {
        expected == request && self.by_turn.dom().contains(request.turn_id)
            && self.by_turn[request.turn_id] == request.request_id
    }

    /// Whether an entry is that of this request, accepted for this session.
    pub open spec fn is_replay(self, request: RequestModel, session: Seq<char>) -> bool {
        let entry = self.entries[request.request_id];
        entry.request == request && entry.session == Some(session)
    }

    /// The entry of a request at a later stage.
    pub open spec fn staged(
        self,
        request_id: Seq<char>,
        stage: AdmissionStage,
        session: Option<Seq<char>>,
    ) -> RegistryModel {
        RegistryModel {
            entries: self.entries.insert(
                request_id,
                EntryModel { request: self.entries[request_id].request, stage, session },
            ),
            ..self
        }
    }

    /// Without a request and its turn.
    pub open spec fn without(self, request_id: Seq<char>) -> RegistryModel {
        RegistryModel {
            by_turn: self.by_turn.remove(self.entries[request_id].request.turn_id),
            entries: self.entries.remove(request_id),
        }
    }

    /// With one more pending request.
    pub open spec fn registered(
        self,
        turn_id: Seq<char>,
        receipt_sha256: Seq<char>,
        request_id: Seq<char>,
    ) -> RegistryModel {
        RegistryModel {
            by_turn: self.by_turn.insert(turn_id, request_id),
            entries: self.entries.insert(
                request_id,
                EntryModel {
                    request: RequestModel {
                        version: COMMAND_EVE_PROMPT_ADMISSION_VERSION@,
                        request_id,
                        turn_id,
                        receipt_sha256,
                    },
                    stage: AdmissionStage::Pending,
                    session: None,
                },
            ),
        }
    }

    /// Why a turn cannot register, if it cannot.
    pub open spec fn registration_fault(self, turn_id: Seq<char>, receipt_sha256: Seq<char>) -> Option<
        (AgentErrorKind, Seq<char>),
    > {
        if !is_identifier(turn_id) {
            Some((AgentErrorKind::BadRequest, "invalid_identifier"@))
        } else if !is_sha256_text(receipt_sha256) {
            Some((AgentErrorKind::BadRequest, "invalid_receipt_sha256"@))
        } else if self.by_turn.dom().contains(turn_id) {
            Some((AgentErrorKind::Conflict, "ATTACHMENT_PROMPT_ADMISSION_ALREADY_REGISTERED"@))
        } else if self.by_turn.len() >= MAX_ACTIVE_ADMISSIONS {
            Some((AgentErrorKind::Conflict, "ATTACHMENT_PROMPT_ADMISSION_SATURATED"@))
        } else {
            None
        }
    }

    /// What the accept phase answers.
    pub open spec fn admit_result(self, request: RequestModel, session: Seq<char>) -> Result<
        (),
        Seq<char>,
    > {
        match request_fault(request, session) {
            Some(code) => Err(code),
            None => if !self.entries.dom().contains(request.request_id) {
                Err("unknown_request"@)
            } else if self.entries[request.request_id].stage == AdmissionStage::Pending {
                if self.matches(self.entries[request.request_id].request, request) {
                    Ok(())
                } else {
                    Err("request_mismatch"@)
                }
            } else if self.is_replay(request, session) {
                Ok(())
            } else {
                Err("request_mismatch"@)
            },
        }
    }

    /// The registry after the accept phase.
    pub open spec fn admitted(self, request: RequestModel, session: Seq<char>) -> RegistryModel {
        if self.admit_result(request, session) is Ok && self.entries[request.request_id].stage
            == AdmissionStage::Pending {
            self.staged(request.request_id, AdmissionStage::Admitted, Some(session))
        } else {
            self
        }
    }

    /// What a phase answers that takes a request from one stage to the next with a decision of the
    /// turn. `listening` says whether the turn is there to decide, `before` is the code for a
    /// request that has not come to that stage.
    pub open spec fn claim_result(
        self,
        request: RequestModel,
        session: Seq<char>,
        listening: bool,
        from: AdmissionStage,
        before: Seq<char>,
    ) -> Result<CommandEvePromptAdmissionClaimResult, Seq<char>> {
        match request_fault(request, session) {
            Some(code) => Err(code),
            None => if !self.entries.dom().contains(request.request_id) {
                Err("unknown_request"@)
            } else {
                let entry = self.entries[request.request_id];
                if entry.stage == from {
                    if !self.matches(entry.request, request) || entry.session != Some(session) {
                        Err("request_mismatch"@)
                    } else if !listening {
                        Err("consumer_unavailable"@)
                    } else {
                        Ok(CommandEvePromptAdmissionClaimResult::AwaitingDecision)
                    }
                } else if entry.stage == AdmissionStage::Accepted {
                    if self.is_replay(request, session) {
                        Ok(CommandEvePromptAdmissionClaimResult::AlreadyAccepted)
                    } else {
                        Err("request_mismatch"@)
                    }
                } else if stage_rank(entry.stage) < stage_rank(from) {
                    Err(before)
                } else {
                    Err("request_in_progress"@)
                }
            },
        }
    }

    /// The registry after such a phase: the request moves on, or goes where nobody is listening.
    pub open spec fn claimed(
        self,
        request: RequestModel,
        session: Seq<char>,
        listening: bool,
        from: AdmissionStage,
        to: AdmissionStage,
    ) -> RegistryModel {
        match self.claim_result(request, session, listening, from, "request_not_admitted"@) {
            Ok(CommandEvePromptAdmissionClaimResult::AwaitingDecision) => self.staged(
                request.request_id,
                to,
                Some(session),
            ),
            _ => if self.is_claimable(request, session, from) {
                self.without(request.request_id)
            } else {
                self
            },
        }
    }

    /// Whether a phase that starts at stage `from` applies to this request of this session.
    pub open spec fn is_claimable(
        self,
        request: RequestModel,
        session: Seq<char>,
        from: AdmissionStage,
    ) -> bool {
        &&& request_fault(request, session) is None
        &&& self.entries.dom().contains(request.request_id)
        &&& self.entries[request.request_id].stage == from
        &&& self.entries[request.request_id].session == Some(session)
        &&& self.matches(self.entries[request.request_id].request, request)
    }

    /// Whether the commit, or the completion, of this session and decision goes through.
    pub open spec fn settles(
        self,
        request_id: Seq<char>,
        session: Seq<char>,
        accepted: bool,
        from: AdmissionStage,
    ) -> bool {
        accepted && self.entries[request_id].stage == from && self.entries[request_id].session
            == Some(session)
    }

    /// The registry after a commit decision.
    pub open spec fn commit_completed(
        self,
        request_id: Seq<char>,
        session: Seq<char>,
        accepted: bool,
    ) -> RegistryModel {
        if !self.entries.dom().contains(request_id) {
            self
        } else if self.settles(request_id, session, accepted, AdmissionStage::Claimed) {
            self.staged(request_id, AdmissionStage::Committed, Some(session))
        } else {
            self.without(request_id)
        }
    }

    /// The registry after a final decision.
    pub open spec fn completed(
        self,
        request_id: Seq<char>,
        session: Seq<char>,
        accepted: bool,
    ) -> RegistryModel {
        if !self.entries.dom().contains(request_id) {
            self
        } else if self.settles(request_id, session, accepted, AdmissionStage::Finalizing)
            || self.settles(request_id, session, accepted, AdmissionStage::PeerAcked) {
            self.staged(request_id, AdmissionStage::Accepted, Some(session))
        } else {
            self.without(request_id)
        }
    }

    /// The registry after the response to a finalize request was sent, or could not be.
    pub open spec fn finalize_responded(
        self,
        request_id: Seq<char>,
        session: Seq<char>,
        delivered: bool,
    ) -> RegistryModel {
        if !self.entries.dom().contains(request_id) || self.entries[request_id].stage
            != AdmissionStage::Finalizing {
            self
        } else if self.settles(request_id, session, delivered, AdmissionStage::Finalizing) {
            self.staged(request_id, AdmissionStage::AwaitingPeerAck, Some(session))
        } else {
            self.without(request_id)
        }
    }

    /// The registry after a turn gave up.
    pub open spec fn rejected(self, turn_id: Seq<char>) -> RegistryModel {
        if !self.by_turn.dom().contains(turn_id) {
            self
        } else {
            let request_id = self.by_turn[turn_id];
            if !self.entries.dom().contains(request_id) {
                RegistryModel { by_turn: self.by_turn.remove(turn_id), ..self }
            } else if can_be_rejected(self.entries[request_id].stage) {
                RegistryModel {
                    by_turn: self.by_turn.remove(turn_id),
                    entries: self.entries.remove(request_id),
                }
            } else {
                self
            }
        }
    }

    /// The registry without a turn.
    pub open spec fn forgotten(self, turn_id: Seq<char>) -> RegistryModel {
        if self.by_turn.dom().contains(turn_id) {
            RegistryModel {
                by_turn: self.by_turn.remove(turn_id),
                entries: self.entries.remove(self.by_turn[turn_id]),
            }
        } else {
            self
        }
    }

    /// Whether a request goes when its session does.
    pub open spec fn goes_with_session(self, request_id: Seq<char>, session: Seq<char>) -> bool {
        &&& self.entries.dom().contains(request_id)
        &&& self.entries[request_id].session == Some(session)
        &&& self.entries[request_id].stage != AdmissionStage::Accepted
    }

    /// Whether a turn goes because its session does.
    pub open spec fn turn_goes_with_session(self, turn_id: Seq<char>, session: Seq<char>) -> bool {
        exists|request_id: Seq<char>| #[trigger]
            self.goes_with_session(request_id, session)
                && self.entries[request_id].request.turn_id == turn_id
    }

    /// The registry without the requests of a session that were not accepted.
    pub open spec fn without_session(self, session: Seq<char>) -> RegistryModel {
        RegistryModel {
            by_turn: Map::new(
                |turn_id: Seq<char>|
                    self.by_turn.dom().contains(turn_id) && !self.turn_goes_with_session(
                        turn_id,
                        session,
                    ),
                |turn_id: Seq<char>| self.by_turn[turn_id],
            ),
            entries: Map::new(
                |request_id: Seq<char>|
                    self.entries.dom().contains(request_id) && !self.goes_with_session(
                        request_id,
                        session,
                    ),
                |request_id: Seq<char>| self.entries[request_id],
            ),
        }
    }

    /// Every request is filed under its own id, and has a session from its first phase on.
    pub open spec fn wf(self) -> bool {
        forall|request_id: Seq<char>| #[trigger]
            self.entries.dom().contains(request_id) ==> self.entries[request_id].request.request_id
                == request_id && (self.entries[request_id].session is None
                <==> self.entries[request_id].stage == AdmissionStage::Pending)
    }

    /// Turns and requests correspond one to one.
    pub open spec fn consistent(self) -> bool {
        &&& self.wf()
        &&& forall|turn_id: Seq<char>| #[trigger]
            self.by_turn.dom().contains(turn_id) ==> self.entries.dom().contains(
                self.by_turn[turn_id],
            ) && self.entries[self.by_turn[turn_id]].request.turn_id == turn_id
        &&& forall|request_id: Seq<char>| #[trigger]
            self.entries.dom().contains(request_id) ==> self.by_turn.dom().contains(
                self.entries[request_id].request.turn_id,
            ) && self.by_turn[self.entries[request_id].request.turn_id] == request_id
    }
}

/// The order of the stages.
pub open spec fn stage_rank(stage: AdmissionStage) -> int {
    match stage {
        AdmissionStage::Pending => 0,
        AdmissionStage::Admitted => 1,
        AdmissionStage::Claimed => 2,
        AdmissionStage::Committed => 3,
        AdmissionStage::Finalizing => 4,
        AdmissionStage::AwaitingPeerAck => 5,
        AdmissionStage::PeerAcked => 6,
        AdmissionStage::Accepted => 7,
    }
}

/// Whether the turn of a request at this stage is still waiting for something that a rejection
/// can end.
pub open spec fn can_be_rejected(stage: AdmissionStage) -> bool {
    stage_rank(stage) <= 3
}

/// What the peer is asked to admit.
#[derive(Debug)]
pub struct CommandEvePromptAdmissionRequest {
    pub version: String,
    pub request_id: String,
    pub turn_id: String,
    pub receipt_sha256: String,
}

impl View for CommandEvePromptAdmissionRequest {
    type V = RequestModel;

    open spec fn view(&self) -> RequestModel {
        RequestModel {
            version: self.version@,
            request_id: self.request_id@,
            turn_id: self.turn_id@,
            receipt_sha256: self.receipt_sha256@,
        }
    }
}

impl Clone for CommandEvePromptAdmissionRequest {
    fn clone(&self) -> (r: Self)
        ensures
            r@ == self@,
    {
        CommandEvePromptAdmissionRequest {
            version: self.version.clone(),
            request_id: self.request_id.clone(),
            turn_id: self.turn_id.clone(),
            receipt_sha256: self.receipt_sha256.clone(),
        }
    }
}

impl CommandEvePromptAdmissionRequest {
    /// Whether both requests are the same in every field.
    pub fn same_as(&self, other: &CommandEvePromptAdmissionRequest) -> (r: bool)
        ensures
            r == (self@ == other@),
    {
        self.version == other.version && self.request_id == other.request_id && self.turn_id
            == other.turn_id && self.receipt_sha256 == other.receipt_sha256
    }
}

/// A registered request.
pub struct AdmissionEntry {
    request: CommandEvePromptAdmissionRequest,
    stage: AdmissionStage,
    session_id: Option<String>,
}

impl View for AdmissionEntry {
    type V = EntryModel;

    closed spec fn view(&self) -> EntryModel {
        EntryModel {
            request: self.request@,
            stage: self.stage,
            session: text_view(self.session_id),
        }
    }
}

impl AdmissionEntry {
    fn is_for_session(&self, session_id: &str) -> (r: bool)
        ensures
            r == (self@.session == Some(session_id@)),
    {
        match &self.session_id {
            Some(own) => same_text(own.as_str(), session_id),
            None => false,
        }
    }
}

/// Who waits for a request to move on.
#[derive(Clone, Copy, Debug, PartialEq, Eq, Structural)]
pub enum AdmissionWaiter {
    Claim,
    Finalize,
    PeerAck,
}

/// The code with which a waiter is to be told that its request is gone.
#[derive(Debug)]
pub struct AdmissionWake {
    pub request_id: String,
    pub waiter: AdmissionWaiter,
    pub code: String,
}

impl View for AdmissionWake {
    type V = (Seq<char>, AdmissionWaiter, Seq<char>);

    open spec fn view(&self) -> (Seq<char>, AdmissionWaiter, Seq<char>) {
        (self.request_id@, self.waiter, self.code@)
    }
}

/// The wake of an optional result, as text.
pub open spec fn wake_view(wake: Option<AdmissionWake>) -> Option<
    (Seq<char>, AdmissionWaiter, Seq<char>),
> {
    match wake {
        Some(wake) => Some(wake@),
        None => None,
    }
}

/// The registered requests.
pub struct AdmissionRegistry {
    request_by_turn: TextMap<String>,
    entries: TextMap<AdmissionEntry>,
}

impl View for AdmissionRegistry {
    type V = RegistryModel;

    closed spec fn view(&self) -> RegistryModel {
        RegistryModel {
            by_turn: self.request_by_turn@.map_values(|request_id: String| request_id@),
            entries: self.entries@.map_values(|entry: AdmissionEntry| entry@),
        }
    }
}

impl AdmissionRegistry {
    pub closed spec fn wf(&self) -> bool {
        self.request_by_turn.wf() && self.entries.wf() && self@.wf()
    }

    pub fn new() -> (r: Self)
        ensures
            r.wf(),
            r@.consistent(),
            r@.by_turn == Map::<Seq<char>, Seq<char>>::empty(),
            r@.entries == Map::<Seq<char>, EntryModel>::empty(),
    {
        let r = AdmissionRegistry { request_by_turn: TextMap::new(), entries: TextMap::new() };
        proof {
            assert(r@.by_turn =~= Map::<Seq<char>, Seq<char>>::empty());
            assert(r@.entries =~= Map::<Seq<char>, EntryModel>::empty());
        }
        r
    }

    fn matches(
        &self,
        expected: &CommandEvePromptAdmissionRequest,
        request: &CommandEvePromptAdmissionRequest,
    ) -> (r: bool)
        requires
            self.wf(),
        ensures
            r == self@.matches(expected@, request@),
    {
        if !expected.same_as(request) {
            return false;
        }
        match self.request_by_turn.get(request.turn_id.as_str()) {
            Some(request_id) => *request_id == request.request_id,
            None => false,
        }
    }

    /// Moves a request to another stage.
    fn set_stage(&mut self, request_id: &str, stage: AdmissionStage, session_id: &str)
        requires
            old(self).wf(),
            old(self)@.entries.dom().contains(request_id@),
            stage != AdmissionStage::Pending,
        ensures
            final(self).wf(),
            final(self)@ == old(self)@.staged(request_id@, stage, Some(session_id@)),
    {
        let ghost before = self@;
        match self.entries.remove(request_id) {
            Some(entry) => {
                let ghost kept = entry@.request;
                self.entries.insert(
                    request_id,
                    AdmissionEntry {
                        request: entry.request,
                        stage,
                        session_id: Some(session_id.to_owned()),
                    },
                );
                proof {
                    assert(self@.entries =~= before.staged(
                        request_id@,
                        stage,
                        Some(session_id@),
                    ).entries);
                    assert(self@.by_turn =~= before.by_turn);
                }
            },
            None => {},
        }
    }

    /// Drops a request and its turn, and returns its entry.
    fn take(&mut self, request_id: &str) -> (r: Option<AdmissionEntry>)
        requires
            old(self).wf(),
        ensures
            final(self).wf(),
            r is Some <==> old(self)@.entries.dom().contains(request_id@),
            r matches Some(entry) ==> entry@ == old(self)@.entries[request_id@] && final(self)@
                == old(self)@.without(request_id@),
            r is None ==> final(self)@ == old(self)@,
    {
        let ghost before = self@;
        match self.entries.remove(request_id) {
            Some(entry) => {
                let _ = self.request_by_turn.remove(entry.request.turn_id.as_str());
                proof {
                    assert(self@.entries =~= before.without(request_id@).entries);
                    assert(self@.by_turn =~= before.without(request_id@).by_turn);
                }
                Some(entry)
            },
            None => {
                proof {
                    assert(self@.entries =~= before.entries);
                }
                None
            },
        }
    }
}

fn validate_identifier(value: &str) -> (r: Result<(), &'static str>)
    ensures
        code_of(r) == if is_identifier(value@) {
            Ok::<(), Seq<char>>(())
        } else {
            Err::<(), Seq<char>>("invalid_identifier"@)
        },
{
    if value.is_empty() || utf8_len(value) > MAX_IDENTIFIER_BYTES {
        return Err("invalid_identifier");
    }
    let chars = chars_of(value);
    let mut i: usize = 0;
    while i < chars.len()
        invariant
            chars@ == value@,
            i <= chars@.len(),
            forall|j: int| 0 <= j < i ==> !breaks_identifier(#[trigger] chars@[j]),
        decreases chars@.len() - i,
    {
        if chars[i] <= ' ' || chars[i] == '\u{7f}' {
            return Err("invalid_identifier");
        }
        i = i + 1;
    }
    Ok(())
}

fn validate_sha256(value: &str) -> (r: Result<(), &'static str>)
    ensures
        code_of(r) == if is_sha256_text(value@) {
            Ok::<(), Seq<char>>(())
        } else {
            Err::<(), Seq<char>>("invalid_receipt_sha256"@)
        },
{
    let chars = chars_of(value);
    if chars.len() != 64 {
        return Err("invalid_receipt_sha256");
    }
    let mut i: usize = 0;
    while i < chars.len()
        invariant
            chars@ == value@,
            i <= chars@.len(),
            forall|j: int| 0 <= j < i ==> is_lower_hex(#[trigger] chars@[j]),
        decreases chars@.len() - i,
    {
        let c = chars[i];
        if !(('0' <= c && c <= '9') || ('a' <= c && c <= 'f')) {
            return Err("invalid_receipt_sha256");
        }
        i = i + 1;
    }
    Ok(())
}

fn validate_request(request: &CommandEvePromptAdmissionRequest, session_id: &str) -> (r: Result<
    (),
    &'static str,
>)
    ensures
        code_of(r) == match request_fault(request@, session_id@) {
            Some(code) => Err::<(), Seq<char>>(code),
            None => Ok::<(), Seq<char>>(()),
        },
{
    if let Err(code) = validate_identifier(session_id) {
        return Err(code);
    }
    if !same_text(request.version.as_str(), COMMAND_EVE_PROMPT_ADMISSION_VERSION) {
        return Err("unsupported_version");
    }
    if let Err(code) = validate_identifier(request.request_id.as_str()) {
        return Err(code);
    }
    if let Err(code) = validate_identifier(request.turn_id.as_str()) {
        return Err(code);
    }
    validate_sha256(request.receipt_sha256.as_str())
}

/// The accept phase: the peer has taken the request for this session.
pub fn admit_command_eve_prompt_admission(
    registry: &mut AdmissionRegistry,
    request: &CommandEvePromptAdmissionRequest,
    session_id: &str,
) -> (r: Result<(), &'static str>)
    requires
        old(registry).wf(),
    ensures
        final(registry).wf(),
        code_of(r) == old(registry)@.admit_result(request@, session_id@),
        final(registry)@ == old(registry)@.admitted(request@, session_id@),
{
    if let Err(code) = validate_request(request, session_id) {
        return Err(code);
    }
    let pending = match registry.entries.get(request.request_id.as_str()) {
        None => {
            return Err("unknown_request");
        },
        Some(entry) => {
            if entry.stage == AdmissionStage::Pending {
                if !registry.matches(&entry.request, request) {
                    return Err("request_mismatch");
                }
                true
            } else {
                if !(entry.request.same_as(request) && entry.is_for_session(session_id)) {
                    return Err("request_mismatch");
                }
                false
            }
        },
    };
    if pending {
        registry.set_stage(request.request_id.as_str(), AdmissionStage::Admitted, session_id);
    }
    Ok(())
}

/// A phase that needs a decision of the turn.
fn claim_stage(
    registry: &mut AdmissionRegistry,
    request: &CommandEvePromptAdmissionRequest,
    session_id: &str,
    listening: bool,
    from: AdmissionStage,
    to: AdmissionStage,
    before: &'static str,
) -> (r: Result<CommandEvePromptAdmissionClaimResult, &'static str>)
    requires
        old(registry).wf(),
        from != AdmissionStage::Pending,
        from != AdmissionStage::Accepted,
        to != AdmissionStage::Pending,
    ensures
        final(registry).wf(),
        code_of(r) == old(registry)@.claim_result(request@, session_id@, listening, from, before@),
        final(registry)@ == old(registry)@.claimed(request@, session_id@, listening, from, to),
{
    if let Err(code) = validate_request(request, session_id) {
        return Err(code);
    }
    match registry.entries.get(request.request_id.as_str()) {
        None => {
            return Err("unknown_request");
        },
        Some(entry) => {
            if entry.stage == from {
                if !registry.matches(&entry.request, request) || !entry.is_for_session(session_id) {
                    return Err("request_mismatch");
                }
            } else if entry.stage == AdmissionStage::Accepted {
                if entry.request.same_as(request) && entry.is_for_session(session_id) {
                    return Ok(CommandEvePromptAdmissionClaimResult::AlreadyAccepted);
                }
                return Err("request_mismatch");
            } else if rank_of(entry.stage) < rank_of(from) {
                return Err(before);
            } else {
                return Err("request_in_progress");
            }
        },
    }
    if !listening {
        let _ = registry.take(request.request_id.as_str());
        return Err("consumer_unavailable");
    }
    registry.set_stage(request.request_id.as_str(), to, session_id);
    Ok(CommandEvePromptAdmissionClaimResult::AwaitingDecision)
}

fn rank_of(stage: AdmissionStage) -> (r: u8)
    ensures
        r == stage_rank(stage),
{
    match stage {
        AdmissionStage::Pending => 0,
        AdmissionStage::Admitted => 1,
        AdmissionStage::Claimed => 2,
        AdmissionStage::Committed => 3,
        AdmissionStage::Finalizing => 4,
        AdmissionStage::AwaitingPeerAck => 5,
        AdmissionStage::PeerAcked => 6,
        AdmissionStage::Accepted => 7,
    }
}

/// The commit phase: the turn is told and has to decide. `listening` says whether it still waits.
pub fn claim_command_eve_prompt_admission(
    registry: &mut AdmissionRegistry,
    request: &CommandEvePromptAdmissionRequest,
    session_id: &str,
    listening: bool,
) -> (r: Result<CommandEvePromptAdmissionClaimResult, &'static str>)
    requires
        old(registry).wf(),
    ensures
        final(registry).wf(),
        code_of(r) == old(registry)@.claim_result(
            request@,
            session_id@,
            listening,
            AdmissionStage::Admitted,
            "request_not_admitted"@,
        ),
        final(registry)@ == old(registry)@.claimed(
            request@,
            session_id@,
            listening,
            AdmissionStage::Admitted,
            AdmissionStage::Claimed,
        ),
{
    claim_stage(
        registry,
        request,
        session_id,
        listening,
        AdmissionStage::Admitted,
        AdmissionStage::Claimed,
        "request_not_admitted",
    )
}

/// The finalize phase: the turn is told and has to decide.
pub fn finalize_command_eve_prompt_admission(
    registry: &mut AdmissionRegistry,
    request: &CommandEvePromptAdmissionRequest,
    session_id: &str,
    listening: bool,
) -> (r: Result<CommandEvePromptAdmissionClaimResult, &'static str>)
    requires
        old(registry).wf(),
    ensures
        final(registry).wf(),
        code_of(r) == old(registry)@.claim_result(
            request@,
            session_id@,
            listening,
            AdmissionStage::Committed,
            "request_not_committed"@,
        ),
        final(registry)@ == old(registry)@.claimed(
            request@,
            session_id@,
            listening,
            AdmissionStage::Committed,
            AdmissionStage::Finalizing,
        ),
{
    claim_stage(
        registry,
        request,
        session_id,
        listening,
        AdmissionStage::Committed,
        AdmissionStage::Finalizing,
        "request_not_committed",
    )
}

/// The acknowledge phase: the peer has seen the answer to its finalize request.
pub fn acknowledge_command_eve_prompt_admission(
    registry: &mut AdmissionRegistry,
    request: &CommandEvePromptAdmissionRequest,
    session_id: &str,
    listening: bool,
) -> (r: Result<CommandEvePromptAdmissionClaimResult, &'static str>)
    requires
        old(registry).wf(),
    ensures
        final(registry).wf(),
        code_of(r) == old(registry)@.claim_result(
            request@,
            session_id@,
            listening,
            AdmissionStage::AwaitingPeerAck,
            "request_not_finalized"@,
        ),
        final(registry)@ == old(registry)@.claimed(
            request@,
            session_id@,
            listening,
            AdmissionStage::AwaitingPeerAck,
            AdmissionStage::PeerAcked,
        ),
{
    claim_stage(
        registry,
        request,
        session_id,
        listening,
        AdmissionStage::AwaitingPeerAck,
        AdmissionStage::PeerAcked,
        "request_not_finalized",
    )
}

impl RegistryModel {
    /// Who is told of a commit decision, and what.
    pub open spec fn commit_wake(
        self,
        request_id: Seq<char>,
        session: Seq<char>,
        accepted: bool,
    ) -> Option<(Seq<char>, AdmissionWaiter, Seq<char>)> {
        if !self.entries.dom().contains(request_id) || self.settles(
            request_id,
            session,
            accepted,
            AdmissionStage::Claimed,
        ) {
            None
        } else {
            wake_of(
                self.entries[request_id],
                "ATTACHMENT_PROMPT_ADMISSION_REJECTED"@,
                "ATTACHMENT_PROMPT_COMMIT_TRANSPORT_REJECTED"@,
            )
        }
    }

    /// Who is told of a final decision, and what.
    pub open spec fn completion_wake(self, request_id: Seq<char>) -> Option<
        (Seq<char>, AdmissionWaiter, Seq<char>),
    > {
        if !self.entries.dom().contains(request_id) {
            None
        } else {
            wake_of(
                self.entries[request_id],
                "ATTACHMENT_PROMPT_ADMISSION_REJECTED"@,
                "ATTACHMENT_PROMPT_FINALIZE_REJECTED"@,
            )
        }
    }

    /// Who is told that the response to a finalize request was not sent, and what.
    pub open spec fn finalize_wake(
        self,
        request_id: Seq<char>,
        session: Seq<char>,
        delivered: bool,
    ) -> Option<(Seq<char>, AdmissionWaiter, Seq<char>)> {
        if self.entries.dom().contains(request_id) && self.entries[request_id].stage
            == AdmissionStage::Finalizing && !self.settles(
            request_id,
            session,
            delivered,
            AdmissionStage::Finalizing,
        ) {
            Some(
                (
                    request_id,
                    AdmissionWaiter::PeerAck,
                    "ATTACHMENT_PROMPT_FINALIZE_PEER_ACK_UNAVAILABLE"@,
                ),
            )
        } else {
            None
        }
    }
}

/// The wake of a request that is dropped, where somebody waits for it.
pub open spec fn wake_of(
    entry: EntryModel,
    claim_code: Seq<char>,
    finalize_code: Seq<char>,
) -> Option<(Seq<char>, AdmissionWaiter, Seq<char>)> {
    match entry.stage {
        AdmissionStage::Pending | AdmissionStage::Admitted => Some(
            (entry.request.request_id, AdmissionWaiter::Claim, claim_code),
        ),
        AdmissionStage::Claimed | AdmissionStage::Committed => Some(
            (entry.request.request_id, AdmissionWaiter::Finalize, finalize_code),
        ),
        _ => None,
    }
}

fn wake_for(entry: AdmissionEntry, claim_code: &str, finalize_code: &str) -> (r: Option<
    AdmissionWake,
>)
    ensures
        wake_view(r) == wake_of(entry@, claim_code@, finalize_code@),
{
    match entry.stage {
        AdmissionStage::Pending | AdmissionStage::Admitted => Some(
            AdmissionWake {
                request_id: entry.request.request_id,
                waiter: AdmissionWaiter::Claim,
                code: claim_code.to_owned(),
            },
        ),
        AdmissionStage::Claimed | AdmissionStage::Committed => Some(
            AdmissionWake {
                request_id: entry.request.request_id,
                waiter: AdmissionWaiter::Finalize,
                code: finalize_code.to_owned(),
            },
        ),
        _ => None,
    }
}

/// The turn's decision on a commit. Anything but an acceptance for the claiming session drops the
/// request, and the result says who is to be told.
pub fn complete_command_eve_prompt_admission_commit(
    registry: &mut AdmissionRegistry,
    request_id: &str,
    session_id: &str,
    accepted: bool,
) -> (r: Option<AdmissionWake>)
    requires
        old(registry).wf(),
    ensures
        final(registry).wf(),
        final(registry)@ == old(registry)@.commit_completed(request_id@, session_id@, accepted),
        wake_view(r) == old(registry)@.commit_wake(request_id@, session_id@, accepted),
{
    let settles = match registry.entries.get(request_id) {
        None => {
            return None;
        },
        Some(entry) => accepted && entry.stage == AdmissionStage::Claimed && entry.is_for_session(
            session_id,
        ),
    };
    if settles {
        registry.set_stage(request_id, AdmissionStage::Committed, session_id);
        return None;
    }
    match registry.take(request_id) {
        Some(entry) => wake_for(
            entry,
            "ATTACHMENT_PROMPT_ADMISSION_REJECTED",
            "ATTACHMENT_PROMPT_COMMIT_TRANSPORT_REJECTED",
        ),
        None => None,
    }
}

/// The final decision. Anything but an acceptance of a finalized request for its session drops the
/// request, and the result says who is to be told.
pub fn complete_command_eve_prompt_admission(
    registry: &mut AdmissionRegistry,
    request_id: &str,
    session_id: &str,
    accepted: bool,
) -> (r: Option<AdmissionWake>)
    requires
        old(registry).wf(),
    ensures
        final(registry).wf(),
        final(registry)@ == old(registry)@.completed(request_id@, session_id@, accepted),
        wake_view(r) == old(registry)@.completion_wake(request_id@),
{
    let settles = match registry.entries.get(request_id) {
        None => {
            return None;
        },
        Some(entry) => accepted && (entry.stage == AdmissionStage::Finalizing || entry.stage
            == AdmissionStage::PeerAcked) && entry.is_for_session(session_id),
    };
    if settles {
        registry.set_stage(request_id, AdmissionStage::Accepted, session_id);
        return None;
    }
    match registry.take(request_id) {
        Some(entry) => wake_for(
            entry,
            "ATTACHMENT_PROMPT_ADMISSION_REJECTED",
            "ATTACHMENT_PROMPT_FINALIZE_REJECTED",
        ),
        None => None,
    }
}

/// Says whether the answer to a finalize request was handed to the transport. Where it was, the
/// request awaits the peer's acknowledgement; where it was not, the request is dropped and the
/// turn is told.
pub fn mark_command_eve_prompt_finalize_response(
    registry: &mut AdmissionRegistry,
    request_id: &str,
    session_id: &str,
    delivered: bool,
) -> (r: Option<AdmissionWake>)
    requires
        old(registry).wf(),
    ensures
        final(registry).wf(),
        final(registry)@ == old(registry)@.finalize_responded(request_id@, session_id@, delivered),
        wake_view(r) == old(registry)@.finalize_wake(request_id@, session_id@, delivered),
{
    let settles = match registry.entries.get(request_id) {
        None => {
            return None;
        },
        Some(entry) => {
            if entry.stage != AdmissionStage::Finalizing {
                return None;
            }
            delivered && entry.is_for_session(session_id)
        },
    };
    if settles {
        registry.set_stage(request_id, AdmissionStage::AwaitingPeerAck, session_id);
        return None;
    }
    let _ = registry.take(request_id);
    Some(
        AdmissionWake {
            request_id: request_id.to_owned(),
            waiter: AdmissionWaiter::PeerAck,
            code: "ATTACHMENT_PROMPT_FINALIZE_PEER_ACK_UNAVAILABLE".to_owned(),
        },
    )
}

/// Ends a turn's admission, unless it has come as far as its finalize phase.
pub fn reject_command_eve_prompt_admission(
    registry: &mut AdmissionRegistry,
    turn_id: &str,
    code: &str,
) -> (r: Option<AdmissionWake>)
    requires
        old(registry).wf(),
    ensures
        final(registry).wf(),
        final(registry)@ == old(registry)@.rejected(turn_id@),
        wake_view(r) == if old(registry)@.by_turn.dom().contains(turn_id@) && old(
            registry,
        )@.entries.dom().contains(old(registry)@.by_turn[turn_id@]) {
            wake_of(old(registry)@.entries[old(registry)@.by_turn[turn_id@]], code@, code@)
        } else {
            None
        },
{
    let ghost before = registry@;
    let request_id = match registry.request_by_turn.get(turn_id) {
        Some(request_id) => request_id.clone(),
        None => {
            return None;
        },
    };
    match registry.entries.get(request_id.as_str()) {
        None => {
            let _ = registry.request_by_turn.remove(turn_id);
            proof {
                assert(registry@.by_turn =~= before.by_turn.remove(turn_id@));
            }
            return None;
        },
        Some(entry) => {
            if rank_of(entry.stage) > 3 {
                return None;
            }
        },
    }
    let _ = registry.request_by_turn.remove(turn_id);
    match registry.entries.remove(request_id.as_str()) {
        Some(entry) => {
            proof {
                assert(registry@.by_turn =~= before.by_turn.remove(turn_id@));
                assert(registry@.entries =~= before.entries.remove(request_id@));
            }
            wake_for(entry, code, code)
        },
        None => None,
    }
}

/// Forgets a turn and its request.
pub fn forget_command_eve_prompt_admission(registry: &mut AdmissionRegistry, turn_id: &str)
    requires
        old(registry).wf(),
    ensures
        final(registry).wf(),
        final(registry)@ == old(registry)@.forgotten(turn_id@),
{
    let ghost before = registry@;
    if let Some(request_id) = registry.request_by_turn.remove(turn_id) {
        let _ = registry.entries.remove(request_id.as_str());
        proof {
            assert(registry@.by_turn =~= before.by_turn.remove(turn_id@));
            assert(registry@.entries =~= before.entries.remove(request_id@));
        }
    } else {
        proof {
            assert(registry@.by_turn =~= before.by_turn);
        }
    }
}

/// The request that a turn has registered.
pub fn command_eve_prompt_admission_for_turn(registry: &AdmissionRegistry, turn_id: &str) -> (r:
    Option<CommandEvePromptAdmissionRequest>)
    requires
        registry.wf(),
    ensures
        r is Some <==> registry@.by_turn.dom().contains(turn_id@)
            && registry@.entries.dom().contains(registry@.by_turn[turn_id@]),
        r matches Some(request) ==> request@
            == registry@.entries[registry@.by_turn[turn_id@]].request,
{
    match registry.request_by_turn.get(turn_id) {
        Some(request_id) => match registry.entries.get(request_id.as_str()) {
            Some(entry) => Some(entry.request.clone()),
            None => None,
        },
        None => None,
    }
}

/// What a finalize request comes to.
pub type CommandEvePromptAdmissionFinalizeClaimResult = CommandEvePromptAdmissionClaimResult;

/// What an acknowledgement comes to.
pub type CommandEvePromptAdmissionPeerAckClaimResult = CommandEvePromptAdmissionClaimResult;

/// What a turn decides of a request.
#[derive(Clone, Copy, Debug, PartialEq, Eq, Structural)]
pub enum CommandEvePromptAdmissionDecision {
    Accepted,
    Rejected,
}

/// Drops every request of a session that was not accepted, and returns who is to be told.
pub fn reject_command_eve_prompt_admissions_for_session(
    registry: &mut AdmissionRegistry,
    session_id: &str,
    code: &str,
) -> (r: Vec<AdmissionWake>)
    requires
        old(registry).wf(),
    ensures
        final(registry).wf(),
        final(registry)@ == old(registry)@.without_session(session_id@),
        forall|i: int| #![trigger r@[i]]
            0 <= i < r@.len() ==> old(registry)@.goes_with_session(r@[i]@.0, session_id@)
                && r@[i]@ == (
                r@[i]@.0,
                session_waiter(old(registry)@.entries[r@[i]@.0].stage),
                code@,
            ),
        forall|i: int, j: int|
            0 <= i < r@.len() && 0 <= j < r@.len() && (#[trigger] r@[i])@.0 == (
            #[trigger] r@[j])@.0 ==> i == j,
        forall|request_id: Seq<char>| #[trigger]
            old(registry)@.goes_with_session(request_id, session_id@) ==> exists|i: int|
                0 <= i < r@.len() && (#[trigger] r@[i])@.0 == request_id,
{
    let ghost before = registry@;
    let keys = registry.entries.keys();
    let mut wakes: Vec<AdmissionWake> = Vec::new();
    let mut next: usize = 0;
    proof {
        assert(registry@.entries =~= remaining(before, keys@, 0, session_id@).entries);
        assert(registry@.by_turn =~= remaining(before, keys@, 0, session_id@).by_turn);
    }
    while next < keys.len()
        invariant
            registry.wf(),
            before.wf(),
            next <= keys@.len(),
            forall|i: int, j: int|
                0 <= i < keys@.len() && 0 <= j < keys@.len() && (#[trigger] keys@[i])@ == (
                #[trigger] keys@[j])@ ==> i == j,
            forall|i: int| 0 <= i < keys@.len() ==> before.entries.dom().contains(
                (#[trigger] keys@[i])@,
            ),
            registry@ == remaining(before, keys@, next as int, session_id@),
            forall|i: int| #![trigger wakes@[i]]
                0 <= i < wakes@.len() ==> before.goes_with_session(wakes@[i]@.0, session_id@)
                    && wakes@[i]@ == (
                    wakes@[i]@.0,
                    session_waiter(before.entries[wakes@[i]@.0].stage),
                    code@,
                ) && seen(keys@, next as int, wakes@[i]@.0),
            forall|i: int, j: int|
                0 <= i < wakes@.len() && 0 <= j < wakes@.len() && (#[trigger] wakes@[i])@.0 == (
                #[trigger] wakes@[j])@.0 ==> i == j,
            forall|k: int| #![trigger keys@[k]]
                0 <= k < next && before.goes_with_session(keys@[k]@, session_id@) ==> exists|
                    i: int,
                |
                    0 <= i < wakes@.len() && (#[trigger] wakes@[i])@.0 == keys@[k]@,
        decreases keys@.len() - next,
    {
        let key = keys[next].as_str();
        let ghost held = registry@;
        proof {
            assert(!seen(keys@, next as int, key@));
            assert(held.entries.dom().contains(key@));
            assert(held.entries[key@] == before.entries[key@]);
        }
        let goes = match registry.entries.get(key) {
            Some(entry) => entry.is_for_session(session_id) && entry.stage
                != AdmissionStage::Accepted,
            None => false,
        };
        if goes {
            match registry.take(key) {
                Some(entry) => {
                    let ghost wakes_before = wakes@;
                    wakes.push(
                        AdmissionWake {
                            request_id: key.to_owned(),
                            waiter: waiter_at(entry.stage),
                            code: code.to_owned(),
                        },
                    );
                    proof {
                        assert(before.goes_with_session(key@, session_id@));
                        assert forall|k: int| #![trigger keys@[k]]
                            0 <= k < next + 1 && before.goes_with_session(
                                keys@[k]@,
                                session_id@,
                            ) implies exists|i: int|
                            0 <= i < wakes@.len() && (#[trigger] wakes@[i])@.0 == keys@[k]@ by {
                            if k == next {
                                assert(wakes@[wakes@.len() - 1]@.0 == keys@[k]@);
                            } else {
                                let i = choose|i: int|
                                    0 <= i < wakes_before.len() && (#[trigger] wakes_before[i])@.0
                                        == keys@[k]@;
                                assert(wakes@[i] == wakes_before[i]);
                            }
                        }
                    }
                },
                None => {},
            }
        }
        proof {
            lemma_remaining_step(before, keys@, next as int, session_id@);
            assert(registry@.entries =~= remaining(
                before,
                keys@,
                next + 1,
                session_id@,
            ).entries);
            assert(registry@.by_turn =~= remaining(
                before,
                keys@,
                next + 1,
                session_id@,
            ).by_turn);
            assert(seen(keys@, next + 1, key@)) by {
                assert(keys@[next as int]@ == key@);
            }
            assert forall|request_id: Seq<char>| seen(keys@, next as int, request_id) implies seen(
                keys@,
                next + 1,
                request_id,
            ) by {}
        }
        next = next + 1;
    }
    proof {
        let all = keys@.len() as int;
        assert forall|request_id: Seq<char>| before.entries.dom().contains(request_id) implies seen(
            keys@,
            all,
            request_id,
        ) by {
            let i = choose|i: int| 0 <= i < keys@.len() && (#[trigger] keys@[i])@ == request_id;
            assert(keys@[i]@ == request_id);
        }
        assert(registry@.entries =~= before.without_session(session_id@).entries);
        assert(registry@.by_turn =~= before.without_session(session_id@).by_turn);
        assert forall|request_id: Seq<char>| #[trigger]
            before.goes_with_session(request_id, session_id@) implies exists|i: int|
            0 <= i < wakes@.len() && (#[trigger] wakes@[i])@.0 == request_id by {
            let k = choose|k: int| 0 <= k < keys@.len() && (#[trigger] keys@[k])@ == request_id;
            assert(before.goes_with_session(keys@[k]@, session_id@));
        }
    }
    wakes
}

/// Who waits for a request at this stage when its session goes.
pub open spec fn session_waiter(stage: AdmissionStage) -> AdmissionWaiter {
    match stage {
        AdmissionStage::Pending | AdmissionStage::Admitted => AdmissionWaiter::Claim,
        AdmissionStage::Claimed | AdmissionStage::Committed => AdmissionWaiter::Finalize,
        _ => AdmissionWaiter::PeerAck,
    }
}

fn waiter_at(stage: AdmissionStage) -> (r: AdmissionWaiter)
    ensures
        r == session_waiter(stage),
{
    match stage {
        AdmissionStage::Pending | AdmissionStage::Admitted => AdmissionWaiter::Claim,
        AdmissionStage::Claimed | AdmissionStage::Committed => AdmissionWaiter::Finalize,
        _ => AdmissionWaiter::PeerAck,
    }
}

/// Whether a request id is among the first `count` keys.
spec fn seen(keys: Seq<String>, count: int, request_id: Seq<char>) -> bool {
    exists|i: int| 0 <= i < count && i < keys.len() && (#[trigger] keys[i])@ == request_id
}

/// Whether a request among the first `count` keys goes with its session and has this turn.
spec fn turn_gone(
    model: RegistryModel,
    keys: Seq<String>,
    count: int,
    session: Seq<char>,
    turn_id: Seq<char>,
) -> bool {
    exists|request_id: Seq<char>| #[trigger]
        model.goes_with_session(request_id, session) && seen(keys, count, request_id)
            && model.entries[request_id].request.turn_id == turn_id
}

/// The registry once the first `count` keys have been looked at.
spec fn remaining(
    model: RegistryModel,
    keys: Seq<String>,
    count: int,
    session: Seq<char>,
) -> RegistryModel {
    RegistryModel {
        by_turn: Map::new(
            |turn_id: Seq<char>|
                model.by_turn.dom().contains(turn_id) && !turn_gone(
                    model,
                    keys,
                    count,
                    session,
                    turn_id,
                ),
            |turn_id: Seq<char>| model.by_turn[turn_id],
        ),
        entries: Map::new(
            |request_id: Seq<char>|
                model.entries.dom().contains(request_id) && !(model.goes_with_session(
                    request_id,
                    session,
                ) && seen(keys, count, request_id)),
            |request_id: Seq<char>| model.entries[request_id],
        ),
    }
}

proof fn lemma_remaining_step(
    model: RegistryModel,
    keys: Seq<String>,
    count: int,
    session: Seq<char>,
)
    requires
        0 <= count < keys.len(),
        model.entries.dom().contains(keys[count]@),
    ensures
        forall|request_id: Seq<char>| #[trigger]
            seen(keys, count + 1, request_id) <==> seen(keys, count, request_id) || request_id
                == keys[count]@,
        forall|turn_id: Seq<char>| #[trigger]
            turn_gone(model, keys, count + 1, session, turn_id) <==> turn_gone(
                model,
                keys,
                count,
                session,
                turn_id,
            ) || (model.goes_with_session(keys[count]@, session)
                && model.entries[keys[count]@].request.turn_id == turn_id),
{
    assert forall|request_id: Seq<char>| #[trigger] seen(keys, count + 1, request_id) <==> seen(
        keys,
        count,
        request_id,
    ) || request_id == keys[count]@ by {
        if request_id == keys[count]@ {
            assert(seen(keys, count + 1, request_id));
        }
    }
    assert forall|turn_id: Seq<char>| #[trigger]
        turn_gone(model, keys, count + 1, session, turn_id) <==> turn_gone(
            model,
            keys,
            count,
            session,
            turn_id,
        ) || (model.goes_with_session(keys[count]@, session)
            && model.entries[keys[count]@].request.turn_id == turn_id) by {
        if turn_gone(model, keys, count + 1, session, turn_id) {
            let request_id = choose|request_id: Seq<char>| #[trigger]
                model.goes_with_session(request_id, session) && seen(keys, count + 1, request_id)
                    && model.entries[request_id].request.turn_id == turn_id;
            assert(seen(keys, count, request_id) || request_id == keys[count]@);
        }
        if turn_gone(model, keys, count, session, turn_id) {
            let request_id = choose|request_id: Seq<char>| #[trigger]
                model.goes_with_session(request_id, session) && seen(keys, count, request_id)
                    && model.entries[request_id].request.turn_id == turn_id;
            assert(seen(keys, count + 1, request_id));
        }
        if model.goes_with_session(keys[count]@, session)
            && model.entries[keys[count]@].request.turn_id == turn_id {
            assert(seen(keys, count + 1, keys[count]@));
        }
    }
}

/// What came of waiting on a channel for a limited time.
pub enum AdmissionWait<T> {
    Delivered(T),
    Refused(String),
    ChannelClosed,
    TimedOut,
}

/// The error that a wait ends with, if it fails.
pub open spec fn wait_error<T>(
    outcome: AdmissionWait<T>,
    closed: Seq<char>,
    timed_out: Seq<char>,
) -> Option<(AgentErrorKind, Seq<char>)> {
    match outcome {
        AdmissionWait::Delivered(_) => None,
        AdmissionWait::Refused(code) => Some((AgentErrorKind::BadGateway, code@)),
        AdmissionWait::ChannelClosed => Some((AgentErrorKind::BadGateway, closed)),
        AdmissionWait::TimedOut => Some((AgentErrorKind::Timeout, timed_out)),
    }
}

/// Whether a result is the value that was delivered, or fails with the error of the wait.
pub open spec fn is_wait_result<T>(
    r: Result<T, AgentError>,
    outcome: AdmissionWait<T>,
    closed: Seq<char>,
    timed_out: Seq<char>,
) -> bool {
    match r {
        Ok(value) => outcome == AdmissionWait::Delivered(value),
        Err(error) => wait_error(outcome, closed, timed_out) == Some(error@),
    }
}

fn finish_wait<T>(
    registry: &mut AdmissionRegistry,
    turn_id: &str,
    outcome: AdmissionWait<T>,
    closed: &str,
    timed_out: &str,
) -> (r: (Result<T, AgentError>, Option<AdmissionWake>))
    requires
        old(registry).wf(),
    ensures
        final(registry).wf(),
        is_wait_result(r.0, outcome, closed@, timed_out@),
        final(registry)@ == if outcome is TimedOut {
            old(registry)@.rejected(turn_id@)
        } else {
            old(registry)@
        },
        outcome is TimedOut ==> wake_view(r.1) == rejection_wake(
            old(registry)@,
            turn_id@,
            timed_out@,
        ),
        !(outcome is TimedOut) ==> r.1 is None,
{
    match outcome {
        AdmissionWait::Delivered(value) => (Ok(value), None),
        AdmissionWait::Refused(code) => (Err(AgentError::bad_gateway(code.as_str())), None),
        AdmissionWait::ChannelClosed => (Err(AgentError::bad_gateway(closed)), None),
        AdmissionWait::TimedOut => {
            let wake = reject_command_eve_prompt_admission(registry, turn_id, timed_out);
            (Err(AgentError::timeout(timed_out)), wake)
        },
    }
}

/// Who is told, and what, when a turn gives up.
pub open spec fn rejection_wake(model: RegistryModel, turn_id: Seq<char>, code: Seq<char>) -> Option<
    (Seq<char>, AdmissionWaiter, Seq<char>),
> {
    if model.by_turn.dom().contains(turn_id) && model.entries.dom().contains(
        model.by_turn[turn_id],
    ) {
        wake_of(model.entries[model.by_turn[turn_id]], code, code)
    } else {
        None
    }
}

/// The registry after a wait: a turn that waited too long has given up.
pub open spec fn waited<T>(
    model: RegistryModel,
    turn_id: Seq<char>,
    outcome: AdmissionWait<T>,
) -> RegistryModel {
    if outcome is TimedOut {
        model.rejected(turn_id)
    } else {
        model
    }
}

/// Who is told of a wait, and what.
pub open spec fn waited_wake<T>(
    model: RegistryModel,
    turn_id: Seq<char>,
    outcome: AdmissionWait<T>,
    code: Seq<char>,
) -> Option<(Seq<char>, AdmissionWaiter, Seq<char>)> {
    if outcome is TimedOut {
        rejection_wake(model, turn_id, code)
    } else {
        None
    }
}

/// A registered turn that waits for its commit.
#[derive(Debug)]
pub struct CommandEvePromptAdmissionTicket {
    pub turn_id: String,
}

/// A turn whose request the peer wants committed.
#[derive(Debug)]
pub struct CommandEvePromptAdmissionClaim {
    pub session_id: String,
    pub turn_id: String,
}

/// A turn that committed and waits for its finalize request.
#[derive(Debug)]
pub struct CommandEvePromptAdmissionFinalizeTicket {
    pub turn_id: String,
}

/// A turn whose request the peer wants finalized.
#[derive(Debug)]
pub struct CommandEvePromptAdmissionFinalizeClaim {
    pub turn_id: String,
}

/// A turn that finalized and waits for its delivery.
#[derive(Debug)]
pub struct CommandEvePromptAdmissionDeliveryTicket {
    pub turn_id: String,
}

impl CommandEvePromptAdmissionTicket {
    /// What came of waiting for the commit. A turn that waited too long gives up its request.
    pub fn wait(
        self,
        registry: &mut AdmissionRegistry,
        outcome: AdmissionWait<CommandEvePromptAdmissionClaim>,
    ) -> (r: (Result<CommandEvePromptAdmissionClaim, AgentError>, Option<AdmissionWake>))
        requires
            old(registry).wf(),
        ensures
            final(registry).wf(),
            is_wait_result(
                r.0,
                outcome,
                "ATTACHMENT_PROMPT_ADMISSION_CHANNEL_CLOSED"@,
                "ATTACHMENT_PROMPT_ADMISSION_TIMEOUT"@,
            ),
            final(registry)@ == waited(old(registry)@, self.turn_id@, outcome),
            wake_view(r.1) == waited_wake(
                old(registry)@,
                self.turn_id@,
                outcome,
                "ATTACHMENT_PROMPT_ADMISSION_TIMEOUT"@,
            ),
    {
        finish_wait(
            registry,
            self.turn_id.as_str(),
            outcome,
            "ATTACHMENT_PROMPT_ADMISSION_CHANNEL_CLOSED",
            "ATTACHMENT_PROMPT_ADMISSION_TIMEOUT",
        )
    }
}

impl CommandEvePromptAdmissionFinalizeTicket {
    /// What came of waiting for the finalize request.
    pub fn wait(
        self,
        registry: &mut AdmissionRegistry,
        outcome: AdmissionWait<CommandEvePromptAdmissionFinalizeClaim>,
    ) -> (r: (Result<CommandEvePromptAdmissionFinalizeClaim, AgentError>, Option<AdmissionWake>))
        requires
            old(registry).wf(),
        ensures
            final(registry).wf(),
            is_wait_result(
                r.0,
                outcome,
                "ATTACHMENT_PROMPT_FINALIZE_CHANNEL_CLOSED"@,
                "ATTACHMENT_PROMPT_FINALIZE_TIMEOUT"@,
            ),
            final(registry)@ == waited(old(registry)@, self.turn_id@, outcome),
            wake_view(r.1) == waited_wake(
                old(registry)@,
                self.turn_id@,
                outcome,
                "ATTACHMENT_PROMPT_FINALIZE_TIMEOUT"@,
            ),
    {
        finish_wait(
            registry,
            self.turn_id.as_str(),
            outcome,
            "ATTACHMENT_PROMPT_FINALIZE_CHANNEL_CLOSED",
            "ATTACHMENT_PROMPT_FINALIZE_TIMEOUT",
        )
    }
}

impl CommandEvePromptAdmissionDeliveryTicket {
    /// What came of waiting for the delivery.
    pub fn wait(self, registry: &mut AdmissionRegistry, outcome: AdmissionWait<()>) -> (r: (
        Result<(), AgentError>,
        Option<AdmissionWake>,
    ))
        requires
            old(registry).wf(),
        ensures
            final(registry).wf(),
            is_wait_result(
                r.0,
                outcome,
                "ATTACHMENT_PROMPT_FINALIZE_DELIVERY_CHANNEL_CLOSED"@,
                "ATTACHMENT_PROMPT_FINALIZE_DELIVERY_TIMEOUT"@,
            ),
            final(registry)@ == waited(old(registry)@, self.turn_id@, outcome),
            wake_view(r.1) == waited_wake(
                old(registry)@,
                self.turn_id@,
                outcome,
                "ATTACHMENT_PROMPT_FINALIZE_DELIVERY_TIMEOUT"@,
            ),
    {
        finish_wait(
            registry,
            self.turn_id.as_str(),
            outcome,
            "ATTACHMENT_PROMPT_FINALIZE_DELIVERY_CHANNEL_CLOSED",
            "ATTACHMENT_PROMPT_FINALIZE_DELIVERY_TIMEOUT",
        )
    }
}

impl CommandEvePromptAdmissionClaim {
    /// Accepts the commit. `transport_open` says whether the peer's request still waits for it.
    pub fn accept(self, transport_open: bool) -> (r: Result<
        CommandEvePromptAdmissionFinalizeTicket,
        AgentError,
    >)
        ensures
            r is Ok <==> transport_open,
            r matches Ok(ticket) ==> ticket.turn_id@ == self.turn_id@,
            r matches Err(error) ==> error@ == (
                AgentErrorKind::BadGateway,
                "ATTACHMENT_PROMPT_ADMISSION_TRANSPORT_CLOSED"@,
            ),
    {
        if transport_open {
            Ok(CommandEvePromptAdmissionFinalizeTicket { turn_id: self.turn_id })
        } else {
            Err(AgentError::bad_gateway("ATTACHMENT_PROMPT_ADMISSION_TRANSPORT_CLOSED"))
        }
    }

    /// Rejects the commit.
    pub fn reject(self) -> (r: CommandEvePromptAdmissionDecision)
        ensures
            r == CommandEvePromptAdmissionDecision::Rejected,
    {
        CommandEvePromptAdmissionDecision::Rejected
    }
}

impl CommandEvePromptAdmissionFinalizeClaim {
    /// Accepts the finalize request.
    pub fn accept(self, transport_open: bool) -> (r: Result<
        CommandEvePromptAdmissionDeliveryTicket,
        AgentError,
    >)
        ensures
            r is Ok <==> transport_open,
            r matches Ok(ticket) ==> ticket.turn_id@ == self.turn_id@,
            r matches Err(error) ==> error@ == (
                AgentErrorKind::BadGateway,
                "ATTACHMENT_PROMPT_FINALIZE_TRANSPORT_CLOSED"@,
            ),
    {
        if transport_open {
            Ok(CommandEvePromptAdmissionDeliveryTicket { turn_id: self.turn_id })
        } else {
            Err(AgentError::bad_gateway("ATTACHMENT_PROMPT_FINALIZE_TRANSPORT_CLOSED"))
        }
    }

    /// Rejects the finalize request.
    pub fn reject(self) -> (r: CommandEvePromptAdmissionDecision)
        ensures
            r == CommandEvePromptAdmissionDecision::Rejected,
    {
        CommandEvePromptAdmissionDecision::Rejected
    }
}

/// Registers a turn under a request id of its own making.
pub fn register_command_eve_prompt_admission(
    registry: &mut AdmissionRegistry,
    turn_id: &str,
    receipt_sha256: &str,
) -> (r: Result<CommandEvePromptAdmissionTicket, AgentError>)
    requires
        old(registry).wf(),
    ensures
        final(registry).wf(),
        match old(registry)@.registration_fault(turn_id@, receipt_sha256@) {
            Some(fault) => r matches Err(error) && error@ == fault && final(registry)@ == old(
                registry,
            )@,
            None => r matches Ok(ticket) && ticket.turn_id@ == turn_id@ && exists|
                request_id: Seq<char>,
            |
                is_uuid_text(request_id) && final(registry)@ == #[trigger] old(registry)@.registered(
                    turn_id@,
                    receipt_sha256@,
                    request_id,
                ),
        },
{
    let request_id = new_uuid_v4();
    register_with_request_id(registry, turn_id, receipt_sha256, request_id.as_str())
}

/// Registers a turn under a given request id.
pub fn register_with_request_id(
    registry: &mut AdmissionRegistry,
    turn_id: &str,
    receipt_sha256: &str,
    request_id: &str,
) -> (r: Result<CommandEvePromptAdmissionTicket, AgentError>)
    requires
        old(registry).wf(),
    ensures
        final(registry).wf(),
        match old(registry)@.registration_fault(turn_id@, receipt_sha256@) {
            Some(fault) => r matches Err(error) && error@ == fault && final(registry)@ == old(
                registry,
            )@,
            None => r matches Ok(ticket) && ticket.turn_id@ == turn_id@ && final(registry)@ == old(
                registry,
            )@.registered(turn_id@, receipt_sha256@, request_id@),
        },
{
    let ghost before = registry@;
    if let Err(code) = validate_identifier(turn_id) {
        return Err(AgentError::bad_request(code));
    }
    if let Err(code) = validate_sha256(receipt_sha256) {
        return Err(AgentError::bad_request(code));
    }
    if registry.request_by_turn.contains_key(turn_id) {
        return Err(AgentError::conflict("ATTACHMENT_PROMPT_ADMISSION_ALREADY_REGISTERED"));
    }
    let active: usize = registry.request_by_turn.len();
    assert(before.by_turn.dom() =~= registry.request_by_turn@.dom());
    if active >= MAX_ACTIVE_ADMISSIONS {
        return Err(AgentError::conflict("ATTACHMENT_PROMPT_ADMISSION_SATURATED"));
    }
    registry.request_by_turn.insert(turn_id, request_id.to_owned());
    registry.entries.insert(
        request_id,
        AdmissionEntry {
            request: CommandEvePromptAdmissionRequest {
                version: COMMAND_EVE_PROMPT_ADMISSION_VERSION.to_owned(),
                request_id: request_id.to_owned(),
                turn_id: turn_id.to_owned(),
                receipt_sha256: receipt_sha256.to_owned(),
            },
            stage: AdmissionStage::Pending,
            session_id: None,
        },
    );
    proof {
        let after = before.registered(turn_id@, receipt_sha256@, request_id@);
        assert(registry@.by_turn =~= after.by_turn);
        assert(registry@.entries =~= after.entries);
    }
    Ok(CommandEvePromptAdmissionTicket { turn_id: turn_id.to_owned() })
}

/// One operation on the registry.
pub enum AdmissionStep {
    Register { turn_id: Seq<char>, receipt_sha256: Seq<char>, request_id: Seq<char> },
    Admit { request: RequestModel, session: Seq<char> },
    Claim { request: RequestModel, session: Seq<char>, listening: bool },
    CompleteCommit { request_id: Seq<char>, session: Seq<char>, accepted: bool },
    Finalize { request: RequestModel, session: Seq<char>, listening: bool },
    MarkFinalizeResponse { request_id: Seq<char>, session: Seq<char>, delivered: bool },
    Acknowledge { request: RequestModel, session: Seq<char>, listening: bool },
    Complete { request_id: Seq<char>, session: Seq<char>, accepted: bool },
    Reject { turn_id: Seq<char> },
    RejectForSession { session: Seq<char> },
    Forget { turn_id: Seq<char> },
}

impl RegistryModel {
    /// The registry after an operation.
    pub open spec fn step(self, step: AdmissionStep) -> RegistryModel {
        match step {
            AdmissionStep::Register { turn_id, receipt_sha256, request_id } =>
                if self.registration_fault(turn_id, receipt_sha256) is None {
                    self.registered(turn_id, receipt_sha256, request_id)
                } else {
                    self
                },
            AdmissionStep::Admit { request, session } => self.admitted(request, session),
            AdmissionStep::Claim { request, session, listening } => self.claimed(
                request,
                session,
                listening,
                AdmissionStage::Admitted,
                AdmissionStage::Claimed,
            ),
            AdmissionStep::CompleteCommit { request_id, session, accepted } =>
                self.commit_completed(request_id, session, accepted),
            AdmissionStep::Finalize { request, session, listening } => self.claimed(
                request,
                session,
                listening,
                AdmissionStage::Committed,
                AdmissionStage::Finalizing,
            ),
            AdmissionStep::MarkFinalizeResponse { request_id, session, delivered } =>
                self.finalize_responded(request_id, session, delivered),
            AdmissionStep::Acknowledge { request, session, listening } => self.claimed(
                request,
                session,
                listening,
                AdmissionStage::AwaitingPeerAck,
                AdmissionStage::PeerAcked,
            ),
            AdmissionStep::Complete { request_id, session, accepted } => self.completed(
                request_id,
                session,
                accepted,
            ),
            AdmissionStep::Reject { turn_id } => self.rejected(turn_id),
            AdmissionStep::RejectForSession { session } => self.without_session(session),
            AdmissionStep::Forget { turn_id } => self.forgotten(turn_id),
        }
    }

    /// Whether an operation brings a request id into the registry a second time.
    pub open spec fn reuses_id(self, step: AdmissionStep) -> bool {
        match step {
            AdmissionStep::Register { turn_id, receipt_sha256, request_id } =>
                self.entries.dom().contains(request_id),
            _ => false,
        }
    }
}

/// Turns and requests correspond one to one after every operation, as long as no request id is
/// given out twice.
pub proof fn every_operation_keeps_the_registry_consistent(
    model: RegistryModel,
    step: AdmissionStep,
)
    requires
        model.consistent(),
        !model.reuses_id(step),
    ensures
        model.step(step).consistent(),
{
    let after = model.step(step);
    match step {
        AdmissionStep::RejectForSession { session } => {
            assert forall|turn_id: Seq<char>| #[trigger]
                after.by_turn.dom().contains(turn_id) implies after.entries.dom().contains(
                after.by_turn[turn_id],
            ) by {
                let request_id = model.by_turn[turn_id];
                assert(model.by_turn.dom().contains(turn_id));
                if model.goes_with_session(request_id, session) {
                    assert(model.turn_goes_with_session(turn_id, session));
                }
            }
            assert forall|request_id: Seq<char>| #[trigger]
                after.entries.dom().contains(request_id) implies after.by_turn.dom().contains(
                after.entries[request_id].request.turn_id,
            ) by {
                let turn_id = model.entries[request_id].request.turn_id;
                assert(model.entries.dom().contains(request_id));
                if model.turn_goes_with_session(turn_id, session) {
                    let other = choose|other: Seq<char>| #[trigger]
                        model.goes_with_session(other, session)
                            && model.entries[other].request.turn_id == turn_id;
                    assert(model.entries.dom().contains(other));
                    assert(other == request_id);
                }
            }
        },
        _ => {},
    }
}

/// No operation lets more turns wait for admission than are allowed.
pub proof fn active_admissions_stay_bounded(model: RegistryModel, step: AdmissionStep)
    requires
        model.by_turn.dom().finite(),
        model.by_turn.len() <= MAX_ACTIVE_ADMISSIONS,
    ensures
        model.step(step).by_turn.dom().finite(),
        model.step(step).by_turn.len() <= MAX_ACTIVE_ADMISSIONS,
{
    let after = model.step(step);
    match step {
        AdmissionStep::Register { turn_id, receipt_sha256, request_id } => {
            if model.registration_fault(turn_id, receipt_sha256) is None {
                assert(after.by_turn.dom() =~= model.by_turn.dom().insert(turn_id));
            }
        },
        _ => {
            assert(after.by_turn.dom().subset_of(model.by_turn.dom()));
            vstd::set_lib::lemma_len_subset(after.by_turn.dom(), model.by_turn.dom());
        },
    }
}

/// Whether an entry is of the same request, at the same stage or a later one.
pub open spec fn stays_or_moves_forward(before: EntryModel, after: EntryModel) -> bool {
    &&& stage_rank(before.stage) <= stage_rank(after.stage)
    &&& after.request == before.request
}

proof fn lemma_stage_when_registering(model: RegistryModel, step: AdmissionStep, request_id: Seq<char>)
    requires
        model.wf(),
        !model.reuses_id(step),
        step is Register || step is Admit,
        model.entries.dom().contains(request_id),
        model.step(step).entries.dom().contains(request_id),
    ensures
        stays_or_moves_forward(model.entries[request_id], model.step(step).entries[request_id]),
{
}

proof fn lemma_stage_when_claiming(model: RegistryModel, step: AdmissionStep, request_id: Seq<char>)
    requires
        model.wf(),
        !model.reuses_id(step),
        step is Claim || step is Finalize || step is Acknowledge,
        model.entries.dom().contains(request_id),
        model.step(step).entries.dom().contains(request_id),
    ensures
        stays_or_moves_forward(model.entries[request_id], model.step(step).entries[request_id]),
{
}

proof fn lemma_stage_when_completing(model: RegistryModel, step: AdmissionStep, request_id: Seq<char>)
    requires
        model.wf(),
        !model.reuses_id(step),
        step is CompleteCommit || step is Complete,
        model.entries.dom().contains(request_id),
        model.step(step).entries.dom().contains(request_id),
    ensures
        stays_or_moves_forward(model.entries[request_id], model.step(step).entries[request_id]),
{
}

proof fn lemma_stage_when_marking(model: RegistryModel, step: AdmissionStep, request_id: Seq<char>)
    requires
        model.wf(),
        !model.reuses_id(step),
        step is MarkFinalizeResponse,
        model.entries.dom().contains(request_id),
        model.step(step).entries.dom().contains(request_id),
    ensures
        stays_or_moves_forward(model.entries[request_id], model.step(step).entries[request_id]),
{
}

proof fn lemma_stage_when_dropping(model: RegistryModel, step: AdmissionStep, request_id: Seq<char>)
    requires
        model.wf(),
        !model.reuses_id(step),
        step is Reject || step is RejectForSession || step is Forget,
        model.entries.dom().contains(request_id),
        model.step(step).entries.dom().contains(request_id),
    ensures
        stays_or_moves_forward(model.entries[request_id], model.step(step).entries[request_id]),
{
}

/// A request never goes back to an earlier stage: as long as it is registered, an operation leaves
/// its stage or moves it forward.
pub proof fn stages_only_move_forward(
    model: RegistryModel,
    step: AdmissionStep,
    request_id: Seq<char>,
)
    requires
        model.wf(),
        !model.reuses_id(step),
        model.entries.dom().contains(request_id),
        model.step(step).entries.dom().contains(request_id),
    ensures
        stays_or_moves_forward(model.entries[request_id], model.step(step).entries[request_id]),
{
    match step {
        AdmissionStep::Register { .. } | AdmissionStep::Admit { .. } => {
            lemma_stage_when_registering(model, step, request_id);
        },
        AdmissionStep::Claim { .. } | AdmissionStep::Finalize { .. }
        | AdmissionStep::Acknowledge { .. } => {
            lemma_stage_when_claiming(model, step, request_id);
        },
        AdmissionStep::CompleteCommit { .. } | AdmissionStep::Complete { .. } => {
            lemma_stage_when_completing(model, step, request_id);
        },
        AdmissionStep::MarkFinalizeResponse { .. } => {
            lemma_stage_when_marking(model, step, request_id);
        },
        _ => {
            lemma_stage_when_dropping(model, step, request_id);
        },
    }
}

/// A commit is claimed at most once: after a claim that awaits a decision, no claim of the same
/// request awaits another one, until the request is dropped.
pub proof fn commit_is_claimed_at_most_once(
    model: RegistryModel,
    step: AdmissionStep,
    request: RequestModel,
    session: Seq<char>,
    listening: bool,
)
    requires
        model.wf(),
        !model.reuses_id(step),
        model.entries.dom().contains(request.request_id),
        stage_rank(model.entries[request.request_id].stage) >= stage_rank(AdmissionStage::Claimed),
        model.step(step).entries.dom().contains(request.request_id),
    ensures
        stage_rank(model.step(step).entries[request.request_id].stage) >= stage_rank(
            AdmissionStage::Claimed,
        ),
        model.step(step).claim_result(
            request,
            session,
            listening,
            AdmissionStage::Admitted,
            "request_not_admitted"@,
        ) != Ok::<CommandEvePromptAdmissionClaimResult, Seq<char>>(
            CommandEvePromptAdmissionClaimResult::AwaitingDecision,
        ),
{
    stages_only_move_forward(model, step, request.request_id);
}

/// A request that does not match the registered one, in any field or in its session, leaves the
/// registry as it is.
pub proof fn mismatch_does_not_consume_the_request(
    model: RegistryModel,
    request: RequestModel,
    session: Seq<char>,
    listening: bool,
)
    requires
        model.wf(),
        model.entries.dom().contains(request.request_id),
        model.entries[request.request_id].request != request,
    ensures
        model.step(AdmissionStep::Admit { request, session }) == model,
        model.step(AdmissionStep::Claim { request, session, listening }) == model,
        model.step(AdmissionStep::Finalize { request, session, listening }) == model,
        model.step(AdmissionStep::Acknowledge { request, session, listening }) == model,
{
}

/// Admitting an admitted request once more succeeds and changes nothing.
pub proof fn admission_replay_is_idempotent(
    model: RegistryModel,
    request: RequestModel,
    session: Seq<char>,
)
    requires
        model.wf(),
        model.admit_result(request, session) is Ok,
    ensures
        ({
            let once = model.step(AdmissionStep::Admit { request, session });
            &&& once.admit_result(request, session) is Ok
            &&& once.step(AdmissionStep::Admit { request, session }) == once
        }),
{
}

/// An accepted request stays accepted through every phase of the same session, and each answers
/// that it was accepted.
pub proof fn acceptance_replay_is_idempotent(
    model: RegistryModel,
    request: RequestModel,
    session: Seq<char>,
    listening: bool,
)
    requires
        model.wf(),
        request_fault(request, session) is None,
        model.entries.dom().contains(request.request_id),
        model.entries[request.request_id].stage == AdmissionStage::Accepted,
        model.is_replay(request, session),
    ensures
        model.claim_result(
            request,
            session,
            listening,
            AdmissionStage::Admitted,
            "request_not_admitted"@,
        ) == Ok::<CommandEvePromptAdmissionClaimResult, Seq<char>>(
            CommandEvePromptAdmissionClaimResult::AlreadyAccepted,
        ),
        model.step(AdmissionStep::Claim { request, session, listening }) == model,
        model.step(AdmissionStep::Finalize { request, session, listening }) == model,
        model.step(AdmissionStep::Acknowledge { request, session, listening }) == model,
{
}

/// A request becomes accepted only from its finalize phase on: no operation accepts a request that
/// was not finalized before.
pub proof fn acceptance_needs_a_finalized_request(
    model: RegistryModel,
    step: AdmissionStep,
    request_id: Seq<char>,
)
    requires
        model.wf(),
        model.step(step).entries.dom().contains(request_id),
        model.step(step).entries[request_id].stage == AdmissionStage::Accepted,
    ensures
        model.entries.dom().contains(request_id),
        stage_rank(model.entries[request_id].stage) >= stage_rank(AdmissionStage::Finalizing),
{
    match step {
        AdmissionStep::Register { turn_id, receipt_sha256, request_id: _ } => {},
        AdmissionStep::Admit { request, session } => {},
        AdmissionStep::Claim { request, session, listening } => {},
        AdmissionStep::Finalize { request, session, listening } => {},
        AdmissionStep::Acknowledge { request, session, listening } => {},
        AdmissionStep::CompleteCommit { request_id: _, session, accepted } => {},
        AdmissionStep::Complete { request_id: _, session, accepted } => {},
        AdmissionStep::MarkFinalizeResponse { request_id: _, session, delivered } => {},
        _ => {},
    }
}

/// Forgetting what was just registered gives the registry back.
pub proof fn forgetting_undoes_registering(
    model: RegistryModel,
    turn_id: Seq<char>,
    receipt_sha256: Seq<char>,
    request_id: Seq<char>,
)
    requires
        model.consistent(),
        !model.entries.dom().contains(request_id),
        model.registration_fault(turn_id, receipt_sha256) is None,
    ensures
        model.registered(turn_id, receipt_sha256, request_id).forgotten(turn_id) == model,
{
    let after = model.registered(turn_id, receipt_sha256, request_id).forgotten(turn_id);
    assert(after.by_turn =~= model.by_turn);
    assert(after.entries =~= model.entries);
}

/// A text names a turn, a request or a session exactly where it has between one and two hundred
/// and fifty-six bytes, none of them a control character or a space.
pub proof fn identifiers_are_bounded_and_plain(text: Seq<char>)
    ensures
        is_identifier(text) <==> 1 <= text.len() && byte_len(text) <= 256 && forall|i: int|
            0 <= i < text.len() ==> '!' <= #[trigger] text[i] && text[i] != '\u{7f}',
{
    if is_identifier(text) {
        assert forall|i: int| 0 <= i < text.len() implies '!' <= #[trigger] text[i] && text[i]
            != '\u{7f}' by {
            assert(!breaks_identifier(text[i]));
        }
    }
}

/// A receipt is named by sixty-four digits and letters from `a` to `f`, and by nothing else.
pub proof fn receipts_are_named_by_digests(text: Seq<char>)
    ensures
        is_sha256_text(text) <==> text.len() == 64 && forall|i: int|
            0 <= i < 64 ==> ('0' <= #[trigger] text[i] && text[i] <= '9') || ('a' <= text[i]
                && text[i] <= 'f'),
{
    if is_sha256_text(text) {
        assert forall|i: int| 0 <= i < 64 implies ('0' <= #[trigger] text[i] && text[i] <= '9') || (
        'a' <= text[i] && text[i] <= 'f') by {
            assert(is_lower_hex(text[i]));
        }
    }
}

/// Every phase refuses a request of another version, one with a name that is none, and one whose
/// receipt is not named by a digest, and no other request is refused before it is looked up.
pub proof fn malformed_requests_are_refused(
    model: RegistryModel,
    request: RequestModel,
    session: Seq<char>,
    listening: bool,
    from: AdmissionStage,
    before: Seq<char>,
)
    ensures
        ({
            let named = is_identifier(session) && is_identifier(request.request_id)
                && is_identifier(request.turn_id);
            let current = request.version == "command-eve-prompt-admission/v1"@;
            let digest = is_sha256_text(request.receipt_sha256);
            &&& named && current && digest <==> request_fault(request, session) is None
            &&& !is_identifier(session) ==> request_fault(request, session) == Some(
                "invalid_identifier"@,
            )
            &&& is_identifier(session) && !current ==> request_fault(request, session) == Some(
                "unsupported_version"@,
            )
            &&& current && !named ==> request_fault(request, session) == Some(
                "invalid_identifier"@,
            )
            &&& current && named && !digest ==> request_fault(request, session) == Some(
                "invalid_receipt_sha256"@,
            )
            &&& !(named && current && digest) ==> model.admit_result(request, session) == Err::<
                (),
                Seq<char>,
            >(request_fault(request, session)->0) && model.claim_result(
                request,
                session,
                listening,
                from,
                before,
            ) == Err::<CommandEvePromptAdmissionClaimResult, Seq<char>>(
                request_fault(request, session)->0,
            )
        }),
{
}

/// A turn registers exactly where it and its receipt are named properly, it has no request yet
/// and fewer than a hundred and twenty-eight turns have one. Its request is then found by its
/// turn, waits to be admitted, and every other turn and request is as it was.
pub proof fn registration_files_the_request(
    model: RegistryModel,
    turn_id: Seq<char>,
    receipt_sha256: Seq<char>,
    request_id: Seq<char>,
)
    ensures
        ({
            let fault = model.registration_fault(turn_id, receipt_sha256);
            let named = is_identifier(turn_id);
            let digest = is_sha256_text(receipt_sha256);
            let fresh = !model.by_turn.dom().contains(turn_id);
            let after = model.step(
                AdmissionStep::Register { turn_id, receipt_sha256, request_id },
            );
            &&& fault is None <==> named && digest && fresh && model.by_turn.len() < 128
            &&& !named ==> fault == Some((AgentErrorKind::BadRequest, "invalid_identifier"@))
            &&& named && !digest ==> fault == Some(
                (AgentErrorKind::BadRequest, "invalid_receipt_sha256"@),
            )
            &&& named && digest && !fresh ==> fault == Some(
                (AgentErrorKind::Conflict, "ATTACHMENT_PROMPT_ADMISSION_ALREADY_REGISTERED"@),
            )
            &&& named && digest && fresh && model.by_turn.len() >= 128 ==> fault == Some(
                (AgentErrorKind::Conflict, "ATTACHMENT_PROMPT_ADMISSION_SATURATED"@),
            )
            &&& fault is Some ==> after == model
            &&& fault is None ==> {
                &&& after.by_turn.dom().contains(turn_id) && after.by_turn[turn_id] == request_id
                &&& after.entries.dom().contains(request_id)
                &&& after.entries[request_id].stage is Pending
                &&& after.entries[request_id].session is None
                &&& after.entries[request_id].request.version == "command-eve-prompt-admission/v1"@
                &&& after.entries[request_id].request.request_id == request_id
                &&& after.entries[request_id].request.turn_id == turn_id
                &&& after.entries[request_id].request.receipt_sha256 == receipt_sha256
                &&& forall|other: Seq<char>|
                    other != turn_id ==> (#[trigger] after.by_turn.dom().contains(other)
                        <==> model.by_turn.dom().contains(other)) && after.by_turn[other]
                        == model.by_turn[other]
                &&& leaves_the_others(model, after, request_id)
            }
        }),
{
}

/// Whether every request but this one is as it was.
pub open spec fn leaves_the_others(
    before: RegistryModel,
    after: RegistryModel,
    request_id: Seq<char>,
) -> bool {
    forall|other: Seq<char>|
        other != request_id ==> (#[trigger] after.entries.dom().contains(other)
            <==> before.entries.dom().contains(other)) && (before.entries.dom().contains(other)
            ==> after.entries[other] == before.entries[other])
}

/// Whether the request of this id stays registered as it is, but for its stage, and is held by
/// this session. Every turn and every other request is as it was.
pub open spec fn moves_to(
    before: RegistryModel,
    after: RegistryModel,
    request_id: Seq<char>,
    stage: AdmissionStage,
    session: Seq<char>,
) -> bool {
    &&& after.entries.dom().contains(request_id)
    &&& after.entries[request_id].request == before.entries[request_id].request
    &&& after.entries[request_id].stage == stage
    &&& after.entries[request_id].session == Some(session)
    &&& after.by_turn == before.by_turn
    &&& leaves_the_others(before, after, request_id)
}

/// Whether the request of this id is gone with its turn, and all others are as they were.
pub open spec fn is_dropped(
    before: RegistryModel,
    after: RegistryModel,
    request_id: Seq<char>,
) -> bool {
    &&& !after.entries.dom().contains(request_id)
    &&& !after.by_turn.dom().contains(before.entries[request_id].request.turn_id)
    &&& leaves_the_others(before, after, request_id)
    &&& forall|turn_id: Seq<char>|
        turn_id != before.entries[request_id].request.turn_id ==> (
        #[trigger] after.by_turn.dom().contains(turn_id) <==> before.by_turn.dom().contains(
            turn_id,
        )) && after.by_turn[turn_id] == before.by_turn[turn_id]
}

/// The accept phase gives the registered request to the session that asks for it first. Asking
/// again from that session succeeds, from any other it fails, and so does asking for a request
/// that differs from the registered one.
pub proof fn request_belongs_to_the_session_that_admits_it(
    model: RegistryModel,
    request: RequestModel,
    session: Seq<char>,
)
    requires
        model.consistent(),
        request_fault(request, session) is None,
    ensures
        ({
            let known = model.entries.dom().contains(request.request_id);
            let entry = model.entries[request.request_id];
            let after = model.step(AdmissionStep::Admit { request, session });
            let result = model.admit_result(request, session);
            &&& !known ==> result == Err::<(), Seq<char>>("unknown_request"@)
            &&& known ==> (result is Ok <==> entry.request == request && (entry.stage is Pending
                || entry.session == Some(session)))
            &&& known && result is Err ==> result == Err::<(), Seq<char>>("request_mismatch"@)
            &&& result is Ok && entry.stage is Pending ==> moves_to(
                model,
                after,
                request.request_id,
                AdmissionStage::Admitted,
                session,
            )
            &&& !(result is Ok && entry.stage is Pending) ==> after == model
        }),
{
    if model.entries.dom().contains(request.request_id) {
        assert(model.by_turn.dom().contains(
            model.entries[request.request_id].request.turn_id,
        ));
    }
}

/// A phase that needs a decision of the turn is told to the turn exactly where the request has
/// come to the phase's own stage in the same session, and somebody listens. It then moves on. A
/// request that nobody listens for is dropped, and every other answer changes nothing.
pub proof fn phases_follow_each_other(
    model: RegistryModel,
    request: RequestModel,
    session: Seq<char>,
    listening: bool,
    from: AdmissionStage,
    to: AdmissionStage,
    before: Seq<char>,
)
    requires
        model.consistent(),
        request_fault(request, session) is None,
        from is Admitted || from is Committed || from is AwaitingPeerAck,
    ensures
        ({
            let known = model.entries.dom().contains(request.request_id);
            let entry = model.entries[request.request_id];
            let own = entry.request == request && entry.session == Some(session);
            let result = model.claim_result(request, session, listening, from, before);
            let after = model.claimed(request, session, listening, from, to);
            let awaiting = Ok::<CommandEvePromptAdmissionClaimResult, Seq<char>>(
                CommandEvePromptAdmissionClaimResult::AwaitingDecision,
            );
            let accepted = Ok::<CommandEvePromptAdmissionClaimResult, Seq<char>>(
                CommandEvePromptAdmissionClaimResult::AlreadyAccepted,
            );
            let failed = |code: Seq<char>|
                Err::<CommandEvePromptAdmissionClaimResult, Seq<char>>(code);
            &&& !known ==> result == failed("unknown_request"@)
            &&& known ==> {
                &&& result == awaiting <==> entry.stage == from && own && listening
                &&& result == accepted <==> entry.stage is Accepted && own
                &&& (entry.stage == from || entry.stage is Accepted) && !own ==> result == failed(
                    "request_mismatch"@,
                )
                &&& entry.stage == from && own && !listening ==> result == failed(
                    "consumer_unavailable"@,
                )
            }
            &&& known && from is Admitted && entry.stage is Pending ==> result == failed(before)
            &&& known && from is Committed && (entry.stage is Pending || entry.stage is Admitted
                || entry.stage is Claimed) ==> result == failed(before)
            &&& known && from is AwaitingPeerAck && (entry.stage is Pending
                || entry.stage is Admitted || entry.stage is Claimed || entry.stage is Committed
                || entry.stage is Finalizing) ==> result == failed(before)
            &&& known && from is Admitted && (entry.stage is Claimed || entry.stage is Committed
                || entry.stage is Finalizing || entry.stage is AwaitingPeerAck
                || entry.stage is PeerAcked) ==> result == failed("request_in_progress"@)
            &&& known && from is Committed && (entry.stage is Finalizing
                || entry.stage is AwaitingPeerAck || entry.stage is PeerAcked) ==> result == failed(
                "request_in_progress"@,
            )
            &&& known && from is AwaitingPeerAck && entry.stage is PeerAcked ==> result == failed(
                "request_in_progress"@,
            )
            &&& known && entry.stage == from && own && listening ==> moves_to(
                model,
                after,
                request.request_id,
                to,
                session,
            )
            &&& known && entry.stage == from && own && !listening ==> is_dropped(
                model,
                after,
                request.request_id,
            )
            &&& !(known && entry.stage == from && own) ==> after == model
        }),
{
    if model.entries.dom().contains(request.request_id) {
        assert(model.by_turn.dom().contains(
            model.entries[request.request_id].request.turn_id,
        ));
    }
}

/// A request goes the whole way in one session: admitted, claimed, committed, finalized,
/// answered, acknowledged and accepted, one stage after the other.
pub proof fn accepted_request_has_gone_the_whole_way(
    model: RegistryModel,
    request: RequestModel,
    session: Seq<char>,
)
    requires
        model.consistent(),
        request_fault(request, session) is None,
        model.entries.dom().contains(request.request_id),
        model.entries[request.request_id].request == request,
        model.entries[request.request_id].stage is Pending,
    ensures
        ({
            let id = request.request_id;
            let listening = true;
            let admitted = model.step(AdmissionStep::Admit { request, session });
            let claimed = admitted.step(AdmissionStep::Claim { request, session, listening });
            let committed = claimed.step(
                AdmissionStep::CompleteCommit { request_id: id, session, accepted: true },
            );
            let finalized = committed.step(
                AdmissionStep::Finalize { request, session, listening },
            );
            let answered = finalized.step(
                AdmissionStep::MarkFinalizeResponse { request_id: id, session, delivered: true },
            );
            let acknowledged = answered.step(
                AdmissionStep::Acknowledge { request, session, listening },
            );
            let accepted = acknowledged.step(
                AdmissionStep::Complete { request_id: id, session, accepted: true },
            );
            &&& moves_to(model, admitted, id, AdmissionStage::Admitted, session)
            &&& moves_to(model, claimed, id, AdmissionStage::Claimed, session)
            &&& moves_to(model, committed, id, AdmissionStage::Committed, session)
            &&& moves_to(model, finalized, id, AdmissionStage::Finalizing, session)
            &&& moves_to(model, answered, id, AdmissionStage::AwaitingPeerAck, session)
            &&& moves_to(model, acknowledged, id, AdmissionStage::PeerAcked, session)
            &&& moves_to(model, accepted, id, AdmissionStage::Accepted, session)
        }),
{
    assert(model.by_turn.dom().contains(request.turn_id));
}

/// A decision moves its request on exactly where it is favourable, comes from the session that
/// holds the request, and the request is at the stage that the decision is about. Otherwise the
/// request is dropped.
pub proof fn decisions_move_their_request_or_drop_it(
    model: RegistryModel,
    request_id: Seq<char>,
    session: Seq<char>,
    accepted: bool,
)
    requires
        model.consistent(),
        model.entries.dom().contains(request_id),
    ensures
        ({
            let entry = model.entries[request_id];
            let favourable = accepted && entry.session == Some(session);
            let committed = model.step(
                AdmissionStep::CompleteCommit { request_id, session, accepted },
            );
            let completed = model.step(AdmissionStep::Complete { request_id, session, accepted });
            let answered = model.step(
                AdmissionStep::MarkFinalizeResponse { request_id, session, delivered: accepted },
            );
            &&& if favourable && entry.stage is Claimed {
                moves_to(model, committed, request_id, AdmissionStage::Committed, session)
            } else {
                is_dropped(model, committed, request_id)
            }
            &&& if favourable && (entry.stage is Finalizing || entry.stage is PeerAcked) {
                moves_to(model, completed, request_id, AdmissionStage::Accepted, session)
            } else {
                is_dropped(model, completed, request_id)
            }
            &&& if !(entry.stage is Finalizing) {
                answered == model
            } else if favourable {
                moves_to(model, answered, request_id, AdmissionStage::AwaitingPeerAck, session)
            } else {
                is_dropped(model, answered, request_id)
            }
        }),
{
}

/// A decision on a request that is not registered changes nothing.
pub proof fn decisions_on_unknown_requests_change_nothing(
    model: RegistryModel,
    request_id: Seq<char>,
    session: Seq<char>,
    accepted: bool,
)
    requires
        !model.entries.dom().contains(request_id),
    ensures
        model.step(AdmissionStep::CompleteCommit { request_id, session, accepted }) == model,
        model.step(AdmissionStep::Complete { request_id, session, accepted }) == model,
        model.step(
            AdmissionStep::MarkFinalizeResponse { request_id, session, delivered: accepted },
        ) == model,
{
}

/// A turn that gives up drops its request up to the commit, and from the finalize phase on leaves
/// it. A turn that is forgotten drops it at any stage.
pub proof fn turn_gives_up_what_is_not_finalized(model: RegistryModel, turn_id: Seq<char>)
    requires
        model.consistent(),
    ensures
        ({
            let rejected = model.step(AdmissionStep::Reject { turn_id });
            let forgotten = model.step(AdmissionStep::Forget { turn_id });
            let request_id = model.by_turn[turn_id];
            let stage = model.entries[request_id].stage;
            &&& !model.by_turn.dom().contains(turn_id) ==> rejected == model && forgotten == model
            &&& model.by_turn.dom().contains(turn_id) ==> is_dropped(model, forgotten, request_id)
            &&& model.by_turn.dom().contains(turn_id) && (stage is Pending || stage is Admitted
                || stage is Claimed || stage is Committed) ==> is_dropped(
                model,
                rejected,
                request_id,
            )
            &&& model.by_turn.dom().contains(turn_id) && (stage is Finalizing
                || stage is AwaitingPeerAck || stage is PeerAcked || stage is Accepted)
                ==> rejected == model
        }),
{
}

/// A session that ends takes the requests that it holds along, but for the accepted ones, and no
/// request of another session.
pub proof fn ended_session_drops_what_it_holds(
    model: RegistryModel,
    session: Seq<char>,
    request_id: Seq<char>,
)
    requires
        model.consistent(),
        model.entries.dom().contains(request_id),
    ensures
        ({
            let after = model.step(AdmissionStep::RejectForSession { session });
            let entry = model.entries[request_id];
            let turn_id = entry.request.turn_id;
            &&& after.entries.dom().contains(request_id) <==> entry.session != Some(session)
                || entry.stage is Accepted
            &&& after.by_turn.dom().contains(turn_id) <==> after.entries.dom().contains(request_id)
            &&& after.entries.dom().contains(request_id) ==> after.entries[request_id] == entry
                && after.by_turn[turn_id] == request_id
        }),
{
    let entry = model.entries[request_id];
    let turn_id = entry.request.turn_id;
    assert(model.by_turn.dom().contains(turn_id));
    if model.goes_with_session(request_id, session) {
        assert(model.turn_goes_with_session(turn_id, session));
    }
    if model.turn_goes_with_session(turn_id, session) {
        let other = choose|other: Seq<char>| #[trigger]
            model.goes_with_session(other, session) && model.entries[other].request.turn_id
                == turn_id;
        assert(model.entries.dom().contains(other));
        assert(other == request_id);
    }
}

/// Whoever waits for a dropped request is told under its id: the claim up to the admission, the
/// finalize request up to the commit, and nobody after that.
pub proof fn waiter_is_told_of_its_request(
    entry: EntryModel,
    claim_code: Seq<char>,
    finalize_code: Seq<char>,
)
    ensures
        ({
            let wake = wake_of(entry, claim_code, finalize_code);
            let id = entry.request.request_id;
            &&& entry.stage is Pending || entry.stage is Admitted ==> wake == Some(
                (id, AdmissionWaiter::Claim, claim_code),
            ) && session_waiter(entry.stage) is Claim
            &&& entry.stage is Claimed || entry.stage is Committed ==> wake == Some(
                (id, AdmissionWaiter::Finalize, finalize_code),
            ) && session_waiter(entry.stage) is Finalize
            &&& entry.stage is Finalizing || entry.stage is AwaitingPeerAck
                || entry.stage is PeerAcked || entry.stage is Accepted ==> wake is None
                && session_waiter(entry.stage) is PeerAck
        }),
{
}

/// A turn that gives up has exactly its own waiter told.
pub proof fn giving_up_tells_the_waiter_of_the_turn(
    model: RegistryModel,
    turn_id: Seq<char>,
    code: Seq<char>,
)
    requires
        model.consistent(),
    ensures
        ({
            let wake = rejection_wake(model, turn_id, code);
            &&& wake is Some <==> model.step(AdmissionStep::Reject { turn_id }) != model
            &&& wake is Some ==> (wake->0).0 == model.by_turn[turn_id] && (wake->0).2 == code
        }),
{
    let after = model.step(AdmissionStep::Reject { turn_id });
    if model.by_turn.dom().contains(turn_id) && after != model {
        assert(!after.by_turn.dom().contains(turn_id));
    }
    if rejection_wake(model, turn_id, code) is Some {
        assert(!after.by_turn.dom().contains(turn_id));
    }
}

/// A wait gives what was delivered, fails as it was refused, and says of a closed channel and of a
/// timeout that they were that.
pub proof fn wait_ends_as_its_outcome<T>(
    outcome: AdmissionWait<T>,
    closed: Seq<char>,
    timed_out: Seq<char>,
)
    ensures
        ({
            let error = wait_error(outcome, closed, timed_out);
            &&& error is None <==> outcome is Delivered
            &&& outcome matches AdmissionWait::Refused(code) ==> error == Some(
                (AgentErrorKind::BadGateway, code@),
            )
            &&& outcome is ChannelClosed ==> error == Some((AgentErrorKind::BadGateway, closed))
            &&& outcome is TimedOut ==> error == Some((AgentErrorKind::Timeout, timed_out))
        }),
        forall|value: T| #[trigger]
            is_wait_result(Ok(value), outcome, closed, timed_out) <==> outcome
                == AdmissionWait::Delivered(value),
        forall|error: AgentError| #[trigger]
            is_wait_result(Err(error), outcome, closed, timed_out) <==> wait_error(
                outcome,
                closed,
                timed_out,
            ) == Some(error@),
{
}

/// Only a turn that waited too long gives up its request and has its waiter told. A wait that ends
/// in any other way leaves the registry.
pub proof fn only_a_timeout_gives_up<T>(
    model: RegistryModel,
    turn_id: Seq<char>,
    outcome: AdmissionWait<T>,
    code: Seq<char>,
)
    ensures
        !(outcome is TimedOut) ==> waited(model, turn_id, outcome) == model && waited_wake(
            model,
            turn_id,
            outcome,
            code,
        ) is None,
        outcome is TimedOut ==> waited(model, turn_id, outcome) == model.step(
            AdmissionStep::Reject { turn_id },
        ) && waited_wake(model, turn_id, outcome, code) == rejection_wake(model, turn_id, code),
{
}

/// Whoever waits for a request that a decision drops is told why under its id, and a decision that
/// moves the request on tells nobody.
pub proof fn dropped_requests_are_told(
    model: RegistryModel,
    request_id: Seq<char>,
    session: Seq<char>,
    accepted: bool,
)
    requires
        model.consistent(),
        model.entries.dom().contains(request_id),
    ensures
        ({
            let entry = model.entries[request_id];
            let own = entry.session == Some(session);
            let early = entry.stage is Pending || entry.stage is Admitted;
            let claimed = entry.stage is Claimed || entry.stage is Committed;
            let commit = model.commit_wake(request_id, session, accepted);
            let complete = model.completion_wake(request_id);
            let finalize = model.finalize_wake(request_id, session, accepted);
            &&& accepted && own && entry.stage is Claimed ==> commit is None
            &&& early ==> commit == Some(
                (
                    request_id,
                    AdmissionWaiter::Claim,
                    "ATTACHMENT_PROMPT_ADMISSION_REJECTED"@,
                ),
            ) && complete == commit
            &&& claimed && !(accepted && own && entry.stage is Claimed) ==> commit == Some(
                (
                    request_id,
                    AdmissionWaiter::Finalize,
                    "ATTACHMENT_PROMPT_COMMIT_TRANSPORT_REJECTED"@,
                ),
            )
            &&& claimed ==> complete == Some(
                (
                    request_id,
                    AdmissionWaiter::Finalize,
                    "ATTACHMENT_PROMPT_FINALIZE_REJECTED"@,
                ),
            )
            &&& !early && !claimed ==> commit is None && complete is None
            &&& finalize is Some <==> entry.stage is Finalizing && !(accepted && own)
            &&& finalize is Some ==> finalize == Some(
                (
                    request_id,
                    AdmissionWaiter::PeerAck,
                    "ATTACHMENT_PROMPT_FINALIZE_PEER_ACK_UNAVAILABLE"@,
                ),
            )
        }),
{
}

} // verus!
