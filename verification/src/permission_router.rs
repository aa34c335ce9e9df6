//! The routing of permission requests: what is answered at once, what a user is asked, and what
//! an answer does.
use vstd::prelude::*;

use crate::classifier::{classification, classify_request, PathRules, RulesModel};
use crate::error::{AgentError, AgentErrorKind};
use crate::json::{
    json_entries, push_entry, set_entry, set_entry_is_read_back, with_entry, Json, JsonValue,
};
use crate::permission_authority::{
    decide, mode_name, snapshot_ref_view, snapshot_view, CommandEveCapabilities, DecisionInput,
    OperationClass, PermissionDecision, PermissionMode, PolicySnapshot,
    RequiredAuthority, SnapshotModel, TrustedClassification,
};
use crate::permission_event::{
    meta_entries, meta_value, AcpPermissionRequestData, AcpPermissionToolCall, CardModel, CardOption, Confirmation,
    ConfirmationAuthorityMetadata, MetadataModel,
};
use crate::permission_operation::{
    auto_approval, auto_approve_option_id, command_eve_auto_approval,
    command_eve_option_disposition, command_eve_team_auto_approve_option_id, disposition,
    find_option, first_of_kind, operation_digest, operation_digest_of, OptionDisposition,
    HERMES_BACKEND,
};
use crate::permission_request::{
    options_view, OptionModel, PermissionOption, PermissionOptionKind, PermissionRequestModel,
    RequestPermissionRequest,
};
use crate::text::{concat, same_text, str_view, text_view};
use crate::text_map::TextMap;

verus! {

/// What an operation is gated by: the policy it was asked under, its class, and what was decided.
#[derive(Debug)]
pub struct OperationGate {
    pub operation_digest: String,
    pub policy: Option<PolicySnapshot>,
    pub classification: TrustedClassification,
    pub decision: PermissionDecision,
    pub grant_eligible: bool,
    pub authority_nonce: Option<String>,
}

/// What a gate says.
pub struct GateModel {
    pub operation_digest: Seq<char>,
    pub policy: Option<SnapshotModel>,
    pub classification: TrustedClassification,
    pub decision: PermissionDecision,
    pub grant_eligible: bool,
    pub authority_nonce: Option<Seq<char>>,
}

impl View for OperationGate {
    type V = GateModel;

    open spec fn view(&self) -> GateModel {
        GateModel {
            operation_digest: self.operation_digest@,
            policy: snapshot_view(self.policy),
            classification: self.classification,
            decision: self.decision,
            grant_eligible: self.grant_eligible,
            authority_nonce: text_view(self.authority_nonce),
        }
    }
}

/// The authority under which a request of the Command EVE backend is answered.
#[derive(Debug)]
pub struct CommandEveAuthority {
    pub grant_key: Option<String>,
    pub allow_once_option_id: Option<String>,
    pub reject_once_option_id: Option<String>,
    pub option_dispositions: Vec<(String, OptionDisposition)>,
    pub gate: Option<OperationGate>,
}

/// What an authority says.
pub struct AuthorityModel {
    pub grant_key: Option<Seq<char>>,
    pub allow_once: Option<Seq<char>>,
    pub reject_once: Option<Seq<char>>,
    pub dispositions: Seq<(Seq<char>, OptionDisposition)>,
    pub gate: Option<GateModel>,
}

/// What an optional gate says.
pub open spec fn gate_view(gate: Option<OperationGate>) -> Option<GateModel> {
    match gate {
        Some(gate) => Some(gate@),
        None => None,
    }
}

/// The meanings of a list of answers, as text.
pub open spec fn dispositions_view(list: Seq<(String, OptionDisposition)>) -> Seq<
    (Seq<char>, OptionDisposition),
> {
    list.map_values(|entry: (String, OptionDisposition)| (entry.0@, entry.1))
}

impl View for CommandEveAuthority {
    type V = AuthorityModel;

    open spec fn view(&self) -> AuthorityModel {
        AuthorityModel {
            grant_key: text_view(self.grant_key),
            allow_once: text_view(self.allow_once_option_id),
            reject_once: text_view(self.reject_once_option_id),
            dispositions: dispositions_view(self.option_dispositions@),
            gate: gate_view(self.gate),
        }
    }
}

/// What an optional authority says.
pub open spec fn authority_view(authority: Option<CommandEveAuthority>) -> Option<AuthorityModel> {
    match authority {
        Some(authority) => Some(authority@),
        None => None,
    }
}

/// What an optional reference to an authority says.
pub open spec fn authority_ref_view(authority: Option<&CommandEveAuthority>) -> Option<
    AuthorityModel,
> {
    match authority {
        Some(authority) => Some(authority@),
        None => None,
    }
}

/// The meaning of the last answer with an id.
pub open spec fn disposition_of(
    list: Seq<(Seq<char>, OptionDisposition)>,
    option_id: Seq<char>,
) -> Option<OptionDisposition>
    decreases list.len(),
{
    if list.len() == 0 {
        None
    } else if list.last().0 == option_id {
        Some(list.last().1)
    } else {
        disposition_of(list.drop_last(), option_id)
    }
}

/// Whether a decision keeps a user from allowing the operation.
pub open spec fn is_gating(decision: PermissionDecision) -> bool {
    match decision {
        PermissionDecision::RequireAuthority(_) => true,
        PermissionDecision::Block => true,
        PermissionDecision::Unsupported => true,
        _ => false,
    }
}

fn is_gating_decision(decision: PermissionDecision) -> (r: bool)
    ensures
        r == is_gating(decision),
{
    match decision {
        PermissionDecision::RequireAuthority(_) => true,
        PermissionDecision::Block => true,
        PermissionDecision::Unsupported => true,
        _ => false,
    }
}

impl AuthorityModel {
    /// Whether a user cannot allow the operation.
    pub open spec fn gated(self) -> bool {
        self.gate is Some && is_gating(self.gate->0.decision)
    }

    /// The revision and the session epoch of the policy that the operation was asked under.
    pub open spec fn policy_key(self) -> (u64, u64) {
        if self.gate is Some && self.gate->0.policy is Some {
            (self.gate->0.policy->0.policy_revision, self.gate->0.policy->0.session_epoch)
        } else {
            (0, 0)
        }
    }
}

/// What the answers of a request mean.
pub open spec fn dispositions_of(options: Seq<OptionModel>) -> Seq<(Seq<char>, OptionDisposition)> {
    options.map_values(|option: OptionModel| (option.option_id, disposition(option)))
}

fn collect_dispositions(options: &Vec<PermissionOption>) -> (r: Vec<(String, OptionDisposition)>)
    ensures
        dispositions_view(r@) == dispositions_of(options_view(options@)),
{
    let mut out: Vec<(String, OptionDisposition)> = Vec::new();
    let mut i: usize = 0;
    while i < options.len()
        invariant
            i <= options@.len(),
            out@.len() == i,
            forall|j: int|
                0 <= j < i ==> (#[trigger] out@[j]).0@ == options@[j]@.option_id && out@[j].1
                    == disposition(options@[j]@),
        decreases options@.len() - i,
    {
        out.push((options[i].option_id.clone(), command_eve_option_disposition(&options[i])));
        i = i + 1;
    }
    assert(dispositions_view(out@) =~= dispositions_of(options_view(options@)));
    out
}

/// The authority of a request whose session and mode are known, as far as they are.
pub open spec fn manual_authority(
    active_session_id: Option<Seq<char>>,
    mode: Option<Seq<char>>,
    workspace: Seq<char>,
    request: PermissionRequestModel,
) -> AuthorityModel {
    AuthorityModel {
        grant_key: if active_session_id == Some(request.session_id) && mode is Some {
            Some(operation_digest_of(workspace, HERMES_BACKEND@, mode->0, request))
        } else {
            None
        },
        allow_once: first_of_kind(request.options, PermissionOptionKind::AllowOnce),
        reject_once: first_of_kind(request.options, PermissionOptionKind::RejectOnce),
        dispositions: dispositions_of(request.options),
        gate: None,
    }
}

fn is_hermes(backend: Option<&str>) -> (r: bool)
    ensures
        r == (str_view(backend) == Some(HERMES_BACKEND@)),
{
    match backend {
        Some(backend) => same_text(backend, HERMES_BACKEND),
        None => false,
    }
}

/// Builds the authority of a request of the Command EVE backend; other backends have none. A grant
/// can be made only for the active session and a known mode. The workspace's path has no links
/// in it.
pub fn build_command_eve_authority(
    backend: Option<&str>,
    active_session_id: Option<&str>,
    mode: Option<&str>,
    workspace: &str,
    request: &RequestPermissionRequest,
) -> (r: Option<CommandEveAuthority>)
    ensures
        authority_view(r) == if str_view(backend) == Some(HERMES_BACKEND@) {
            Some(
                manual_authority(
                    str_view(active_session_id),
                    str_view(mode),
                    workspace@,
                    request@,
                ),
            )
        } else {
            None
        },
{
    if !is_hermes(backend) {
        return None;
    }
    let session_matches = match active_session_id {
        Some(session_id) => same_text(session_id, request.session_id.as_str()),
        None => false,
    };
    let grant_key = match mode {
        Some(mode) => if session_matches {
            Some(operation_digest(workspace, HERMES_BACKEND, mode, request))
        } else {
            None
        },
        None => None,
    };
    Some(
        CommandEveAuthority {
            grant_key,
            allow_once_option_id: find_option(&request.options, PermissionOptionKind::AllowOnce),
            reject_once_option_id: find_option(&request.options, PermissionOptionKind::RejectOnce),
            option_dispositions: collect_dispositions(&request.options),
            gate: None,
        },
    )
}

/// The decision on an operation, where nothing is denied, granted or receipted. Without an
/// acknowledged policy it is the one of the asking mode.
pub open spec fn gate_decision(
    policy: Option<SnapshotModel>,
    classification: TrustedClassification,
) -> PermissionDecision {
    (DecisionInput {
        mode: match policy {
            Some(policy) => policy.mode,
            None => PermissionMode::Default,
        },
        classification,
        explicit_deny: false,
        exact_grant: false,
        authority_receipt_verified: false,
        capabilities: match policy {
            Some(policy) => policy.capabilities,
            None => CommandEveCapabilities {
                trusted_classification: true,
                policy_handshake: false,
                guarded_auto: false,
                versioned_grant_store: false,
                revocation: false,
            },
        },
    }).decision()
}

/// Whether an operation of a class can be granted for a session.
pub open spec fn can_be_granted(class: OperationClass) -> bool {
    class == OperationClass::RoutineEdit || class == OperationClass::RoutineTerminal
}

/// How an operation is gated.
pub open spec fn operation_gate(
    policy: Option<SnapshotModel>,
    classification: TrustedClassification,
    digest: Seq<char>,
    nonce: Seq<char>,
) -> GateModel {
    let decision = gate_decision(policy, classification);
    GateModel {
        operation_digest: digest,
        policy,
        classification,
        decision,
        grant_eligible: can_be_granted(classification.class),
        authority_nonce: if policy is Some && decision is RequireAuthority {
            Some(nonce)
        } else {
            None
        },
    }
}

/// The mode that an operation's digest covers.
pub open spec fn digest_mode(policy: Option<SnapshotModel>) -> Seq<char> {
    match policy {
        Some(policy) => mode_name(policy.mode),
        None => Seq::empty(),
    }
}

/// The authority of a request that is decided under a policy.
pub open spec fn gated_authority(
    policy: Option<SnapshotModel>,
    workspace: Seq<char>,
    canonical_workspace: Seq<char>,
    rules: RulesModel,
    within: bool,
    request: PermissionRequestModel,
    nonce: Seq<char>,
) -> AuthorityModel {
    let class = classification(request, workspace, rules, within);
    let digest = operation_digest_of(canonical_workspace, HERMES_BACKEND@, digest_mode(policy), request);
    AuthorityModel {
        grant_key: if policy is Some && can_be_granted(class.class) {
            Some(digest)
        } else {
            None
        },
        allow_once: first_of_kind(request.options, PermissionOptionKind::AllowOnce),
        reject_once: first_of_kind(request.options, PermissionOptionKind::RejectOnce),
        dispositions: dispositions_of(request.options),
        gate: Some(operation_gate(policy, class, digest, nonce)),
    }
}

/// Builds the authority of a request of the Command EVE backend under the policy of its turn. The
/// request is classified in the workspace as it is named; the digest of the operation binds
/// `canonical_workspace`, which is the same folder without links.
/// `rules` and `within` are what the classification needs to know, and `nonce` is used once, by whoever has the
/// authority that the operation requires.
pub fn build_gated_authority(
    backend: Option<&str>,
    policy: Option<PolicySnapshot>,
    workspace: &str,
    canonical_workspace: &str,
    rules: &PathRules,
    within: bool,
    request: &RequestPermissionRequest,
    nonce: &str,
) -> (r: Option<CommandEveAuthority>)
    ensures
        authority_view(r) == if str_view(backend) == Some(HERMES_BACKEND@) {
            Some(
                gated_authority(
                    snapshot_view(policy),
                    workspace@,
                    canonical_workspace@,
                    rules@,
                    within,
                    request@,
                    nonce@,
                ),
            )
        } else {
            None
        },
{
    if !is_hermes(backend) {
        return None;
    }
    let class = classify_request(request, workspace, rules, within);
    let (mode, mode_text, capabilities) = match &policy {
        Some(policy) => (policy.mode, policy.mode.as_str(), policy.capabilities),
        None => {
            proof {
                reveal_strlit("");
                assert(""@ =~= Seq::<char>::empty());
            }
            (
                PermissionMode::Default,
                "",
                CommandEveCapabilities {
                    trusted_classification: true,
                    policy_handshake: false,
                    guarded_auto: false,
                    versioned_grant_store: false,
                    revocation: false,
                },
            )
        },
    };
    let digest = operation_digest(canonical_workspace, HERMES_BACKEND, mode_text, request);
    let decision = decide(
        DecisionInput {
            mode,
            classification: class,
            explicit_deny: false,
            exact_grant: false,
            authority_receipt_verified: false,
            capabilities,
        },
    );
    let grant_eligible = class.class == OperationClass::RoutineEdit || class.class
        == OperationClass::RoutineTerminal;
    let requires_authority = match decision {
        PermissionDecision::RequireAuthority(_) => true,
        _ => false,
    };
    Some(
        CommandEveAuthority {
            grant_key: if policy.is_some() && grant_eligible {
                Some(digest.clone())
            } else {
                None
            },
            allow_once_option_id: find_option(&request.options, PermissionOptionKind::AllowOnce),
            reject_once_option_id: find_option(&request.options, PermissionOptionKind::RejectOnce),
            option_dispositions: collect_dispositions(&request.options),
            gate: Some(
                OperationGate {
                    operation_digest: digest,
                    authority_nonce: if policy.is_some() && requires_authority {
                        Some(nonce.to_owned())
                    } else {
                        None
                    },
                    policy,
                    classification: class,
                    decision,
                    grant_eligible,
                },
            ),
        },
    )
}

/// How a permission stands.
#[derive(Debug, Clone, Copy, PartialEq, Eq, Structural)]
pub enum ConfirmationLifecycle {
    Pending,
    Allowed,
    Denied,
    Expired,
    Cancelled,
    Superseded,
}

impl ConfirmationLifecycle {
    /// The name of the state.
    pub open spec fn name(self) -> Seq<char> {
        match self {
            ConfirmationLifecycle::Pending => "pending"@,
            ConfirmationLifecycle::Allowed => "allowed"@,
            ConfirmationLifecycle::Denied => "denied"@,
            ConfirmationLifecycle::Expired => "expired"@,
            ConfirmationLifecycle::Cancelled => "cancelled"@,
            ConfirmationLifecycle::Superseded => "superseded"@,
        }
    }

    pub fn as_str(self) -> (r: &'static str)
        ensures
            r@ == self.name(),
    {
        match self {
            ConfirmationLifecycle::Pending => "pending",
            ConfirmationLifecycle::Allowed => "allowed",
            ConfirmationLifecycle::Denied => "denied",
            ConfirmationLifecycle::Expired => "expired",
            ConfirmationLifecycle::Cancelled => "cancelled",
            ConfirmationLifecycle::Superseded => "superseded",
        }
    }

    /// Whether the permission was answered or taken back, so that its card is gone.
    pub open spec fn is_resolved(self) -> bool {
        self == ConfirmationLifecycle::Allowed || self == ConfirmationLifecycle::Denied || self
            == ConfirmationLifecycle::Cancelled
    }

    fn resolved(self) -> (r: bool)
        ensures
            r == self.is_resolved(),
    {
        match self {
            ConfirmationLifecycle::Allowed => true,
            ConfirmationLifecycle::Denied => true,
            ConfirmationLifecycle::Cancelled => true,
            _ => false,
        }
    }
}

/// Who used an authority, at which level, on which operation.
#[derive(Debug)]
pub struct AuthorityReceipt {
    pub operation_digest: String,
    pub required_level: RequiredAuthority,
    pub principal: String,
}

/// What an authority receipt says.
pub struct AuthorityReceiptModel {
    pub operation_digest: Seq<char>,
    pub required_level: RequiredAuthority,
    pub principal: Seq<char>,
}

/// What an optional authority receipt says.
pub open spec fn authority_receipt_view(receipt: Option<AuthorityReceipt>) -> Option<
    AuthorityReceiptModel,
> {
    match receipt {
        Some(receipt) => Some(
            AuthorityReceiptModel {
                operation_digest: receipt.operation_digest@,
                required_level: receipt.required_level,
                principal: receipt.principal@,
            },
        ),
        None => None,
    }
}

/// A permission that is asked for, or was.
#[derive(Debug)]
pub struct PendingPermission {
    pub call_id: String,
    pub confirmation: Confirmation,
    pub command_eve: Option<CommandEveAuthority>,
    pub conversation_id: String,
    pub expires_at_ms: Option<u64>,
    pub nonce: u64,
    pub responder_open: bool,
    pub lifecycle: ConfirmationLifecycle,
    pub chosen_option_id: Option<String>,
    pub authority_receipt: Option<AuthorityReceipt>,
}

/// What is known of a permission.
pub struct PendingModel {
    pub call_id: Seq<char>,
    pub card: CardModel,
    pub authority: Option<AuthorityModel>,
    pub conversation: Seq<char>,
    pub expires_at: Option<u64>,
    pub nonce: u64,
    pub open: bool,
    pub lifecycle: ConfirmationLifecycle,
    pub chosen: Option<Seq<char>>,
    pub receipt: Option<AuthorityReceiptModel>,
}

impl View for PendingPermission {
    type V = PendingModel;

    open spec fn view(&self) -> PendingModel {
        PendingModel {
            call_id: self.call_id@,
            card: self.confirmation@,
            authority: authority_view(self.command_eve),
            conversation: self.conversation_id@,
            expires_at: self.expires_at_ms,
            nonce: self.nonce,
            open: self.responder_open,
            lifecycle: self.lifecycle,
            chosen: text_view(self.chosen_option_id),
            receipt: authority_receipt_view(self.authority_receipt),
        }
    }
}

/// What is known of a list of permissions.
pub open spec fn pending_view(pending: Seq<PendingPermission>) -> Seq<PendingModel> {
    pending.map_values(|permission: PendingPermission| permission@)
}

/// An allowance for a session: only for the exact operation, under the same policy.
#[derive(Debug, Clone, Copy, PartialEq, Eq, Structural)]
pub struct SessionGrant {
    pub policy_revision: u64,
    pub session_epoch: u64,
    pub expires_at_ms: Option<u64>,
    pub revoked: bool,
}

/// What a router knows.
pub struct RouterModel {
    pub pending: Seq<PendingModel>,
    pub grants: Map<Seq<char>, SessionGrant>,
    pub next_nonce: u64,
    pub closing: bool,
    pub policy: Option<SnapshotModel>,
    pub used_nonces: Seq<Seq<char>>,
}

/// A card in another state than the pending one: it says so, and offers nothing.
pub open spec fn settled_card(card: CardModel, lifecycle: ConfirmationLifecycle) -> CardModel {
    CardModel {
        action: Some(lifecycle.name()),
        options: Seq::empty(),
        authority: match card.authority {
            Some(metadata) => Some(MetadataModel { lifecycle: lifecycle.name(), ..metadata }),
            None => None,
        },
        ..card
    }
}

impl PendingModel {
    /// The permission in another state than the pending one.
    pub open spec fn settled(self, lifecycle: ConfirmationLifecycle) -> PendingModel {
        PendingModel {
            card: settled_card(self.card, lifecycle),
            open: false,
            lifecycle,
            ..self
        }
    }

    /// Whether the permission has waited too long.
    pub open spec fn is_due(self, now_ms: u64) -> bool {
        &&& self.lifecycle == ConfirmationLifecycle::Pending
        &&& self.open
        &&& self.expires_at is Some
        &&& self.expires_at->0 <= now_ms
    }

    /// Whether the permission was asked for under another policy.
    pub open spec fn is_outdated(self, policy_revision: u64, session_epoch: u64) -> bool {
        &&& self.lifecycle == ConfirmationLifecycle::Pending
        &&& self.authority is Some
        &&& self.authority->0.gate is Some
        &&& {
            ||| self.authority->0.gate->0.policy is None
            ||| self.authority->0.policy_key() != (policy_revision, session_epoch)
        }
    }
}

/// What ends many permissions at once.
#[derive(Debug, Clone, Copy, PartialEq, Eq, Structural)]
pub enum SettleRule {
    /// Those that have waited too long expire.
    Due { now_ms: u64 },
    /// Those that were asked for under another policy are superseded.
    Policy { policy_revision: u64, session_epoch: u64 },
    /// Those of the Command EVE backend are superseded.
    CommandEve,
    /// All are cancelled.
    All,
}

impl SettleRule {
    /// Whether the rule ends a permission.
    pub open spec fn applies(self, permission: PendingModel) -> bool {
        match self {
            SettleRule::Due { now_ms } => permission.is_due(now_ms),
            SettleRule::Policy { policy_revision, session_epoch } => permission.is_outdated(
                policy_revision,
                session_epoch,
            ),
            SettleRule::CommandEve => permission.lifecycle == ConfirmationLifecycle::Pending
                && permission.authority is Some,
            SettleRule::All => permission.lifecycle == ConfirmationLifecycle::Pending,
        }
    }

    /// The state in which the rule ends a permission.
    pub open spec fn target(self) -> ConfirmationLifecycle {
        match self {
            SettleRule::Due { now_ms } => ConfirmationLifecycle::Expired,
            SettleRule::All => ConfirmationLifecycle::Cancelled,
            _ => ConfirmationLifecycle::Superseded,
        }
    }

    /// What becomes of a permission.
    pub open spec fn outcome(self, permission: PendingModel) -> PendingModel {
        if self.applies(permission) {
            permission.settled(self.target())
        } else {
            permission
        }
    }

    /// What becomes of all permissions.
    pub open spec fn outcomes(self, pending: Seq<PendingModel>) -> Seq<PendingModel> {
        pending.map_values(|permission: PendingModel| self.outcome(permission))
    }

    /// The permissions that the rule ends, as they are told: the call, whether somebody waits for
    /// the answer, and the card.
    pub open spec fn notices(self, pending: Seq<PendingModel>) -> Seq<NoticeModel>
        decreases pending.len(),
    {
        if pending.len() == 0 {
            Seq::empty()
        } else {
            let front = self.notices(pending.drop_last());
            let last = pending.last();
            if self.applies(last) {
                front.push(
                    NoticeModel {
                        call_id: last.call_id,
                        responder_open: last.open,
                        card: settled_card(last.card, self.target()),
                    },
                )
            } else {
                front
            }
        }
    }
}

/// What is told of a permission that has ended, as text.
pub struct NoticeModel {
    pub call_id: Seq<char>,
    pub responder_open: bool,
    pub card: CardModel,
}

/// A permission that has ended without an answer: the responder, where one waits, gets a
/// cancellation, and the card is shown.
#[derive(Debug)]
pub struct SettledNotice {
    pub call_id: String,
    pub responder_open: bool,
    pub confirmation: Confirmation,
}

/// What a list of notices tells.
pub open spec fn notices_view(notices: Seq<SettledNotice>) -> Seq<NoticeModel> {
    notices.map_values(
        |notice: SettledNotice|
            NoticeModel {
                call_id: notice.call_id@,
                responder_open: notice.responder_open,
                card: notice.confirmation@,
            },
    )
}

/// How many permissions are kept that have ended.
pub const MAX_TERMINAL_CONFIRMATION_HISTORY: usize = 256;

/// How many permissions have ended.
pub open spec fn terminal_count(pending: Seq<PendingModel>) -> nat
    decreases pending.len(),
{
    if pending.len() == 0 {
        0
    } else {
        terminal_count(pending.drop_last()) + if pending.last().lifecycle
            != ConfirmationLifecycle::Pending {
            1nat
        } else {
            0nat
        }
    }
}

/// The position of the oldest permission that was answered or taken back.
pub open spec fn oldest_resolved(pending: Seq<PendingModel>) -> nat
    decreases pending.len(),
{
    if pending.len() == 0 || pending[0].lifecycle.is_resolved() {
        0
    } else {
        1 + oldest_resolved(pending.drop_first())
    }
}

/// The position of the oldest permission that has ended.
pub open spec fn oldest_terminal(pending: Seq<PendingModel>) -> nat
    decreases pending.len(),
{
    if pending.len() == 0 || pending[0].lifecycle != ConfirmationLifecycle::Pending {
        0
    } else {
        1 + oldest_terminal(pending.drop_first())
    }
}

/// The permission to be forgotten first: the oldest one without a card, else the oldest that has
/// ended.
pub open spec fn first_to_forget(pending: Seq<PendingModel>) -> nat {
    if oldest_resolved(pending) < pending.len() {
        oldest_resolved(pending)
    } else {
        oldest_terminal(pending)
    }
}

/// The permissions with no more ended ones than are kept.
pub open spec fn pruned(pending: Seq<PendingModel>) -> Seq<PendingModel>
    decreases pending.len(),
{
    if terminal_count(pending) <= MAX_TERMINAL_CONFIRMATION_HISTORY || first_to_forget(pending)
        >= pending.len() {
        pending
    } else {
        pruned(pending.remove(first_to_forget(pending) as int))
    }
}

/// The position of a call among the permissions; behind the last where it is not there.
pub open spec fn call_index(pending: Seq<PendingModel>, call_id: Seq<char>) -> nat
    decreases pending.len(),
{
    if pending.len() == 0 || pending[0].call_id == call_id {
        0
    } else {
        1 + call_index(pending.drop_first(), call_id)
    }
}

/// Whether every call occurs once.
pub open spec fn distinct_calls(pending: Seq<PendingModel>) -> bool {
    forall|i: int, j: int|
        0 <= i < pending.len() && 0 <= j < pending.len() && (#[trigger] pending[i]).call_id == (
        #[trigger] pending[j]).call_id ==> i == j
}

/// The permissions that were answered or taken back.
pub open spec fn resolved_only(pending: Seq<PendingModel>) -> Seq<PendingModel>
    decreases pending.len(),
{
    if pending.len() == 0 {
        Seq::empty()
    } else if pending.last().lifecycle.is_resolved() {
        resolved_only(pending.drop_last()).push(pending.last())
    } else {
        resolved_only(pending.drop_last())
    }
}

/// What choosing an answer would do.
pub enum ChoiceModel {
    Unknown,
    Permanent,
    Gated,
    NoAllowOnce,
    NoGrantKey,
    Forward { option_id: Seq<char>, grant_key: Option<Seq<char>>, allowed: bool },
}

impl PendingModel {
    /// What choosing an answer would do. Only the answers that the request offers count; an
    /// allowance for the session is forwarded as a single one.
    pub open spec fn choice(self, option_id: Seq<char>) -> ChoiceModel {
        match self.authority {
            None => ChoiceModel::Forward { option_id, grant_key: None, allowed: true },
            Some(authority) => match disposition_of(authority.dispositions, option_id) {
                None => ChoiceModel::Unknown,
                Some(OptionDisposition::RejectOnce) => ChoiceModel::Forward {
                    option_id,
                    grant_key: None,
                    allowed: false,
                },
                Some(OptionDisposition::UnsupportedPermanent) => ChoiceModel::Permanent,
                Some(OptionDisposition::AllowOnce) => if authority.gated() {
                    ChoiceModel::Gated
                } else {
                    ChoiceModel::Forward { option_id, grant_key: None, allowed: true }
                },
                Some(OptionDisposition::ExactSession) => if authority.gated() {
                    ChoiceModel::Gated
                } else if authority.allow_once is None {
                    ChoiceModel::NoAllowOnce
                } else if authority.grant_key is None {
                    ChoiceModel::NoGrantKey
                } else {
                    ChoiceModel::Forward {
                        option_id: authority.allow_once->0,
                        grant_key: authority.grant_key,
                        allowed: true,
                    }
                },
            },
        }
    }
}

/// What an answer of a user comes to.
pub enum ResponseModel {
    Missing,
    WrongSession,
    Settled { lifecycle: ConfirmationLifecycle, same_choice: bool },
    Gone,
    UnknownOption,
    Permanent,
    Gated,
    NoAllowOnce,
    NoGrantKey,
    Forwarded { option_id: Seq<char> },
}

impl RouterModel {
    /// The position of a call.
    pub open spec fn index(self, call_id: Seq<char>) -> int {
        call_index(self.pending, call_id) as int
    }

    /// Whether a call is known.
    pub open spec fn knows(self, call_id: Seq<char>) -> bool {
        self.index(call_id) < self.pending.len()
    }

    /// The permission of a call.
    pub open spec fn permission(self, call_id: Seq<char>) -> PendingModel {
        self.pending[self.index(call_id)]
    }

    /// With the permission of a call in another form.
    pub open spec fn with_permission(self, call_id: Seq<char>, permission: PendingModel) -> RouterModel {
        RouterModel {
            pending: pruned(self.pending.update(self.index(call_id), permission)),
            ..self
        }
    }

    /// After a rule has ended what it ends.
    pub open spec fn settled(self, rule: SettleRule) -> RouterModel {
        RouterModel { pending: pruned(rule.outcomes(self.pending)), ..self }
    }

    /// What an answer comes to. Where `conversation` is given, a Command EVE request counts only
    /// in its own one. `delivered` says whether the responder takes the answer.
    pub open spec fn response(
        self,
        call_id: Seq<char>,
        option_id: Seq<char>,
        conversation: Option<Seq<char>>,
        delivered: bool,
    ) -> ResponseModel {
        if !self.knows(call_id) {
            ResponseModel::Missing
        } else {
            let permission = self.permission(call_id);
            if conversation is Some && permission.authority is Some && permission.conversation
                != conversation->0 {
                ResponseModel::WrongSession
            } else if permission.lifecycle != ConfirmationLifecycle::Pending {
                ResponseModel::Settled {
                    lifecycle: permission.lifecycle,
                    same_choice: permission.chosen == Some(option_id),
                }
            } else if !permission.open {
                ResponseModel::Gone
            } else {
                match permission.choice(option_id) {
                    ChoiceModel::Unknown => ResponseModel::UnknownOption,
                    ChoiceModel::Permanent => ResponseModel::Permanent,
                    ChoiceModel::Gated => ResponseModel::Gated,
                    ChoiceModel::NoAllowOnce => ResponseModel::NoAllowOnce,
                    ChoiceModel::NoGrantKey => ResponseModel::NoGrantKey,
                    ChoiceModel::Forward { option_id, grant_key, allowed } => if delivered {
                        ResponseModel::Forwarded { option_id }
                    } else {
                        ResponseModel::Gone
                    },
                }
            }
        }
    }

    /// Whether an answer would be forwarded, if the responder takes it.
    pub open spec fn would_forward(
        self,
        call_id: Seq<char>,
        option_id: Seq<char>,
        conversation: Option<Seq<char>>,
    ) -> bool {
        self.response(call_id, option_id, conversation, true) is Forwarded
    }

    /// What is told of an answer that its responder did not take: the permission has expired.
    pub open spec fn undelivered(
        self,
        call_id: Seq<char>,
        option_id: Seq<char>,
        conversation: Option<Seq<char>>,
        delivered: bool,
    ) -> Seq<NoticeModel> {
        if self.would_forward(call_id, option_id, conversation) && !delivered {
            seq![
                NoticeModel {
                    call_id,
                    responder_open: false,
                    card: settled_card(
                        self.permission(call_id).card,
                        ConfirmationLifecycle::Expired,
                    ),
                },
            ]
        } else {
            Seq::empty()
        }
    }

    /// After an answer.
    pub open spec fn responded(
        self,
        call_id: Seq<char>,
        option_id: Seq<char>,
        conversation: Option<Seq<char>>,
        delivered: bool,
    ) -> RouterModel {
        if !self.would_forward(call_id, option_id, conversation) {
            self
        } else {
            let permission = self.permission(call_id);
            if !delivered {
                self.with_permission(call_id, permission.settled(ConfirmationLifecycle::Expired))
            } else {
                let choice = permission.choice(option_id);
                let lifecycle = if choice->allowed {
                    ConfirmationLifecycle::Allowed
                } else {
                    ConfirmationLifecycle::Denied
                };
                let answered = PendingModel {
                    chosen: Some(option_id),
                    ..permission.settled(lifecycle)
                };
                RouterModel {
                    grants: match choice->grant_key {
                        Some(grant_key) => self.grants.insert(
                            grant_key,
                            SessionGrant {
                                policy_revision: permission.authority->0.policy_key().0,
                                session_epoch: permission.authority->0.policy_key().1,
                                expires_at_ms: None,
                                revoked: false,
                            },
                        ),
                        None => self.grants,
                    },
                    ..self.with_permission(call_id, answered)
                }
            }
        }
    }

    /// Whether a grant covers an operation now.
    pub open spec fn covers(self, authority: AuthorityModel, now_ms: u64) -> bool {
        &&& authority.grant_key is Some
        &&& self.grants.dom().contains(authority.grant_key->0)
        &&& !self.grants[authority.grant_key->0].revoked
        &&& (self.grants[authority.grant_key->0].expires_at_ms is Some ==> now_ms
            < self.grants[authority.grant_key->0].expires_at_ms->0)
        &&& (
            self.grants[authority.grant_key->0].policy_revision,
            self.grants[authority.grant_key->0].session_epoch,
        ) == authority.policy_key()
    }

    /// Whether a policy is the current one.
    pub open spec fn is_current(self, policy: Option<SnapshotModel>) -> bool {
        &&& policy is Some
        &&& self.policy is Some
        &&& policy->0.policy_revision == self.policy->0.policy_revision
        &&& policy->0.session_epoch == self.policy->0.session_epoch
    }

    /// Under a policy. What was asked for or granted under another one ends.
    pub open spec fn under_policy(self, policy: SnapshotModel) -> RouterModel {
        RouterModel {
            grants: if self.is_current(Some(policy)) {
                self.grants
            } else {
                Map::empty()
            },
            policy: Some(policy),
            ..self.settled(
                SettleRule::Policy {
                    policy_revision: policy.policy_revision,
                    session_epoch: policy.session_epoch,
                },
            )
        }
    }

    /// Without a policy. What the Command EVE backend asked for, and every grant, ends.
    pub open spec fn without_policy(self) -> RouterModel {
        RouterModel { grants: Map::empty(), policy: None, ..self.settled(SettleRule::CommandEve) }
    }

    /// With everything taken back. What was answered or taken back is still known, so that a late
    /// answer to it is recognised; every other card goes.
    pub open spec fn cancelled(self) -> RouterModel {
        RouterModel {
            pending: resolved_only(self.settled(SettleRule::All).pending),
            grants: Map::empty(),
            policy: None,
            ..self
        }
    }

    /// Every call is known once.
    pub open spec fn wf(self) -> bool {
        distinct_calls(self.pending)
    }
}

/// The router of one conversation's permission requests.
pub struct PermissionRouter {
    pending: Vec<PendingPermission>,
    session_grants: TextMap<SessionGrant>,
    next_nonce: u64,
    closing: bool,
    current_policy: Option<PolicySnapshot>,
    used_authority_nonces: Vec<String>,
}

/// The texts of a list.
pub open spec fn texts(list: Seq<String>) -> Seq<Seq<char>> {
    list.map_values(|text: String| text@)
}

impl View for PermissionRouter {
    type V = RouterModel;

    closed spec fn view(&self) -> RouterModel {
        RouterModel {
            pending: pending_view(self.pending@),
            grants: self.session_grants@,
            next_nonce: self.next_nonce,
            closing: self.closing,
            policy: snapshot_view(self.current_policy),
            used_nonces: texts(self.used_authority_nonces@),
        }
    }
}

/// Puts a card into another state than the pending one.
fn settle_card(card: &mut Confirmation, lifecycle: ConfirmationLifecycle)
    ensures
        final(card)@ == settled_card(old(card)@, lifecycle),
{
    card.action = Some(lifecycle.as_str().to_owned());
    card.options = Vec::new();
    if let Some(metadata) = &card.authority {
        let mut metadata = metadata.clone();
        metadata.lifecycle = lifecycle.as_str().to_owned();
        card.authority = Some(metadata);
    }
    assert(card@.options =~= Seq::<CardOption>::empty());
}

/// Ends a permission.
fn settle(permission: &mut PendingPermission, lifecycle: ConfirmationLifecycle)
    ensures
        final(permission)@ == old(permission)@.settled(lifecycle),
{
    permission.responder_open = false;
    permission.lifecycle = lifecycle;
    settle_card(&mut permission.confirmation, lifecycle);
}

fn rule_applies(rule: SettleRule, permission: &PendingPermission) -> (r: bool)
    ensures
        r == rule.applies(permission@),
{
    if permission.lifecycle != ConfirmationLifecycle::Pending {
        return false;
    }
    match rule {
        SettleRule::Due { now_ms } => match permission.expires_at_ms {
            Some(expires_at_ms) => permission.responder_open && expires_at_ms <= now_ms,
            None => false,
        },
        SettleRule::Policy { policy_revision, session_epoch } => match &permission.command_eve {
            Some(authority) => match &authority.gate {
                Some(gate) => match &gate.policy {
                    Some(policy) => policy.policy_revision != policy_revision
                        || policy.session_epoch != session_epoch,
                    None => true,
                },
                None => false,
            },
            None => false,
        },
        SettleRule::CommandEve => permission.command_eve.is_some(),
        SettleRule::All => true,
    }
}

fn rule_target(rule: SettleRule) -> (r: ConfirmationLifecycle)
    ensures
        r == rule.target(),
{
    match rule {
        SettleRule::Due { now_ms: _ } => ConfirmationLifecycle::Expired,
        SettleRule::All => ConfirmationLifecycle::Cancelled,
        _ => ConfirmationLifecycle::Superseded,
    }
}

proof fn lemma_call_index(pending: Seq<PendingModel>, call_id: Seq<char>, at: int)
    requires
        0 <= at <= pending.len(),
        forall|i: int| 0 <= i < at ==> (#[trigger] pending[i]).call_id != call_id,
        at < pending.len() ==> pending[at].call_id == call_id,
    ensures
        call_index(pending, call_id) == at,
    decreases at,
{
    if at > 0 {
        assert(pending[0].call_id != call_id);
        let rest = pending.drop_first();
        assert forall|i: int| 0 <= i < at - 1 implies (#[trigger] rest[i]).call_id != call_id by {
            assert(rest[i] == pending[i + 1]);
        }
        lemma_call_index(rest, call_id, at - 1);
    }
}

proof fn lemma_oldest_resolved(pending: Seq<PendingModel>, at: int)
    requires
        0 <= at <= pending.len(),
        forall|i: int| 0 <= i < at ==> !(#[trigger] pending[i]).lifecycle.is_resolved(),
        at < pending.len() ==> pending[at].lifecycle.is_resolved(),
    ensures
        oldest_resolved(pending) == at,
    decreases at,
{
    if at > 0 {
        assert(!pending[0].lifecycle.is_resolved());
        let rest = pending.drop_first();
        assert forall|i: int| 0 <= i < at - 1 implies !(
        #[trigger] rest[i]).lifecycle.is_resolved() by {
            assert(rest[i] == pending[i + 1]);
        }
        lemma_oldest_resolved(rest, at - 1);
    }
}

proof fn lemma_oldest_terminal(pending: Seq<PendingModel>, at: int)
    requires
        0 <= at <= pending.len(),
        forall|i: int|
            0 <= i < at ==> (#[trigger] pending[i]).lifecycle == ConfirmationLifecycle::Pending,
        at < pending.len() ==> pending[at].lifecycle != ConfirmationLifecycle::Pending,
    ensures
        oldest_terminal(pending) == at,
    decreases at,
{
    if at > 0 {
        assert(pending[0].lifecycle == ConfirmationLifecycle::Pending);
        let rest = pending.drop_first();
        assert forall|i: int| 0 <= i < at - 1 implies (#[trigger] rest[i]).lifecycle
            == ConfirmationLifecycle::Pending by {
            assert(rest[i] == pending[i + 1]);
        }
        lemma_oldest_terminal(rest, at - 1);
    }
}

fn count_terminal(pending: &Vec<PendingPermission>) -> (r: usize)
    ensures
        r == terminal_count(pending_view(pending@)),
{
    let ghost held = pending_view(pending@);
    let mut count: usize = 0;
    let mut i: usize = 0;
    assert(held.subrange(0, 0) =~= Seq::<PendingModel>::empty());
    while i < pending.len()
        invariant
            i <= pending@.len(),
            held == pending_view(pending@),
            count <= i,
            count == terminal_count(held.subrange(0, i as int)),
        decreases pending@.len() - i,
    {
        let ghost upto = held.subrange(0, i + 1);
        assert(upto.drop_last() =~= held.subrange(0, i as int));
        assert(upto.last() == pending@[i as int]@);
        if pending[i].lifecycle != ConfirmationLifecycle::Pending {
            count = count + 1;
        }
        i = i + 1;
    }
    assert(held.subrange(0, held.len() as int) =~= held);
    count
}

fn find_first_to_forget(pending: &Vec<PendingPermission>) -> (r: usize)
    ensures
        r == first_to_forget(pending_view(pending@)),
        r <= pending@.len(),
{
    let ghost held = pending_view(pending@);
    let mut i: usize = 0;
    while i < pending.len() && !pending[i].lifecycle.resolved()
        invariant
            i <= pending@.len(),
            held == pending_view(pending@),
            forall|j: int| 0 <= j < i ==> !(#[trigger] held[j]).lifecycle.is_resolved(),
        decreases pending@.len() - i,
    {
        assert(held[i as int] == pending@[i as int]@);
        i = i + 1;
    }
    proof {
        if i < pending@.len() {
            assert(held[i as int] == pending@[i as int]@);
        }
        lemma_oldest_resolved(held, i as int);
    }
    if i < pending.len() {
        return i;
    }
    let mut k: usize = 0;
    while k < pending.len() && pending[k].lifecycle == ConfirmationLifecycle::Pending
        invariant
            k <= pending@.len(),
            held == pending_view(pending@),
            forall|j: int|
                0 <= j < k ==> (#[trigger] held[j]).lifecycle == ConfirmationLifecycle::Pending,
        decreases pending@.len() - k,
    {
        assert(held[k as int] == pending@[k as int]@);
        k = k + 1;
    }
    proof {
        if k < pending@.len() {
            assert(held[k as int] == pending@[k as int]@);
        }
        lemma_oldest_terminal(held, k as int);
    }
    k
}

/// Forgets what need not be kept.
fn prune(pending: &mut Vec<PendingPermission>)
    ensures
        pending_view(final(pending)@) == pruned(pending_view(old(pending)@)),
{
    let mut count: usize = count_terminal(pending);
    let mut at: usize = find_first_to_forget(pending);
    while count > MAX_TERMINAL_CONFIRMATION_HISTORY && at < pending.len()
        invariant
            count == terminal_count(pending_view(pending@)),
            at == first_to_forget(pending_view(pending@)),
            pruned(pending_view(pending@)) == pruned(pending_view(old(pending)@)),
        decreases pending@.len(),
    {
        let ghost before = pending_view(pending@);
        let _ = pending.remove(at);
        assert(pending_view(pending@) =~= before.remove(at as int));
        count = count_terminal(pending);
        at = find_first_to_forget(pending);
    }
}

proof fn lemma_resolved_only(pending: Seq<PendingModel>)
    ensures
        resolved_only(pending).len() <= pending.len(),
        forall|i: int|
            0 <= i < resolved_only(pending).len() ==> {
                &&& (#[trigger] resolved_only(pending)[i]).lifecycle.is_resolved()
                &&& pending.contains(resolved_only(pending)[i])
            },
        distinct_calls(pending) ==> distinct_calls(resolved_only(pending)),
    decreases pending.len(),
{
    if pending.len() > 0 {
        let front = pending.drop_last();
        lemma_resolved_only(front);
        let kept = resolved_only(front);
        assert forall|i: int| 0 <= i < kept.len() implies pending.contains(#[trigger] kept[i]) by {
            assert(front.contains(kept[i]));
            let j = choose|j: int| 0 <= j < front.len() && front[j] == kept[i];
            assert(pending[j] == kept[i]);
        }
        assert(pending[pending.len() - 1] == pending.last());
        if distinct_calls(pending) {
            assert(distinct_calls(front)) by {
                assert forall|i: int, j: int|
                    0 <= i < front.len() && 0 <= j < front.len() && (#[trigger] front[i]).call_id
                        == (#[trigger] front[j]).call_id implies i == j by {
                    assert(pending[i] == front[i] && pending[j] == front[j]);
                }
            }
            assert forall|i: int| 0 <= i < kept.len() implies (#[trigger] kept[i]).call_id
                != pending.last().call_id by {
                assert(front.contains(kept[i]));
                let j = choose|j: int| 0 <= j < front.len() && front[j] == kept[i];
                assert(pending[j].call_id == kept[i].call_id);
                assert(pending[pending.len() - 1] == pending.last());
            }
        }
    }
}

/// Forgets the permissions whose cards are shown.
fn drop_shown(pending: &mut Vec<PendingPermission>)
    ensures
        pending_view(final(pending)@) == resolved_only(pending_view(old(pending)@)),
{
    let ghost whole = pending_view(pending@);
    let mut at: usize = pending.len();
    assert(whole.subrange(0, whole.len() as int) =~= whole);
    assert(resolved_only(whole) + Seq::<PendingModel>::empty() =~= resolved_only(whole));
    assert(whole.subrange(0, at as int) + Seq::<PendingModel>::empty() =~= whole);
    let ghost mut kept: Seq<PendingModel> = Seq::empty();
    while at > 0
        invariant
            at <= whole.len(),
            at <= pending@.len(),
            pending_view(pending@) == whole.subrange(0, at as int) + kept,
            resolved_only(whole) == resolved_only(whole.subrange(0, at as int)) + kept,
        decreases at,
    {
        let ghost upto = whole.subrange(0, at as int);
        let ghost before = pending_view(pending@);
        at = at - 1;
        proof {
            assert(upto.drop_last() =~= whole.subrange(0, at as int));
            assert(before[at as int] == upto.last());
            assert(pending@[at as int]@ == before[at as int]);
        }
        if pending[at].lifecycle.resolved() {
            proof {
                let last = upto.last();
                assert(whole.subrange(0, at as int) + (seq![last] + kept) =~= before);
                assert(resolved_only(upto.drop_last()) + (seq![last] + kept) =~= resolved_only(upto)
                    + kept);
                kept = seq![last] + kept;
            }
        } else {
            let _ = pending.remove(at);
            proof {
                assert(pending_view(pending@) =~= before.remove(at as int));
                assert(before.remove(at as int) =~= whole.subrange(0, at as int) + kept);
            }
        }
    }
    proof {
        assert(whole.subrange(0, 0) =~= Seq::<PendingModel>::empty());
        assert(whole.subrange(0, 0) + kept =~= kept);
        assert(Seq::<PendingModel>::empty() + kept =~= kept);
    }
}

impl PermissionRouter {
    pub closed spec fn wf(&self) -> bool {
        self.session_grants.wf()
    }

    pub fn new() -> (r: Self)
        ensures
            r.wf(),
            r@.wf(),
            r@ == (RouterModel {
                pending: Seq::empty(),
                grants: Map::empty(),
                next_nonce: 1,
                closing: false,
                policy: None,
                used_nonces: Seq::empty(),
            }),
    {
        let r = PermissionRouter {
            pending: Vec::new(),
            session_grants: TextMap::new(),
            next_nonce: 1,
            closing: false,
            current_policy: None,
            used_authority_nonces: Vec::new(),
        };
        assert(r@.pending =~= Seq::<PendingModel>::empty());
        assert(r@.used_nonces =~= Seq::<Seq<char>>::empty());
        r
    }

    fn find_call(&self, call_id: &str) -> (r: usize)
        ensures
            r == self@.index(call_id@),
            r <= self.pending@.len(),
    {
        let ghost held = pending_view(self.pending@);
        let mut i: usize = 0;
        while i < self.pending.len() && !same_text(self.pending[i].call_id.as_str(), call_id)
            invariant
                i <= self.pending@.len(),
                held == pending_view(self.pending@),
                forall|j: int| 0 <= j < i ==> (#[trigger] held[j]).call_id != call_id@,
            decreases self.pending@.len() - i,
        {
            assert(held[i as int] == self.pending@[i as int]@);
            i = i + 1;
        }
        proof {
            if i < self.pending@.len() {
                assert(held[i as int] == self.pending@[i as int]@);
            }
            lemma_call_index(held, call_id@, i as int);
        }
        i
    }

    /// Ends every permission that a rule ends, and returns what is to be told of each.
    fn settle_all(&mut self, rule: SettleRule) -> (r: Vec<SettledNotice>)
        requires
            old(self).wf(),
        ensures
            final(self).wf(),
            final(self)@ == old(self)@.settled(rule),
            notices_view(r@) == rule.notices(old(self)@.pending),
    {
        let ghost held = pending_view(self.pending@);
        let mut notices: Vec<SettledNotice> = Vec::new();
        let mut i: usize = 0;
        proof {
            assert(held.subrange(0, 0) =~= Seq::<PendingModel>::empty());
            assert(notices_view(notices@) =~= Seq::<NoticeModel>::empty());
        }
        while i < self.pending.len()
            invariant
                i <= self.pending@.len(),
                held.len() == self.pending@.len(),
                held == old(self)@.pending,
                forall|j: int|
                    0 <= j < i ==> (#[trigger] self.pending@[j])@ == rule.outcome(held[j]),
                forall|j: int|
                    i <= j < self.pending@.len() ==> (#[trigger] self.pending@[j])@ == held[j],
                notices_view(notices@) == rule.notices(held.subrange(0, i as int)),
                self.session_grants == old(self).session_grants,
                self.next_nonce == old(self).next_nonce,
                self.closing == old(self).closing,
                self.current_policy == old(self).current_policy,
                self.used_authority_nonces == old(self).used_authority_nonces,
            decreases self.pending@.len() - i,
        {
            let ghost upto = held.subrange(0, i + 1);
            let ghost told = notices@;
            proof {
                assert(upto.drop_last() =~= held.subrange(0, i as int));
                assert(upto.last() == self.pending@[i as int]@);
            }
            if rule_applies(rule, &self.pending[i]) {
                let responder_open = self.pending[i].responder_open;
                settle(&mut self.pending[i], rule_target(rule));
                notices.push(
                    SettledNotice {
                        call_id: self.pending[i].call_id.clone(),
                        responder_open,
                        confirmation: self.pending[i].confirmation.clone(),
                    },
                );
                proof {
                    assert(notices_view(notices@) =~= notices_view(told).push(
                        NoticeModel {
                            call_id: upto.last().call_id,
                            responder_open: upto.last().open,
                            card: settled_card(upto.last().card, rule.target()),
                        },
                    ));
                }
            }
            i = i + 1;
        }
        proof {
            assert(held.subrange(0, held.len() as int) =~= held);
            assert(pending_view(self.pending@) =~= rule.outcomes(held));
        }
        prune(&mut self.pending);
        notices
    }

    /// Expires what has waited too long.
    pub fn expire_due_permissions(&mut self, now_ms: u64) -> (r: Vec<SettledNotice>)
        requires
            old(self).wf(),
        ensures
            final(self).wf(),
            final(self)@ == old(self)@.settled(SettleRule::Due { now_ms }),
            notices_view(r@) == (SettleRule::Due { now_ms }).notices(old(self)@.pending),
    {
        self.settle_all(SettleRule::Due { now_ms })
    }

    /// Takes everything back, as when the agent stops.
    pub fn cancel_all(&mut self) -> (r: Vec<SettledNotice>)
        requires
            old(self).wf(),
        ensures
            final(self).wf(),
            final(self)@ == old(self)@.cancelled(),
            notices_view(r@) == SettleRule::All.notices(old(self)@.pending),
    {
        let notices = self.settle_all(SettleRule::All);
        drop_shown(&mut self.pending);
        self.session_grants = TextMap::new();
        self.current_policy = None;
        notices
    }

    /// Takes back what the Command EVE backend asked for, every grant and the policy.
    pub fn revoke_command_eve_policy(&mut self) -> (r: Vec<SettledNotice>)
        requires
            old(self).wf(),
        ensures
            final(self).wf(),
            final(self)@ == old(self)@.without_policy(),
            notices_view(r@) == SettleRule::CommandEve.notices(old(self)@.pending),
    {
        let notices = self.settle_all(SettleRule::CommandEve);
        self.session_grants = TextMap::new();
        self.current_policy = None;
        notices
    }

    fn has_current_policy(&self, policy: &Option<PolicySnapshot>) -> (r: bool)
        ensures
            r == self@.is_current(snapshot_view(*policy)),
    {
        match (policy, &self.current_policy) {
            (Some(policy), Some(current)) => policy.policy_revision == current.policy_revision
                && policy.session_epoch == current.session_epoch,
            _ => false,
        }
    }

    /// Puts a policy in force.
    pub fn apply_policy_snapshot(&mut self, policy: PolicySnapshot) -> (r: Vec<SettledNotice>)
        requires
            old(self).wf(),
        ensures
            final(self).wf(),
            final(self)@ == old(self)@.under_policy(policy@),
            notices_view(r@) == (SettleRule::Policy {
                policy_revision: policy@.policy_revision,
                session_epoch: policy@.session_epoch,
            }).notices(old(self)@.pending),
    {
        let notices = self.settle_all(
            SettleRule::Policy {
                policy_revision: policy.policy_revision,
                session_epoch: policy.session_epoch,
            },
        );
        let policy = Some(policy);
        if !self.has_current_policy(&policy) {
            self.session_grants = TextMap::new();
        }
        self.current_policy = policy;
        notices
    }
}

/// What an answer of a user comes to.
#[derive(Debug)]
pub enum PermissionResponse {
    Missing,
    WrongSession,
    Settled { lifecycle: ConfirmationLifecycle, same_choice: bool },
    Gone,
    UnknownOption,
    Permanent,
    Gated,
    NoAllowOnce,
    NoGrantKey,
    Forwarded { option_id: String },
}

impl View for PermissionResponse {
    type V = ResponseModel;

    open spec fn view(&self) -> ResponseModel {
        match self {
            PermissionResponse::Missing => ResponseModel::Missing,
            PermissionResponse::WrongSession => ResponseModel::WrongSession,
            PermissionResponse::Settled { lifecycle, same_choice } => ResponseModel::Settled {
                lifecycle: *lifecycle,
                same_choice: *same_choice,
            },
            PermissionResponse::Gone => ResponseModel::Gone,
            PermissionResponse::UnknownOption => ResponseModel::UnknownOption,
            PermissionResponse::Permanent => ResponseModel::Permanent,
            PermissionResponse::Gated => ResponseModel::Gated,
            PermissionResponse::NoAllowOnce => ResponseModel::NoAllowOnce,
            PermissionResponse::NoGrantKey => ResponseModel::NoGrantKey,
            PermissionResponse::Forwarded { option_id } => ResponseModel::Forwarded {
                option_id: option_id@,
            },
        }
    }
}

enum Choice {
    Unknown,
    Permanent,
    Gated,
    NoAllowOnce,
    NoGrantKey,
    Forward { option_id: String, grant_key: Option<String>, allowed: bool },
}

impl Choice {
    spec fn model(&self) -> ChoiceModel {
        match self {
            Choice::Unknown => ChoiceModel::Unknown,
            Choice::Permanent => ChoiceModel::Permanent,
            Choice::Gated => ChoiceModel::Gated,
            Choice::NoAllowOnce => ChoiceModel::NoAllowOnce,
            Choice::NoGrantKey => ChoiceModel::NoGrantKey,
            Choice::Forward { option_id, grant_key, allowed } => ChoiceModel::Forward {
                option_id: option_id@,
                grant_key: text_view(*grant_key),
                allowed: *allowed,
            },
        }
    }
}

fn find_disposition(list: &Vec<(String, OptionDisposition)>, option_id: &str) -> (r: Option<
    OptionDisposition,
>)
    ensures
        r == disposition_of(dispositions_view(list@), option_id@),
{
    let ghost held = dispositions_view(list@);
    let mut i: usize = list.len();
    assert(held.subrange(0, held.len() as int) =~= held);
    while i > 0
        invariant
            i <= list@.len(),
            held == dispositions_view(list@),
            disposition_of(held, option_id@) == disposition_of(
                held.subrange(0, i as int),
                option_id@,
            ),
        decreases i,
    {
        let ghost upto = held.subrange(0, i as int);
        assert(upto.last() == (list@[i - 1].0@, list@[i - 1].1));
        assert(upto.drop_last() =~= held.subrange(0, i - 1));
        if same_text(list[i - 1].0.as_str(), option_id) {
            return Some(list[i - 1].1);
        }
        i = i - 1;
    }
    None
}

impl CommandEveAuthority {
    /// Whether the operation can be granted for the session from its card.
    pub fn offers_exact_session(&self) -> (r: bool)
        ensures
            r == (self@.allow_once is Some && self@.gate is Some && self@.gate->0.grant_eligible
                && self@.gate->0.policy is Some),
    {
        match &self.gate {
            Some(gate) => self.allow_once_option_id.is_some() && gate.grant_eligible
                && gate.policy.is_some(),
            None => false,
        }
    }

    /// Whether a user cannot allow the operation.
    pub fn is_gated(&self) -> (r: bool)
        ensures
            r == self@.gated(),
    {
        match &self.gate {
            Some(gate) => is_gating_decision(gate.decision),
            None => false,
        }
    }

    /// The revision and the session epoch of the policy that the operation was asked under.
    fn policy_key(&self) -> (r: (u64, u64))
        ensures
            r == self@.policy_key(),
    {
        match &self.gate {
            Some(gate) => match &gate.policy {
                Some(policy) => (policy.policy_revision, policy.session_epoch),
                None => (0, 0),
            },
            None => (0, 0),
        }
    }
}

fn choose_option(permission: &PendingPermission, option_id: &str) -> (r: Choice)
    ensures
        r.model() == permission@.choice(option_id@),
{
    match &permission.command_eve {
        None => Choice::Forward {
            option_id: option_id.to_owned(),
            grant_key: None,
            allowed: true,
        },
        Some(authority) => match find_disposition(&authority.option_dispositions, option_id) {
            None => Choice::Unknown,
            Some(OptionDisposition::RejectOnce) => Choice::Forward {
                option_id: option_id.to_owned(),
                grant_key: None,
                allowed: false,
            },
            Some(OptionDisposition::UnsupportedPermanent) => Choice::Permanent,
            Some(OptionDisposition::AllowOnce) => if authority.is_gated() {
                Choice::Gated
            } else {
                Choice::Forward { option_id: option_id.to_owned(), grant_key: None, allowed: true }
            },
            Some(OptionDisposition::ExactSession) => if authority.is_gated() {
                Choice::Gated
            } else {
                match (&authority.allow_once_option_id, &authority.grant_key) {
                    (None, _) => Choice::NoAllowOnce,
                    (Some(_), None) => Choice::NoGrantKey,
                    (Some(allow_once), Some(grant_key)) => Choice::Forward {
                        option_id: allow_once.clone(),
                        grant_key: Some(grant_key.clone()),
                        allowed: true,
                    },
                }
            },
        },
    }
}

fn same_optional_text(a: &Option<String>, b: &str) -> (r: bool)
    ensures
        r == (text_view(*a) == Some(b@)),
{
    match a {
        Some(a) => same_text(a.as_str(), b),
        None => false,
    }
}

/// What a user's answer is told to have come to.
#[derive(Debug, Clone, Copy, PartialEq, Eq, Structural)]
pub enum ConfirmationResponseResult {
    Applied,
    IdempotentSameDecision,
    ConflictDifferentDecision,
    Expired,
    UnknownConfirmation,
    WrongSession,
}

/// What an answer is told to have come to.
pub open spec fn response_result(response: ResponseModel) -> ConfirmationResponseResult {
    match response {
        ResponseModel::Missing => ConfirmationResponseResult::UnknownConfirmation,
        ResponseModel::WrongSession => ConfirmationResponseResult::WrongSession,
        ResponseModel::Gone => ConfirmationResponseResult::Expired,
        ResponseModel::Forwarded { option_id } => ConfirmationResponseResult::Applied,
        ResponseModel::Settled { lifecycle, same_choice } => match lifecycle {
            ConfirmationLifecycle::Expired => ConfirmationResponseResult::Expired,
            ConfirmationLifecycle::Allowed | ConfirmationLifecycle::Denied => if same_choice {
                ConfirmationResponseResult::IdempotentSameDecision
            } else {
                ConfirmationResponseResult::ConflictDifferentDecision
            },
            _ => ConfirmationResponseResult::ConflictDifferentDecision,
        },
        _ => ConfirmationResponseResult::ConflictDifferentDecision,
    }
}

/// The error that an answer fails with, if it fails.
pub open spec fn response_error(
    response: ResponseModel,
    call_id: Seq<char>,
    option_id: Seq<char>,
) -> Option<(AgentErrorKind, Seq<char>)> {
    let not_found = "Pending ACP permission not found: "@ + call_id;
    let expired = "Pending ACP permission expired: "@ + call_id;
    match response {
        ResponseModel::Forwarded { option_id } => None,
        ResponseModel::Missing => Some((AgentErrorKind::BadRequest, not_found)),
        ResponseModel::Settled { lifecycle, same_choice } => if lifecycle.is_resolved() {
            Some((AgentErrorKind::BadRequest, not_found))
        } else {
            Some((AgentErrorKind::BadRequest, expired))
        },
        ResponseModel::WrongSession => Some(
            (AgentErrorKind::BadRequest, "ACP permission belongs to another conversation"@),
        ),
        ResponseModel::Gone => Some((AgentErrorKind::BadRequest, expired)),
        ResponseModel::NoAllowOnce => Some(
            (
                AgentErrorKind::BadRequest,
                "Exact session grant is unavailable without an allow-once option"@,
            ),
        ),
        ResponseModel::NoGrantKey => Some(
            (
                AgentErrorKind::BadRequest,
                "Exact session grant is unavailable for this runtime request"@,
            ),
        ),
        ResponseModel::Permanent => Some(
            (
                AgentErrorKind::BadRequest,
                "Permanent allow/deny is unavailable until exact durable grants are supported"@,
            ),
        ),
        ResponseModel::UnknownOption => Some(
            (
                AgentErrorKind::BadRequest,
                "Unknown ACP permission option for this request: "@ + option_id,
            ),
        ),
        ResponseModel::Gated => Some(
            (AgentErrorKind::BadRequest, "ACP permission requires a higher authority"@),
        ),
    }
}

impl PermissionRouter {
    /// Takes a user's answer, once what has waited too long has expired. Adds what is to be told of
    /// an answer that is not taken.
    fn respond(
        &mut self,
        call_id: &str,
        option_id: &str,
        conversation_id: Option<&str>,
        delivered: bool,
        notices: &mut Vec<SettledNotice>,
    ) -> (r: PermissionResponse)
        requires
            old(self).wf(),
        ensures
            final(self).wf(),
            notices_view(final(notices)@) == notices_view(old(notices)@) + old(self)@.undelivered(
                call_id@,
                option_id@,
                str_view(conversation_id),
                delivered,
            ),
            r@ == old(self)@.response(call_id@, option_id@, str_view(conversation_id), delivered),
            final(self)@ == old(self)@.responded(
                call_id@,
                option_id@,
                str_view(conversation_id),
                delivered,
            ),
    {
        let ghost before = self@;
        let ghost told = notices@;
        assert(notices_view(told) + Seq::<NoticeModel>::empty() =~= notices_view(told));
        let at = self.find_call(call_id);
        if at >= self.pending.len() {
            return PermissionResponse::Missing;
        }
        assert(before.permission(call_id@) == self.pending@[at as int]@);
        let permission = &self.pending[at];
        if let Some(conversation_id) = conversation_id {
            if permission.command_eve.is_some() && !same_text(
                permission.conversation_id.as_str(),
                conversation_id,
            ) {
                return PermissionResponse::WrongSession;
            }
        }
        if permission.lifecycle != ConfirmationLifecycle::Pending {
            return PermissionResponse::Settled {
                lifecycle: permission.lifecycle,
                same_choice: same_optional_text(&permission.chosen_option_id, option_id),
            };
        }
        if !permission.responder_open {
            return PermissionResponse::Gone;
        }
        let (forwarded, grant_key, allowed) = match choose_option(permission, option_id) {
            Choice::Unknown => {
                return PermissionResponse::UnknownOption;
            },
            Choice::Permanent => {
                return PermissionResponse::Permanent;
            },
            Choice::Gated => {
                return PermissionResponse::Gated;
            },
            Choice::NoAllowOnce => {
                return PermissionResponse::NoAllowOnce;
            },
            Choice::NoGrantKey => {
                return PermissionResponse::NoGrantKey;
            },
            Choice::Forward { option_id, grant_key, allowed } => (option_id, grant_key, allowed),
        };
        let key = match &permission.command_eve {
            Some(authority) => authority.policy_key(),
            None => (0, 0),
        };
        if !delivered {
            settle(&mut self.pending[at], ConfirmationLifecycle::Expired);
            assert(pending_view(self.pending@) =~= before.pending.update(
                at as int,
                before.pending[at as int].settled(ConfirmationLifecycle::Expired),
            ));
            notices.push(
                SettledNotice {
                    call_id: call_id.to_owned(),
                    responder_open: false,
                    confirmation: self.pending[at].confirmation.clone(),
                },
            );
            proof {
                assert(notices_view(notices@) =~= notices_view(told) + before.undelivered(
                    call_id@,
                    option_id@,
                    str_view(conversation_id),
                    delivered,
                ));
            }
            prune(&mut self.pending);
            return PermissionResponse::Gone;
        }
        let lifecycle = if allowed {
            ConfirmationLifecycle::Allowed
        } else {
            ConfirmationLifecycle::Denied
        };
        settle(&mut self.pending[at], lifecycle);
        self.pending[at].chosen_option_id = Some(option_id.to_owned());
        assert(pending_view(self.pending@) =~= before.pending.update(
            at as int,
            (PendingModel {
                chosen: Some(option_id@),
                ..before.pending[at as int].settled(lifecycle)
            }),
        ));
        prune(&mut self.pending);
        if let Some(grant_key) = grant_key {
            self.session_grants.insert(
                grant_key.as_str(),
                SessionGrant {
                    policy_revision: key.0,
                    session_epoch: key.1,
                    expires_at_ms: None,
                    revoked: false,
                },
            );
        }
        PermissionResponse::Forwarded { option_id: forwarded }
    }

    /// Takes a user's answer. Returns the answer to forward, or an error where nothing is forwarded,
    /// and what is to be told: of the permissions that have expired before, and of this one where its
    /// responder did not take the answer.
    pub fn confirm(
        &mut self,
        call_id: &str,
        option_id: &str,
        now_ms: u64,
        delivered: bool,
    ) -> (r: (Result<String, AgentError>, Vec<SettledNotice>))
        requires
            old(self).wf(),
        ensures
            final(self).wf(),
            ({
                let now = old(self)@.settled(SettleRule::Due { now_ms });
                let response = now.response(call_id@, option_id@, None, delivered);
                &&& notices_view(r.1@) == (SettleRule::Due { now_ms }).notices(old(self)@.pending)
                    + now.undelivered(call_id@, option_id@, None, delivered)
                &&& final(self)@ == now.responded(call_id@, option_id@, None, delivered)
                &&& match r.0 {
                    Ok(forwarded) => response == ResponseModel::Forwarded { option_id: forwarded@ },
                    Err(error) => response_error(response, call_id@, option_id@) == Some(error@),
                }
            }),
    {
        let mut notices = self.expire_due_permissions(now_ms);
        let result = match self.respond(call_id, option_id, None, delivered, &mut notices) {
            PermissionResponse::Forwarded { option_id } => Ok(option_id),
            PermissionResponse::Missing => Err(not_found(call_id)),
            PermissionResponse::Settled { lifecycle, same_choice: _ } => if lifecycle.resolved() {
                Err(not_found(call_id))
            } else {
                Err(expired(call_id))
            },
            PermissionResponse::WrongSession => Err(
                AgentError::bad_request("ACP permission belongs to another conversation"),
            ),
            PermissionResponse::Gone => Err(expired(call_id)),
            PermissionResponse::NoAllowOnce => Err(
                AgentError::bad_request(
                    "Exact session grant is unavailable without an allow-once option",
                ),
            ),
            PermissionResponse::NoGrantKey => Err(
                AgentError::bad_request(
                    "Exact session grant is unavailable for this runtime request",
                ),
            ),
            PermissionResponse::Permanent => Err(
                AgentError::bad_request(
                    "Permanent allow/deny is unavailable until exact durable grants are supported",
                ),
            ),
            PermissionResponse::UnknownOption => {
                let message = concat(
                    "Unknown ACP permission option for this request: ",
                    option_id,
                );
                Err(AgentError::bad_request(message.as_str()))
            },
            PermissionResponse::Gated => Err(
                AgentError::bad_request("ACP permission requires a higher authority"),
            ),
        };
        (result, notices)
    }

    /// Takes a user's answer in a conversation, and tells what it came to. Returns the answer to
    /// forward, where there is one, and what is to be told: of the permissions that have expired
    /// before, and of this one where its responder did not take the answer.
    pub fn confirm_result(
        &mut self,
        call_id: &str,
        option_id: &str,
        conversation_id: &str,
        now_ms: u64,
        delivered: bool,
    ) -> (r: (ConfirmationResponseResult, Option<String>, Vec<SettledNotice>))
        requires
            old(self).wf(),
        ensures
            final(self).wf(),
            ({
                let now = old(self)@.settled(SettleRule::Due { now_ms });
                let conversation = Some(conversation_id@);
                let response = now.response(call_id@, option_id@, conversation, delivered);
                &&& notices_view(r.2@) == (SettleRule::Due { now_ms }).notices(old(self)@.pending)
                    + now.undelivered(call_id@, option_id@, conversation, delivered)
                &&& final(self)@ == now.responded(call_id@, option_id@, conversation, delivered)
                &&& r.0 == response_result(response)
                &&& text_view(r.1) == match response {
                    ResponseModel::Forwarded { option_id } => Some(option_id),
                    _ => None,
                }
            }),
    {
        let mut notices = self.expire_due_permissions(now_ms);
        match self.respond(
            call_id,
            option_id,
            Some(conversation_id),
            delivered,
            &mut notices,
        ) {
            PermissionResponse::Forwarded { option_id } => (
                ConfirmationResponseResult::Applied,
                Some(option_id),
                notices,
            ),
            PermissionResponse::Missing => (
                ConfirmationResponseResult::UnknownConfirmation,
                None,
                notices,
            ),
            PermissionResponse::WrongSession => (
                ConfirmationResponseResult::WrongSession,
                None,
                notices,
            ),
            PermissionResponse::Gone => (ConfirmationResponseResult::Expired, None, notices),
            PermissionResponse::Settled { lifecycle, same_choice } => {
                let result = match lifecycle {
                    ConfirmationLifecycle::Expired => ConfirmationResponseResult::Expired,
                    ConfirmationLifecycle::Allowed | ConfirmationLifecycle::Denied => if same_choice {
                        ConfirmationResponseResult::IdempotentSameDecision
                    } else {
                        ConfirmationResponseResult::ConflictDifferentDecision
                    },
                    _ => ConfirmationResponseResult::ConflictDifferentDecision,
                };
                (result, None, notices)
            },
            _ => (ConfirmationResponseResult::ConflictDifferentDecision, None, notices),
        }
    }
}

fn not_found(call_id: &str) -> (r: AgentError)
    ensures
        r@ == (AgentErrorKind::BadRequest, "Pending ACP permission not found: "@ + call_id@),
{
    let message = concat("Pending ACP permission not found: ", call_id);
    AgentError::bad_request(message.as_str())
}

fn expired(call_id: &str) -> (r: AgentError)
    ensures
        r@ == (AgentErrorKind::BadRequest, "Pending ACP permission expired: "@ + call_id@),
{
    let message = concat("Pending ACP permission expired: ", call_id);
    AgentError::bad_request(message.as_str())
}

/// The name of a class.
pub open spec fn class_name(class: OperationClass) -> Seq<char> {
    match class {
        OperationClass::RoutineEdit => "routine_edit"@,
        OperationClass::RoutineTerminal => "routine_terminal"@,
        OperationClass::HardBlocked => "hard_blocked"@,
        OperationClass::Sensitive => "sensitive"@,
        OperationClass::Hg35 => "hg35"@,
        OperationClass::Hg4 => "hg4"@,
        OperationClass::Unknown => "unknown"@,
    }
}

fn class_str(class: OperationClass) -> (r: &'static str)
    ensures
        r@ == class_name(class),
{
    match class {
        OperationClass::RoutineEdit => "routine_edit",
        OperationClass::RoutineTerminal => "routine_terminal",
        OperationClass::HardBlocked => "hard_blocked",
        OperationClass::Sensitive => "sensitive",
        OperationClass::Hg35 => "hg35",
        OperationClass::Hg4 => "hg4",
        OperationClass::Unknown => "unknown",
    }
}

/// The name of an authority.
pub open spec fn authority_name(authority: RequiredAuthority) -> Seq<char> {
    match authority {
        RequiredAuthority::User => "user"@,
        RequiredAuthority::Proxy => "proxy"@,
        RequiredAuthority::Founder => "founder"@,
    }
}

fn authority_str(authority: RequiredAuthority) -> (r: &'static str)
    ensures
        r@ == authority_name(authority),
{
    match authority {
        RequiredAuthority::User => "user",
        RequiredAuthority::Proxy => "proxy",
        RequiredAuthority::Founder => "founder",
    }
}

/// The metadata that the card of a gated operation carries.
pub open spec fn card_metadata(
    call_id: Seq<char>,
    gate: GateModel,
    nonce: u64,
    created_at_ms: u64,
    expires_at_ms: u64,
) -> MetadataModel {
    MetadataModel {
        protocol_version: 1,
        operation_id: call_id,
        operation_digest: gate.operation_digest,
        confirmation_version: nonce,
        policy_revision: gate.policy->0.policy_revision,
        session_epoch: gate.policy->0.session_epoch,
        created_at_ms,
        expires_at_ms,
        lifecycle: "pending"@,
        classification: class_name(gate.classification.class),
        required_authority: match gate.classification.required_authority {
            Some(authority) => Some(authority_name(authority)),
            None => None,
        },
        runtime_receipt_digest: gate.policy->0.runtime_receipt.receipt_digest,
    }
}

/// A permission as it is first asked for.
pub open spec fn asked(
    call_id: Seq<char>,
    card: CardModel,
    authority: Option<AuthorityModel>,
    conversation: Seq<char>,
    nonce: u64,
    now_ms: u64,
    ttl_ms: Option<u64>,
) -> PendingModel {
    let expires_at = match ttl_ms {
        Some(ttl_ms) => Some((now_ms + ttl_ms) as u64),
        None => None,
    };
    PendingModel {
        call_id,
        card: if authority is Some && authority->0.gate is Some && authority->0.gate->0.policy is Some {
            CardModel {
                authority: Some(
                    card_metadata(
                        call_id,
                        authority->0.gate->0,
                        nonce,
                        now_ms,
                        match expires_at {
                            Some(expires_at) => expires_at,
                            None => now_ms,
                        },
                    ),
                ),
                ..card
            }
        } else {
            card
        },
        authority,
        conversation,
        expires_at,
        nonce,
        open: true,
        lifecycle: ConfirmationLifecycle::Pending,
        chosen: None,
        receipt: None,
    }
}

/// The permissions without that of a call.
pub open spec fn without_call(pending: Seq<PendingModel>, call_id: Seq<char>) -> Seq<PendingModel> {
    if call_index(pending, call_id) < pending.len() {
        pending.remove(call_index(pending, call_id) as int)
    } else {
        pending
    }
}

/// The cards that are shown: those of permissions that were neither answered nor taken back.
pub open spec fn shown_cards(pending: Seq<PendingModel>) -> Seq<CardModel>
    decreases pending.len(),
{
    if pending.len() == 0 {
        Seq::empty()
    } else if pending.last().lifecycle.is_resolved() {
        shown_cards(pending.drop_last())
    } else {
        shown_cards(pending.drop_last()).push(pending.last().card)
    }
}

/// What a list of cards shows.
pub open spec fn cards_view(cards: Seq<Confirmation>) -> Seq<CardModel> {
    cards.map_values(|card: Confirmation| card@)
}

impl RouterModel {
    /// With a permission asked for, in the place of an earlier one of the same call.
    pub open spec fn with_asked(self, permission: PendingModel) -> RouterModel {
        RouterModel {
            pending: without_call(self.pending, permission.call_id).push(permission),
            next_nonce: (self.next_nonce + 1) as u64,
            ..self
        }
    }

    /// Whether the timer of a permission ends it.
    pub open spec fn timer_ends(self, call_id: Seq<char>, nonce: u64, now_ms: u64) -> bool {
        &&& self.knows(call_id)
        &&& self.permission(call_id).nonce == nonce
        &&& self.permission(call_id).lifecycle == ConfirmationLifecycle::Pending
        &&& self.permission(call_id).open
        &&& (self.permission(call_id).expires_at is Some ==> self.permission(call_id).expires_at->0
            <= now_ms)
    }
}

impl PermissionRouter {
    /// Asks for a permission. An earlier one of the same call goes. Returns the number of the
    /// request, and whether the responder of the earlier one is to be told that it is cancelled.
    pub fn register(
        &mut self,
        call_id: &str,
        confirmation: Confirmation,
        command_eve: Option<CommandEveAuthority>,
        conversation_id: &str,
        now_ms: u64,
        ttl_ms: Option<u64>,
    ) -> (r: (u64, bool))
        requires
            old(self).wf(),
            !old(self)@.closing,
            old(self)@.next_nonce < u64::MAX,
            ttl_ms is Some ==> now_ms + ttl_ms->0 <= u64::MAX,
        ensures
            final(self).wf(),
            r.0 == old(self)@.next_nonce,
            r.1 == (old(self)@.knows(call_id@) && old(self)@.permission(call_id@).open),
            final(self)@ == old(self)@.with_asked(
                asked(
                    call_id@,
                    confirmation@,
                    authority_view(command_eve),
                    conversation_id@,
                    old(self)@.next_nonce,
                    now_ms,
                    ttl_ms,
                ),
            ),
    {
        let ghost before = self@;
        let nonce = self.next_nonce;
        self.next_nonce = nonce + 1;
        let expires_at_ms = match ttl_ms {
            Some(ttl_ms) => Some(now_ms + ttl_ms),
            None => None,
        };
        let mut confirmation = confirmation;
        if let Some(authority) = &command_eve {
            if let Some(gate) = &authority.gate {
                if let Some(policy) = &gate.policy {
                    confirmation.authority =
                    Some(
                        ConfirmationAuthorityMetadata {
                            protocol_version: 1,
                            operation_id: call_id.to_owned(),
                            operation_digest: gate.operation_digest.clone(),
                            confirmation_version: nonce,
                            policy_revision: policy.policy_revision,
                            session_epoch: policy.session_epoch,
                            created_at_ms: now_ms,
                            expires_at_ms: match expires_at_ms {
                                Some(expires_at_ms) => expires_at_ms,
                                None => now_ms,
                            },
                            lifecycle: "pending".to_owned(),
                            classification: class_str(gate.classification.class).to_owned(),
                            required_authority: match gate.classification.required_authority {
                                Some(authority) => Some(authority_str(authority).to_owned()),
                                None => None,
                            },
                            runtime_receipt_digest: policy.runtime_receipt.receipt_digest.clone(),
                        },
                    );
                }
            }
        }
        let replaced = self.remove_call(call_id);
        let permission = PendingPermission {
            call_id: call_id.to_owned(),
            confirmation,
            command_eve,
            conversation_id: conversation_id.to_owned(),
            expires_at_ms,
            nonce,
            responder_open: true,
            lifecycle: ConfirmationLifecycle::Pending,
            chosen_option_id: None,
            authority_receipt: None,
        };
        let ghost kept = pending_view(self.pending@);
        let ghost added = permission@;
        self.pending.push(permission);
        assert(pending_view(self.pending@) =~= kept.push(added));
        (nonce, replaced)
    }

    fn remove_call(&mut self, call_id: &str) -> (r: bool)
        requires
            old(self).wf(),
        ensures
            final(self).wf(),
            r == (old(self)@.knows(call_id@) && old(self)@.permission(call_id@).open),
            final(self)@ == (RouterModel {
                pending: without_call(old(self)@.pending, call_id@),
                ..old(self)@
            }),
    {
        let ghost before = self@;
        let at = self.find_call(call_id);
        if at < self.pending.len() {
            let removed = self.pending.remove(at);
            assert(pending_view(self.pending@) =~= before.pending.remove(at as int));
            removed.responder_open
        } else {
            false
        }
    }

    /// Takes back a permission that nobody could be asked for. Returns whether its responder is to
    /// be told that it is cancelled.
    pub fn withdraw(&mut self, call_id: &str) -> (r: bool)
        requires
            old(self).wf(),
        ensures
            final(self).wf(),
            r == (old(self)@.knows(call_id@) && old(self)@.permission(call_id@).open),
            final(self)@ == (RouterModel {
                pending: without_call(old(self)@.pending, call_id@),
                ..old(self)@
            }),
    {
        self.remove_call(call_id)
    }

    /// The timer of a permission has run out. Returns the card to show, where that ends it; its
    /// responder is then to be told that it is cancelled.
    pub fn expire_permission(&mut self, call_id: &str, nonce: u64, now_ms: u64) -> (r: Option<
        Confirmation,
    >)
        requires
            old(self).wf(),
        ensures
            final(self).wf(),
            r is Some <==> old(self)@.timer_ends(call_id@, nonce, now_ms),
            r matches Some(card) ==> card@ == settled_card(
                old(self)@.permission(call_id@).card,
                ConfirmationLifecycle::Expired,
            ),
            final(self)@ == if old(self)@.timer_ends(call_id@, nonce, now_ms) {
                old(self)@.with_permission(
                    call_id@,
                    old(self)@.permission(call_id@).settled(ConfirmationLifecycle::Expired),
                )
            } else {
                old(self)@
            },
    {
        let ghost before = self@;
        let at = self.find_call(call_id);
        if at >= self.pending.len() {
            return None;
        }
        let permission = &self.pending[at];
        assert(before.permission(call_id@) == permission@);
        if permission.nonce != nonce || permission.lifecycle != ConfirmationLifecycle::Pending
            || !permission.responder_open {
            return None;
        }
        if let Some(expires_at_ms) = permission.expires_at_ms {
            if expires_at_ms > now_ms {
                return None;
            }
        }
        settle(&mut self.pending[at], ConfirmationLifecycle::Expired);
        let card = self.pending[at].confirmation.clone();
        assert(pending_view(self.pending@) =~= before.pending.update(
            at as int,
            before.pending[at as int].settled(ConfirmationLifecycle::Expired),
        ));
        prune(&mut self.pending);
        Some(card)
    }

    /// The cards to show, once what has waited too long has expired.
    pub fn get_confirmations(&mut self, now_ms: u64) -> (r: (
        Vec<Confirmation>,
        Vec<SettledNotice>,
    ))
        requires
            old(self).wf(),
        ensures
            final(self).wf(),
            final(self)@ == old(self)@.settled(SettleRule::Due { now_ms }),
            cards_view(r.0@) == shown_cards(final(self)@.pending),
            notices_view(r.1@) == (SettleRule::Due { now_ms }).notices(old(self)@.pending),
    {
        let notices = self.expire_due_permissions(now_ms);
        let ghost held = pending_view(self.pending@);
        let mut cards: Vec<Confirmation> = Vec::new();
        let mut i: usize = 0;
        proof {
            assert(held.subrange(0, 0) =~= Seq::<PendingModel>::empty());
            assert(cards_view(cards@) =~= Seq::<CardModel>::empty());
        }
        while i < self.pending.len()
            invariant
                i <= self.pending@.len(),
                held == pending_view(self.pending@),
                cards_view(cards@) == shown_cards(held.subrange(0, i as int)),
            decreases self.pending@.len() - i,
        {
            let ghost upto = held.subrange(0, i + 1);
            let ghost before = cards@;
            assert(upto.drop_last() =~= held.subrange(0, i as int));
            assert(upto.last() == self.pending@[i as int]@);
            if !self.pending[i].lifecycle.resolved() {
                cards.push(self.pending[i].confirmation.clone());
                assert(cards_view(cards@) =~= cards_view(before).push(upto.last().card));
            }
            i = i + 1;
        }
        assert(held.subrange(0, held.len() as int) =~= held);
        (cards, notices)
    }

    /// Whether a grant covers an operation now.
    pub fn has_valid_session_grant(&self, authority: &CommandEveAuthority, now_ms: u64) -> (r: bool)
        requires
            self.wf(),
        ensures
            r == self@.covers(authority@, now_ms),
    {
        let key = authority.policy_key();
        match &authority.grant_key {
            Some(grant_key) => match self.session_grants.get(grant_key.as_str()) {
                Some(grant) => {
                    let live = match grant.expires_at_ms {
                        Some(expires_at_ms) => now_ms < expires_at_ms,
                        None => true,
                    };
                    !grant.revoked && live && grant.policy_revision == key.0 && grant.session_epoch
                        == key.1
                },
                None => false,
            },
            None => false,
        }
    }

    /// Records a grant.
    pub fn insert_session_grant(&mut self, grant_key: &str, grant: SessionGrant)
        requires
            old(self).wf(),
        ensures
            final(self).wf(),
            final(self)@ == (RouterModel {
                grants: old(self)@.grants.insert(grant_key@, grant),
                ..old(self)@
            }),
    {
        self.session_grants.insert(grant_key, grant);
    }

    /// Whether a grant is recorded under a key.
    pub fn has_session_grant(&self, grant_key: &str) -> (r: bool)
        requires
            self.wf(),
        ensures
            r == self@.grants.dom().contains(grant_key@),
    {
        self.session_grants.contains_key(grant_key)
    }

    /// How many grants are recorded.
    pub fn session_grant_count(&self) -> (r: usize)
        requires
            self.wf(),
        ensures
            r == self@.grants.len(),
    {
        self.session_grants.len()
    }

    /// The policy in force.
    pub fn current_policy(&self) -> (r: Option<&PolicySnapshot>)
        ensures
            snapshot_ref_view(r) == self@.policy,
    {
        match &self.current_policy {
            Some(policy) => Some(policy),
            None => None,
        }
    }

    /// How the permission of a call stands.
    pub fn lifecycle_of(&self, call_id: &str) -> (r: Option<ConfirmationLifecycle>)
        ensures
            r == if self@.knows(call_id@) {
                Some(self@.permission(call_id@).lifecycle)
            } else {
                None
            },
    {
        let at = self.find_call(call_id);
        if at < self.pending.len() {
            assert(self@.permission(call_id@) == self.pending@[at as int]@);
            Some(self.pending[at].lifecycle)
        } else {
            None
        }
    }

    /// The card of a call's permission.
    pub fn confirmation_of(&self, call_id: &str) -> (r: Option<&Confirmation>)
        ensures
            match r {
                Some(card) => self@.knows(call_id@) && card@ == self@.permission(call_id@).card,
                None => !self@.knows(call_id@),
            },
    {
        let at = self.find_call(call_id);
        if at < self.pending.len() {
            assert(self@.permission(call_id@) == self.pending@[at as int]@);
            Some(&self.pending[at].confirmation)
        } else {
            None
        }
    }

    /// Whether one more permission can be asked for, to live that long. A router that is being shut
    /// down asks for none.
    pub fn can_register(&self, now_ms: u64, ttl_ms: Option<u64>) -> (r: bool)
        ensures
            r == (!self@.closing && self@.next_nonce < u64::MAX && (ttl_ms is Some ==> now_ms + ttl_ms->0
                <= u64::MAX)),
    {
        !self.closing && self.next_nonce < u64::MAX && match ttl_ms {
            Some(ttl_ms) => ttl_ms <= u64::MAX - now_ms,
            None => true,
        }
    }

    /// Whether the router is being shut down.
    pub fn is_closing(&self) -> (r: bool)
        ensures
            r == self@.closing,
    {
        self.closing
    }

    /// Marks the router as being shut down. From then on no new request is routed.
    pub fn set_closing(&mut self)
        requires
            old(self).wf(),
        ensures
            final(self).wf(),
            final(self)@ == (RouterModel { closing: true, ..old(self)@ }),
    {
        self.closing = true;
    }
}

/// What becomes of an operation that a grant or the mode allows.
pub enum AutoAllowModel {
    Answer { option_id: Seq<char> },
    Superseded,
    Ask,
}

/// What becomes of an operation that a grant or the mode allows.
#[derive(Debug)]
pub enum AutoAllow {
    /// The answer is given.
    Answer { option_id: String },
    /// The policy that it was asked under is no longer in force: it is cancelled, and its card says
    /// so.
    Superseded,
    /// A user is asked.
    Ask,
}

impl View for AutoAllow {
    type V = AutoAllowModel;

    open spec fn view(&self) -> AutoAllowModel {
        match self {
            AutoAllow::Answer { option_id } => AutoAllowModel::Answer { option_id: option_id@ },
            AutoAllow::Superseded => AutoAllowModel::Superseded,
            AutoAllow::Ask => AutoAllowModel::Ask,
        }
    }
}

/// What becomes of a request when it arrives.
pub enum RouteModel {
    Closing,
    Answer { option_id: Seq<char> },
    Deny { reject_option_id: Option<Seq<char>> },
    Superseded,
    Ask,
}

impl RouteModel {
    /// The state in which the card of a request is shown that is refused without asking.
    pub open spec fn refusal(self) -> Option<ConfirmationLifecycle> {
        match self {
            RouteModel::Deny { reject_option_id } => Some(ConfirmationLifecycle::Denied),
            RouteModel::Superseded => Some(ConfirmationLifecycle::Superseded),
            _ => None,
        }
    }
}

/// What becomes of a request when it arrives.
#[derive(Debug)]
pub enum PermissionRoute {
    /// The router is being shut down: the request is cancelled, and nothing is shown of it.
    Closing,
    /// The answer is given without asking.
    Answer { option_id: String },
    /// The operation is denied without asking, and its card says so.
    Deny { reject_option_id: Option<String> },
    /// The policy that it was asked under is no longer in force: it is cancelled, and its card says
    /// so.
    Superseded,
    /// A user is asked.
    Ask,
}

impl View for PermissionRoute {
    type V = RouteModel;

    open spec fn view(&self) -> RouteModel {
        match self {
            PermissionRoute::Closing => RouteModel::Closing,
            PermissionRoute::Answer { option_id } => RouteModel::Answer { option_id: option_id@ },
            PermissionRoute::Deny { reject_option_id } => RouteModel::Deny {
                reject_option_id: text_view(*reject_option_id),
            },
            PermissionRoute::Superseded => RouteModel::Superseded,
            PermissionRoute::Ask => RouteModel::Ask,
        }
    }
}

impl PermissionRoute {
    /// The state in which the card of a request is shown that is refused without asking.
    pub fn refusal(&self) -> (r: Option<ConfirmationLifecycle>)
        ensures
            r == self@.refusal(),
    {
        match self {
            PermissionRoute::Deny { reject_option_id: _ } => Some(ConfirmationLifecycle::Denied),
            PermissionRoute::Superseded => Some(ConfirmationLifecycle::Superseded),
            _ => None,
        }
    }
}

impl AutoAllowModel {
    /// The state in which the card of an operation is shown that is refused without asking.
    pub open spec fn refusal(self) -> Option<ConfirmationLifecycle> {
        match self {
            AutoAllowModel::Superseded => Some(ConfirmationLifecycle::Superseded),
            _ => None,
        }
    }
}

impl AutoAllow {
    /// The state in which the card of an operation is shown that is refused without asking.
    pub fn refusal(&self) -> (r: Option<ConfirmationLifecycle>)
        ensures
            r == self@.refusal(),
    {
        match self {
            AutoAllow::Superseded => Some(ConfirmationLifecycle::Superseded),
            _ => None,
        }
    }
}

/// The card of a request that is refused without asking.
pub fn refused_confirmation(card: Confirmation, lifecycle: ConfirmationLifecycle) -> (r: Confirmation)
    ensures
        r@ == settled_card(card@, lifecycle),
{
    let mut card = card;
    settle_card(&mut card, lifecycle);
    card
}

impl RouterModel {
    /// What becomes of an operation that a grant (`from_grant`) or the mode allows. Only the policy
    /// in force and a live grant count.
    pub open spec fn auto_allow(
        self,
        authority: AuthorityModel,
        from_grant: bool,
        now_ms: u64,
    ) -> AutoAllowModel {
        if authority.gate is None || !self.is_current(authority.gate->0.policy) {
            AutoAllowModel::Superseded
        } else if from_grant && !self.covers(authority, now_ms) {
            AutoAllowModel::Ask
        } else {
            match authority.allow_once {
                Some(option_id) => AutoAllowModel::Answer { option_id },
                None => AutoAllowModel::Ask,
            }
        }
    }

    /// After that: a grant that no longer covers the operation is dropped.
    pub open spec fn auto_allowed(
        self,
        authority: AuthorityModel,
        from_grant: bool,
        now_ms: u64,
    ) -> RouterModel {
        if authority.gate is Some && self.is_current(authority.gate->0.policy) && from_grant
            && !self.covers(authority, now_ms) && authority.grant_key is Some {
            RouterModel { grants: self.grants.remove(authority.grant_key->0), ..self }
        } else {
            self
        }
    }

    /// What becomes of a request when it arrives. A router that is being shut down routes nothing.
    /// A request for a team server is approved. Under Command EVE an exact grant, or the decision on
    /// the operation, may answer it; else a user is asked.
    pub open spec fn route(
        self,
        request: PermissionRequestModel,
        authority: Option<AuthorityModel>,
        now_ms: u64,
    ) -> RouteModel {
        if self.closing {
            RouteModel::Closing
        } else {
            self.open_route(request, authority, now_ms)
        }
    }

    /// What becomes of a request when it arrives at a router that is not being shut down.
    pub open spec fn open_route(
        self,
        request: PermissionRequestModel,
        authority: Option<AuthorityModel>,
        now_ms: u64,
    ) -> RouteModel {
        let approval = if authority is Some {
            command_eve_auto_approval(request)
        } else {
            auto_approval(request)
        };
        match (approval, authority) {
            (Some(option_id), _) => RouteModel::Answer { option_id },
            (None, None) => RouteModel::Ask,
            (None, Some(authority)) => {
                let granted = self.covers(authority, now_ms);
                match authority.gate {
                    None => match authority.allow_once {
                        Some(option_id) => if granted {
                            RouteModel::Answer { option_id }
                        } else {
                            RouteModel::Ask
                        },
                        None => RouteModel::Ask,
                    },
                    Some(gate) => if gate.decision == PermissionDecision::Allow || (granted
                        && gate.grant_eligible) {
                        match self.auto_allow(authority, false, now_ms) {
                            AutoAllowModel::Answer { option_id } => RouteModel::Answer { option_id },
                            AutoAllowModel::Superseded => RouteModel::Superseded,
                            AutoAllowModel::Ask => RouteModel::Ask,
                        }
                    } else if gate.decision == PermissionDecision::Block {
                        RouteModel::Deny { reject_option_id: authority.reject_once }
                    } else {
                        RouteModel::Ask
                    },
                }
            },
        }
    }
}

impl PermissionRouter {
    fn decide_auto_allow(
        &self,
        authority: &CommandEveAuthority,
        from_grant: bool,
        now_ms: u64,
    ) -> (r: AutoAllow)
        requires
            self.wf(),
        ensures
            r@ == self@.auto_allow(authority@, from_grant, now_ms),
    {
        let current = match &authority.gate {
            Some(gate) => self.has_current_policy(&gate.policy),
            None => false,
        };
        if !current {
            return AutoAllow::Superseded;
        }
        if from_grant && !self.has_valid_session_grant(authority, now_ms) {
            return AutoAllow::Ask;
        }
        match &authority.allow_once_option_id {
            Some(option_id) => AutoAllow::Answer { option_id: option_id.clone() },
            None => AutoAllow::Ask,
        }
    }

    /// Resolves an operation that a grant or the mode allows.
    pub fn resolve_command_eve_auto_allow(
        &mut self,
        authority: &CommandEveAuthority,
        from_grant: bool,
        now_ms: u64,
    ) -> (r: AutoAllow)
        requires
            old(self).wf(),
        ensures
            final(self).wf(),
            r@ == old(self)@.auto_allow(authority@, from_grant, now_ms),
            final(self)@ == old(self)@.auto_allowed(authority@, from_grant, now_ms),
    {
        let outcome = self.decide_auto_allow(authority, from_grant, now_ms);
        let current = match &authority.gate {
            Some(gate) => self.has_current_policy(&gate.policy),
            None => false,
        };
        if current && from_grant && !self.has_valid_session_grant(authority, now_ms) {
            if let Some(grant_key) = &authority.grant_key {
                let _ = self.session_grants.remove(grant_key.as_str());
            }
        }
        outcome
    }

    /// Decides what becomes of a request when it arrives.
    pub fn route_request(
        &self,
        request: &RequestPermissionRequest,
        authority: Option<&CommandEveAuthority>,
        now_ms: u64,
    ) -> (r: PermissionRoute)
        requires
            self.wf(),
        ensures
            r@ == self@.route(request@, authority_ref_view(authority), now_ms),
    {
        if self.closing {
            return PermissionRoute::Closing;
        }
        let approval = match authority {
            Some(_) => command_eve_team_auto_approve_option_id(request),
            None => auto_approve_option_id(request),
        };
        if let Some(option_id) = approval {
            return PermissionRoute::Answer { option_id };
        }
        let authority = match authority {
            Some(authority) => authority,
            None => {
                return PermissionRoute::Ask;
            },
        };
        let granted = self.has_valid_session_grant(authority, now_ms);
        match &authority.gate {
            None => match &authority.allow_once_option_id {
                Some(option_id) => if granted {
                    PermissionRoute::Answer { option_id: option_id.clone() }
                } else {
                    PermissionRoute::Ask
                },
                None => PermissionRoute::Ask,
            },
            Some(gate) => if gate.decision == PermissionDecision::Allow || (granted
                && gate.grant_eligible) {
                match self.decide_auto_allow(authority, false, now_ms) {
                    AutoAllow::Answer { option_id } => PermissionRoute::Answer { option_id },
                    AutoAllow::Superseded => PermissionRoute::Superseded,
                    AutoAllow::Ask => PermissionRoute::Ask,
                }
            } else if gate.decision == PermissionDecision::Block {
                PermissionRoute::Deny {
                    reject_option_id: match &authority.reject_once_option_id {
                        Some(option_id) => Some(option_id.clone()),
                        None => None,
                    },
                }
            } else {
                PermissionRoute::Ask
            },
        }
    }
}

/// The user who owns the local installation.
pub const LOCAL_OWNER: &'static str = "system_default_user";

/// Who confirms an operation that requires a higher authority.
#[derive(Debug)]
pub struct ConfirmationPrincipalContext {
    pub user_id: String,
    pub local_capability: bool,
}

impl ConfirmationPrincipalContext {
    /// Whether the principal is the owner, at the local installation.
    pub open spec fn is_entitled(&self) -> bool {
        self.local_capability && self.user_id@ == LOCAL_OWNER@
    }

    /// A user who signed in remotely.
    pub fn for_authenticated_user(user_id: &str) -> (r: Self)
        ensures
            r.user_id@ == user_id@,
            !r.local_capability,
    {
        ConfirmationPrincipalContext { user_id: user_id.to_owned(), local_capability: false }
    }

    /// A user who holds the capability of the local installation.
    pub fn for_local_capability(user_id: &str) -> (r: Self)
        ensures
            r.user_id@ == user_id@,
            r.local_capability,
    {
        ConfirmationPrincipalContext { user_id: user_id.to_owned(), local_capability: true }
    }
}

/// What a confirmation by a higher authority comes to.
pub enum AuthorityResponseModel {
    Missing,
    WrongSession,
    NotRequired,
    NoPolicy,
    NotEntitled,
    Settled { lifecycle: ConfirmationLifecycle, same_principal: bool },
    Gone,
    NonceUsed,
    NoAllowOnce,
    Applied { option_id: Seq<char> },
}

/// A list with one more text at its end, and without its first ones where it is too long.
pub open spec fn bounded_push(list: Seq<Seq<char>>, text: Seq<char>) -> Seq<Seq<char>> {
    if list.len() >= MAX_TERMINAL_CONFIRMATION_HISTORY {
        list.drop_first().push(text)
    } else {
        list.push(text)
    }
}

impl RouterModel {
    /// What a confirmation by a higher authority comes to.
    pub open spec fn authority_response(
        self,
        call_id: Seq<char>,
        conversation: Seq<char>,
        principal: Seq<char>,
        entitled: bool,
        delivered: bool,
    ) -> AuthorityResponseModel {
        if !self.knows(call_id) {
            AuthorityResponseModel::Missing
        } else {
            let permission = self.permission(call_id);
            if permission.conversation != conversation {
                AuthorityResponseModel::WrongSession
            } else if permission.authority is None || permission.authority->0.gate is None || !(
            permission.authority->0.gate->0.decision is RequireAuthority) {
                AuthorityResponseModel::NotRequired
            } else {
                let authority = permission.authority->0;
                let gate = authority.gate->0;
                if gate.policy is None || gate.authority_nonce is None {
                    AuthorityResponseModel::NoPolicy
                } else if !entitled {
                    AuthorityResponseModel::NotEntitled
                } else if permission.lifecycle != ConfirmationLifecycle::Pending {
                    AuthorityResponseModel::Settled {
                        lifecycle: permission.lifecycle,
                        same_principal: permission.receipt is Some
                            && permission.receipt->0.principal == principal,
                    }
                } else if !permission.open {
                    AuthorityResponseModel::Gone
                } else if self.used_nonces.contains(gate.authority_nonce->0) {
                    AuthorityResponseModel::NonceUsed
                } else if authority.allow_once is None {
                    AuthorityResponseModel::NoAllowOnce
                } else if !delivered {
                    AuthorityResponseModel::Gone
                } else {
                    AuthorityResponseModel::Applied { option_id: authority.allow_once->0 }
                }
            }
        }
    }

    /// After a confirmation by a higher authority. Its nonce is used once, with the answer.
    pub open spec fn authority_responded(
        self,
        call_id: Seq<char>,
        conversation: Seq<char>,
        principal: Seq<char>,
        entitled: bool,
        delivered: bool,
    ) -> RouterModel {
        if !(self.authority_response(call_id, conversation, principal, entitled, true) is Applied) {
            self
        } else {
            let permission = self.permission(call_id);
            if !delivered {
                self.with_permission(call_id, permission.settled(ConfirmationLifecycle::Expired))
            } else {
                let authority = permission.authority->0;
                let gate = authority.gate->0;
                RouterModel {
                    used_nonces: bounded_push(self.used_nonces, gate.authority_nonce->0),
                    ..self.with_permission(
                        call_id,
                        PendingModel {
                            chosen: authority.allow_once,
                            receipt: Some(
                                AuthorityReceiptModel {
                                    operation_digest: gate.operation_digest,
                                    required_level: gate.decision->RequireAuthority_0,
                                    principal,
                                },
                            ),
                            ..permission.settled(ConfirmationLifecycle::Allowed)
                        },
                    )
                }
            }
        }
    }
}

/// What a confirmation by a higher authority is told to have come to, where it does not fail.
pub open spec fn authority_result(response: AuthorityResponseModel) -> Option<
    ConfirmationResponseResult,
> {
    match response {
        AuthorityResponseModel::Missing => Some(ConfirmationResponseResult::UnknownConfirmation),
        AuthorityResponseModel::WrongSession => Some(ConfirmationResponseResult::WrongSession),
        AuthorityResponseModel::Applied { option_id } => Some(ConfirmationResponseResult::Applied),
        AuthorityResponseModel::Settled { lifecycle, same_principal } => match lifecycle {
            ConfirmationLifecycle::Expired => Some(ConfirmationResponseResult::Expired),
            ConfirmationLifecycle::Allowed => if same_principal {
                Some(ConfirmationResponseResult::IdempotentSameDecision)
            } else {
                Some(ConfirmationResponseResult::ConflictDifferentDecision)
            },
            _ => Some(ConfirmationResponseResult::ConflictDifferentDecision),
        },
        _ => None,
    }
}

/// The error that a confirmation by a higher authority fails with.
pub open spec fn authority_error(response: AuthorityResponseModel, call_id: Seq<char>) -> (
    AgentErrorKind,
    Seq<char>,
) {
    match response {
        AuthorityResponseModel::NotRequired => (
            AgentErrorKind::BadRequest,
            "ACP permission does not require a higher authority"@,
        ),
        AuthorityResponseModel::NoPolicy => (
            AgentErrorKind::BadRequest,
            "ACP permission has no acknowledged policy to confirm under"@,
        ),
        AuthorityResponseModel::NotEntitled => (
            AgentErrorKind::BadRequest,
            "Principal cannot confirm the required authority"@,
        ),
        AuthorityResponseModel::NonceUsed => (
            AgentErrorKind::BadRequest,
            "Authority challenge was already used"@,
        ),
        AuthorityResponseModel::NoAllowOnce => (
            AgentErrorKind::BadRequest,
            "ACP permission offers no allow-once option"@,
        ),
        _ => (AgentErrorKind::BadRequest, "Pending ACP permission expired: "@ + call_id),
    }
}

fn list_contains(list: &Vec<String>, text: &str) -> (r: bool)
    ensures
        r == texts(list@).contains(text@),
{
    let mut i: usize = 0;
    while i < list.len()
        invariant
            i <= list@.len(),
            forall|j: int| 0 <= j < i ==> #[trigger] texts(list@)[j] != text@,
        decreases list@.len() - i,
    {
        assert(texts(list@)[i as int] == list@[i as int]@);
        if same_text(list[i].as_str(), text) {
            return true;
        }
        i = i + 1;
    }
    false
}

impl PermissionRouter {
    /// Takes the confirmation of an operation by the authority that it requires. Returns the answer
    /// to forward, where there is one, and what is to be told of the permissions that have expired
    /// before.
    pub fn confirm_authority_as(
        &mut self,
        call_id: &str,
        conversation_id: &str,
        principal: &ConfirmationPrincipalContext,
        now_ms: u64,
        delivered: bool,
    ) -> (r: (Result<ConfirmationResponseResult, AgentError>, Option<String>, Vec<SettledNotice>))
        requires
            old(self).wf(),
        ensures
            final(self).wf(),
            notices_view(r.2@) == (SettleRule::Due { now_ms }).notices(old(self)@.pending),
            ({
                let now = old(self)@.settled(SettleRule::Due { now_ms });
                let response = now.authority_response(
                    call_id@,
                    conversation_id@,
                    principal.user_id@,
                    principal.is_entitled(),
                    delivered,
                );
                &&& final(self)@ == now.authority_responded(
                    call_id@,
                    conversation_id@,
                    principal.user_id@,
                    principal.is_entitled(),
                    delivered,
                )
                &&& match r.0 {
                    Ok(result) => authority_result(response) == Some(result),
                    Err(error) => authority_result(response) is None && error@ == authority_error(
                        response,
                        call_id@,
                    ),
                }
                &&& text_view(r.1) == match response {
                    AuthorityResponseModel::Applied { option_id } => Some(option_id),
                    _ => None,
                }
            }),
    {
        let notices = self.expire_due_permissions(now_ms);
        let (result, forwarded) = self.respond_as_authority(
            call_id,
            conversation_id,
            principal,
            delivered,
        );
        (result, forwarded, notices)
    }

    fn respond_as_authority(
        &mut self,
        call_id: &str,
        conversation_id: &str,
        principal: &ConfirmationPrincipalContext,
        delivered: bool,
    ) -> (r: (Result<ConfirmationResponseResult, AgentError>, Option<String>))
        requires
            old(self).wf(),
        ensures
            final(self).wf(),
            final(self)@ == old(self)@.authority_responded(
                call_id@,
                conversation_id@,
                principal.user_id@,
                principal.is_entitled(),
                delivered,
            ),
            ({
                let response = old(self)@.authority_response(
                    call_id@,
                    conversation_id@,
                    principal.user_id@,
                    principal.is_entitled(),
                    delivered,
                );
                &&& match r.0 {
                    Ok(result) => authority_result(response) == Some(result),
                    Err(error) => authority_result(response) is None && error@ == authority_error(
                        response,
                        call_id@,
                    ),
                }
                &&& text_view(r.1) == match response {
                    AuthorityResponseModel::Applied { option_id } => Some(option_id),
                    _ => None,
                }
            }),
    {
        let ghost before = self@;
        let at = self.find_call(call_id);
        if at >= self.pending.len() {
            return (Ok(ConfirmationResponseResult::UnknownConfirmation), None);
        }
        let permission = &self.pending[at];
        assert(before.permission(call_id@) == permission@);
        if !same_text(permission.conversation_id.as_str(), conversation_id) {
            return (Ok(ConfirmationResponseResult::WrongSession), None);
        }
        let not_required = AgentError::bad_request(
            "ACP permission does not require a higher authority",
        );
        let authority = match &permission.command_eve {
            Some(authority) => authority,
            None => {
                return (Err(not_required), None);
            },
        };
        let gate = match &authority.gate {
            Some(gate) => gate,
            None => {
                return (Err(not_required), None);
            },
        };
        let required_level = match gate.decision {
            PermissionDecision::RequireAuthority(level) => level,
            _ => {
                return (Err(not_required), None);
            },
        };
        let nonce = match (&gate.policy, &gate.authority_nonce) {
            (Some(_), Some(nonce)) => nonce.clone(),
            _ => {
                return (
                    Err(
                        AgentError::bad_request(
                            "ACP permission has no acknowledged policy to confirm under",
                        ),
                    ),
                    None,
                );
            },
        };
        if !(principal.local_capability && same_text(principal.user_id.as_str(), LOCAL_OWNER)) {
            return (
                Err(AgentError::bad_request("Principal cannot confirm the required authority")),
                None,
            );
        }
        if permission.lifecycle != ConfirmationLifecycle::Pending {
            let same_principal = match &permission.authority_receipt {
                Some(receipt) => receipt.principal == principal.user_id,
                None => false,
            };
            let result = match permission.lifecycle {
                ConfirmationLifecycle::Expired => ConfirmationResponseResult::Expired,
                ConfirmationLifecycle::Allowed => if same_principal {
                    ConfirmationResponseResult::IdempotentSameDecision
                } else {
                    ConfirmationResponseResult::ConflictDifferentDecision
                },
                _ => ConfirmationResponseResult::ConflictDifferentDecision,
            };
            return (Ok(result), None);
        }
        if !permission.responder_open {
            return (Err(expired(call_id)), None);
        }
        if list_contains(&self.used_authority_nonces, nonce.as_str()) {
            return (Err(AgentError::bad_request("Authority challenge was already used")), None);
        }
        let option_id = match &authority.allow_once_option_id {
            Some(option_id) => option_id.clone(),
            None => {
                return (
                    Err(AgentError::bad_request("ACP permission offers no allow-once option")),
                    None,
                );
            },
        };
        let operation_digest = gate.operation_digest.clone();
        if !delivered {
            settle(&mut self.pending[at], ConfirmationLifecycle::Expired);
            assert(pending_view(self.pending@) =~= before.pending.update(
                at as int,
                before.pending[at as int].settled(ConfirmationLifecycle::Expired),
            ));
            prune(&mut self.pending);
            return (Err(expired(call_id)), None);
        }
        settle(&mut self.pending[at], ConfirmationLifecycle::Allowed);
        self.pending[at].chosen_option_id = Some(option_id.clone());
        self.pending[at].authority_receipt =
        Some(
            AuthorityReceipt {
                operation_digest,
                required_level,
                principal: principal.user_id.clone(),
            },
        );
        assert(pending_view(self.pending@) =~= before.pending.update(
            at as int,
            (PendingModel {
                chosen: Some(option_id@),
                receipt: Some(
                    AuthorityReceiptModel {
                        operation_digest: operation_digest@,
                        required_level,
                        principal: principal.user_id@,
                    },
                ),
                ..before.pending[at as int].settled(ConfirmationLifecycle::Allowed)
            }),
        ));
        prune(&mut self.pending);
        let ghost used = texts(self.used_authority_nonces@);
        if self.used_authority_nonces.len() >= MAX_TERMINAL_CONFIRMATION_HISTORY {
            let _ = self.used_authority_nonces.remove(0);
            assert(texts(self.used_authority_nonces@) =~= used.drop_first());
        }
        let ghost kept = texts(self.used_authority_nonces@);
        self.used_authority_nonces.push(nonce);
        assert(texts(self.used_authority_nonces@) =~= kept.push(nonce@));
        (Ok(ConfirmationResponseResult::Applied), Some(option_id))
    }

    /// The receipt of the authority that confirmed a call.
    pub fn authority_receipt_of(&self, call_id: &str) -> (r: Option<&AuthorityReceipt>)
        ensures
            match r {
                Some(receipt) => self@.knows(call_id@) && self@.permission(call_id@).receipt
                    == authority_receipt_view(Some(*receipt)),
                None => self@.knows(call_id@) ==> self@.permission(call_id@).receipt is None,
            },
    {
        let at = self.find_call(call_id);
        if at < self.pending.len() {
            assert(self@.permission(call_id@) == self.pending@[at as int]@);
            match &self.pending[at].authority_receipt {
                Some(receipt) => Some(receipt),
                None => None,
            }
        } else {
            None
        }
    }

    /// How many challenges are known to have been used.
    pub fn used_authority_nonce_count(&self) -> (r: usize)
        ensures
            r == self@.used_nonces.len(),
    {
        self.used_authority_nonces.len()
    }

    /// How many permissions are known that have ended.
    pub fn terminal_confirmation_count(&self) -> (r: usize)
        ensures
            r == terminal_count(self@.pending),
    {
        count_terminal(&self.pending)
    }
}

proof fn lemma_terminal_count_remove(pending: Seq<PendingModel>, at: int)
    requires
        0 <= at < pending.len(),
    ensures
        terminal_count(pending.remove(at)) == terminal_count(pending) - if pending[at].lifecycle
            != ConfirmationLifecycle::Pending {
            1int
        } else {
            0int
        },
    decreases pending.len(),
{
    if at == pending.len() - 1 {
        assert(pending.remove(at) =~= pending.drop_last());
    } else {
        lemma_terminal_count_remove(pending.drop_last(), at);
        assert(pending.remove(at).drop_last() =~= pending.drop_last().remove(at));
        assert(pending.remove(at).last() == pending.last());
    }
}

proof fn lemma_terminal_exists(pending: Seq<PendingModel>)
    requires
        terminal_count(pending) > 0,
    ensures
        exists|i: int|
            0 <= i < pending.len() && (#[trigger] pending[i]).lifecycle
                != ConfirmationLifecycle::Pending,
    decreases pending.len(),
{
    if pending.last().lifecycle != ConfirmationLifecycle::Pending {
        assert(pending[pending.len() - 1].lifecycle != ConfirmationLifecycle::Pending);
    } else {
        lemma_terminal_exists(pending.drop_last());
        let i = choose|i: int|
            0 <= i < pending.drop_last().len() && (#[trigger] pending.drop_last()[i]).lifecycle
                != ConfirmationLifecycle::Pending;
        assert(pending[i].lifecycle != ConfirmationLifecycle::Pending);
    }
}

proof fn lemma_oldest_resolved_is(pending: Seq<PendingModel>)
    ensures
        oldest_resolved(pending) <= pending.len(),
        oldest_resolved(pending) < pending.len() ==> pending[oldest_resolved(
            pending,
        ) as int].lifecycle.is_resolved(),
    decreases pending.len(),
{
    if pending.len() > 0 && !pending[0].lifecycle.is_resolved() {
        lemma_oldest_resolved_is(pending.drop_first());
    }
}

proof fn lemma_oldest_terminal_is(pending: Seq<PendingModel>)
    ensures
        oldest_terminal(pending) <= pending.len(),
        oldest_terminal(pending) < pending.len() ==> pending[oldest_terminal(pending) as int].lifecycle
            != ConfirmationLifecycle::Pending,
        (exists|i: int|
            0 <= i < pending.len() && (#[trigger] pending[i]).lifecycle
                != ConfirmationLifecycle::Pending) ==> oldest_terminal(pending) < pending.len(),
    decreases pending.len(),
{
    if pending.len() > 0 && pending[0].lifecycle == ConfirmationLifecycle::Pending {
        let rest = pending.drop_first();
        lemma_oldest_terminal_is(rest);
        if exists|i: int|
            0 <= i < pending.len() && (#[trigger] pending[i]).lifecycle
                != ConfirmationLifecycle::Pending {
            let i = choose|i: int|
                0 <= i < pending.len() && (#[trigger] pending[i]).lifecycle
                    != ConfirmationLifecycle::Pending;
            assert(rest[i - 1].lifecycle != ConfirmationLifecycle::Pending);
        }
    }
}

/// What is kept of the permissions that have ended is bounded, and no pending permission is ever
/// forgotten for it.
pub proof fn history_is_bounded_and_pending_is_kept(pending: Seq<PendingModel>)
    ensures
        terminal_count(pruned(pending)) <= MAX_TERMINAL_CONFIRMATION_HISTORY,
        forall|i: int|
            0 <= i < pending.len() && (#[trigger] pending[i]).lifecycle
                == ConfirmationLifecycle::Pending ==> pruned(pending).contains(pending[i]),
    decreases pending.len(),
{
    lemma_oldest_resolved_is(pending);
    lemma_oldest_terminal_is(pending);
    if terminal_count(pending) > MAX_TERMINAL_CONFIRMATION_HISTORY {
        lemma_terminal_exists(pending);
        let at = first_to_forget(pending) as int;
        let rest = pending.remove(at);
        history_is_bounded_and_pending_is_kept(rest);
        assert forall|i: int|
            0 <= i < pending.len() && (#[trigger] pending[i]).lifecycle
                == ConfirmationLifecycle::Pending implies pruned(pending).contains(pending[i]) by {
            let j = if i < at {
                i
            } else {
                i - 1
            };
            assert(rest[j] == pending[i]);
        }
    } else {
        assert forall|i: int|
            0 <= i < pending.len() && (#[trigger] pending[i]).lifecycle
                == ConfirmationLifecycle::Pending implies pruned(pending).contains(pending[i]) by {
            assert(pruned(pending)[i] == pending[i]);
        }
    }
}

proof fn lemma_pruned_subset(pending: Seq<PendingModel>)
    requires
        distinct_calls(pending),
    ensures
        distinct_calls(pruned(pending)),
        forall|i: int|
            0 <= i < pruned(pending).len() ==> pending.contains(#[trigger] pruned(pending)[i]),
    decreases pending.len(),
{
    if terminal_count(pending) <= MAX_TERMINAL_CONFIRMATION_HISTORY || first_to_forget(pending)
        >= pending.len() {
        assert forall|i: int| 0 <= i < pruned(pending).len() implies pending.contains(
            #[trigger] pruned(pending)[i],
        ) by {
            assert(pending[i] == pruned(pending)[i]);
        }
    } else {
        let at = first_to_forget(pending) as int;
        let rest = pending.remove(at);
        assert(distinct_calls(rest)) by {
            assert forall|i: int, j: int|
                0 <= i < rest.len() && 0 <= j < rest.len() && (#[trigger] rest[i]).call_id == (
                #[trigger] rest[j]).call_id implies i == j by {
                let a = if i < at {
                    i
                } else {
                    i + 1
                };
                let b = if j < at {
                    j
                } else {
                    j + 1
                };
                assert(rest[i] == pending[a] && rest[j] == pending[b]);
            }
        }
        lemma_pruned_subset(rest);
        assert forall|i: int| 0 <= i < pruned(pending).len() implies pending.contains(
            #[trigger] pruned(pending)[i],
        ) by {
            assert(rest.contains(pruned(rest)[i]));
            let j = choose|j: int| 0 <= j < rest.len() && rest[j] == pruned(rest)[i];
            let a = if j < at {
                j
            } else {
                j + 1
            };
            assert(pending[a] == pruned(pending)[i]);
        }
    }
}

proof fn lemma_call_index_is(pending: Seq<PendingModel>, call_id: Seq<char>)
    ensures
        call_index(pending, call_id) <= pending.len(),
        call_index(pending, call_id) < pending.len() ==> pending[call_index(
            pending,
            call_id,
        ) as int].call_id == call_id,
    decreases pending.len(),
{
    if pending.len() > 0 && pending[0].call_id != call_id {
        lemma_call_index_is(pending.drop_first(), call_id);
    }
}

/// A permission is answered at most once: once an answer was forwarded, or lost on the way, no
/// other answer of that call is forwarded, whatever it is and wherever it comes from.
pub proof fn permission_is_answered_at_most_once(
    model: RouterModel,
    call_id: Seq<char>,
    option_id: Seq<char>,
    conversation: Option<Seq<char>>,
    delivered: bool,
    later_option: Seq<char>,
    later_conversation: Option<Seq<char>>,
)
    requires
        model.wf(),
        model.would_forward(call_id, option_id, conversation),
    ensures
        !model.responded(call_id, option_id, conversation, delivered).would_forward(
            call_id,
            later_option,
            later_conversation,
        ),
        model.responded(call_id, option_id, conversation, delivered).wf(),
{
    let after = model.responded(call_id, option_id, conversation, delivered);
    let at = model.index(call_id);
    lemma_call_index_is(model.pending, call_id);
    let permission = model.permission(call_id);
    let choice = permission.choice(option_id);
    let changed = if !delivered {
        permission.settled(ConfirmationLifecycle::Expired)
    } else {
        PendingModel {
            chosen: Some(option_id),
            ..permission.settled(
                if choice->allowed {
                    ConfirmationLifecycle::Allowed
                } else {
                    ConfirmationLifecycle::Denied
                },
            )
        }
    };
    let updated = model.pending.update(at, changed);
    assert(after.pending == pruned(updated));
    assert(distinct_calls(updated)) by {
        assert forall|i: int, j: int|
            0 <= i < updated.len() && 0 <= j < updated.len() && (#[trigger] updated[i]).call_id == (
            #[trigger] updated[j]).call_id implies i == j by {
            assert(updated[i].call_id == model.pending[i].call_id);
            assert(updated[j].call_id == model.pending[j].call_id);
        }
    }
    lemma_pruned_subset(updated);
    lemma_call_index_is(after.pending, call_id);
    if after.knows(call_id) {
        let found = after.permission(call_id);
        assert(updated.contains(after.pending[after.index(call_id)]));
        let j = choose|j: int| 0 <= j < updated.len() && updated[j] == found;
        assert(updated[j].call_id == updated[at].call_id);
        assert(found == changed);
    }
}

/// A user can never allow an operation that is blocked, unsupported or reserved for a higher
/// authority.
pub proof fn gated_operation_is_never_allowed_by_a_user(
    permission: PendingModel,
    option_id: Seq<char>,
)
    requires
        permission.authority is Some,
        permission.authority->0.gated(),
    ensures
        permission.choice(option_id) is Forward ==> !permission.choice(option_id)->allowed,
{
}

/// Only a routine operation under an acknowledged policy can be granted for a session.
pub proof fn only_routine_operations_can_be_granted(
    policy: Option<SnapshotModel>,
    workspace: Seq<char>,
    canonical_workspace: Seq<char>,
    rules: RulesModel,
    within: bool,
    request: PermissionRequestModel,
    nonce: Seq<char>,
)
    requires
        gated_authority(
            policy,
            workspace,
            canonical_workspace,
            rules,
            within,
            request,
            nonce,
        ).grant_key is Some,
    ensures
        policy is Some,
        can_be_granted(classification(request, workspace, rules, within).class),
        !gated_authority(
            policy,
            workspace,
            canonical_workspace,
            rules,
            within,
            request,
            nonce,
        ).gated() || policy->0.mode == PermissionMode::Guarded
            || !policy->0.capabilities.trusted_classification,
{
}

proof fn lemma_nothing_shown(pending: Seq<PendingModel>)
    requires
        forall|i: int| 0 <= i < pending.len() ==> (#[trigger] pending[i]).lifecycle.is_resolved(),
    ensures
        shown_cards(pending) == Seq::<CardModel>::empty(),
    decreases pending.len(),
{
    if pending.len() > 0 {
        let front = pending.drop_last();
        assert(pending[pending.len() - 1].lifecycle.is_resolved());
        assert forall|i: int| 0 <= i < front.len() implies (
        #[trigger] front[i]).lifecycle.is_resolved() by {
            assert(front[i] == pending[i]);
        }
        lemma_nothing_shown(front);
    }
}

/// After everything was taken back, nothing is pending, nothing is shown and nothing is granted.
pub proof fn nothing_survives_a_cancellation(
    model: RouterModel,
    authority: AuthorityModel,
    now_ms: u64,
)
    ensures
        forall|i: int|
            0 <= i < model.cancelled().pending.len() ==> (
            #[trigger] model.cancelled().pending[i]).lifecycle.is_resolved(),
        shown_cards(model.cancelled().pending) == Seq::<CardModel>::empty(),
        !model.cancelled().covers(authority, now_ms),
{
    lemma_resolved_only(model.settled(SettleRule::All).pending);
    lemma_nothing_shown(model.cancelled().pending);
}

/// A router that is being shut down routes no request, whatever the request is and whoever asks.
pub proof fn closing_router_routes_nothing(
    model: RouterModel,
    request: PermissionRequestModel,
    authority: Option<AuthorityModel>,
    now_ms: u64,
)
    requires
        model.closing,
    ensures
        model.route(request, authority, now_ms) == RouteModel::Closing,
{
}

/// A request that is refused without asking is shown with what became of it, and offers nothing.
pub proof fn refused_request_is_shown_as_refused(
    model: RouterModel,
    request: PermissionRequestModel,
    authority: Option<AuthorityModel>,
    now_ms: u64,
    card: CardModel,
)
    ensures
        ({
            let route = model.route(request, authority, now_ms);
            &&& route is Deny ==> route.refusal() == Some(ConfirmationLifecycle::Denied)
                && settled_card(card, route.refusal()->0).action == Some("denied"@)
            &&& route is Superseded ==> route.refusal() == Some(ConfirmationLifecycle::Superseded)
                && settled_card(card, route.refusal()->0).action == Some("superseded"@)
            &&& route.refusal() is Some ==> settled_card(card, route.refusal()->0).options.len()
                == 0
        }),
{
}

proof fn lemma_outcomes_keep_calls(rule: SettleRule, pending: Seq<PendingModel>)
    requires
        distinct_calls(pending),
    ensures
        distinct_calls(rule.outcomes(pending)),
{
    let ended = rule.outcomes(pending);
    assert forall|i: int, j: int|
        0 <= i < ended.len() && 0 <= j < ended.len() && (#[trigger] ended[i]).call_id == (
        #[trigger] ended[j]).call_id implies i == j by {
        assert(ended[i] == rule.outcome(pending[i]));
        assert(ended[j] == rule.outcome(pending[j]));
        assert(pending[i].call_id == pending[j].call_id);
    }
}

/// Under a policy nothing that was asked for under another one is pending any more, and no grant
/// made under another one covers anything.
pub proof fn policy_change_ends_what_came_before(
    model: RouterModel,
    policy: SnapshotModel,
    authority: AuthorityModel,
    now_ms: u64,
)
    requires
        model.wf(),
    ensures
        forall|i: int|
            0 <= i < model.under_policy(policy).pending.len() ==> !(
            #[trigger] model.under_policy(policy).pending[i]).is_outdated(
                policy.policy_revision,
                policy.session_epoch,
            ),
        !model.is_current(Some(policy)) ==> !model.under_policy(policy).covers(authority, now_ms),
{
    let rule = SettleRule::Policy {
        policy_revision: policy.policy_revision,
        session_epoch: policy.session_epoch,
    };
    let ended = rule.outcomes(model.pending);
    lemma_outcomes_keep_calls(rule, model.pending);
    lemma_pruned_subset(ended);
    assert forall|i: int| 0 <= i < model.under_policy(policy).pending.len() implies !(
    #[trigger] model.under_policy(policy).pending[i]).is_outdated(
        policy.policy_revision,
        policy.session_epoch,
    ) by {
        assert(ended.contains(pruned(ended)[i]));
        let j = choose|j: int| 0 <= j < ended.len() && ended[j] == pruned(ended)[i];
        assert(ended[j] == rule.outcome(model.pending[j]));
    }
}

/// A request whose policy is no longer in force is never answered by its mode or a grant.
pub proof fn stale_policy_answers_nothing(
    model: RouterModel,
    authority: AuthorityModel,
    from_grant: bool,
    now_ms: u64,
)
    requires
        authority.gate is Some,
        !model.is_current(authority.gate->0.policy),
    ensures
        model.auto_allow(authority, from_grant, now_ms) == AutoAllowModel::Superseded,
{
}

/// A grant covers an operation only under the exact policy that it was made under.
pub proof fn grant_matches_only_its_policy(
    model: RouterModel,
    first: AuthorityModel,
    second: AuthorityModel,
    now_ms: u64,
)
    requires
        first.grant_key == second.grant_key,
        model.covers(first, now_ms),
        model.covers(second, now_ms),
    ensures
        first.policy_key() == second.policy_key(),
{
}

/// The challenge of a higher authority is used with the first answer that it gives, and counts for
/// no other operation.
pub proof fn authority_challenge_is_used_once(
    model: RouterModel,
    call_id: Seq<char>,
    conversation: Seq<char>,
    principal: Seq<char>,
)
    requires
        model.authority_response(call_id, conversation, principal, true, true) is Applied,
    ensures
        model.authority_responded(call_id, conversation, principal, true, true).used_nonces.contains(
            model.permission(call_id).authority->0.gate->0.authority_nonce->0,
        ),
{
    let nonce = model.permission(call_id).authority->0.gate->0.authority_nonce->0;
    let used = bounded_push(model.used_nonces, nonce);
    assert(used[used.len() - 1] == nonce);
}

/// Every call stays known once: asking for a permission takes the place of an earlier request of the
/// same call, and nothing else brings one in.
pub proof fn calls_stay_distinct(
    model: RouterModel,
    permission: PendingModel,
    rule: SettleRule,
)
    requires
        model.wf(),
    ensures
        model.with_asked(permission).wf(),
        model.settled(rule).wf(),
        model.cancelled().wf(),
{
    lemma_outcomes_keep_calls(rule, model.pending);
    lemma_pruned_subset(rule.outcomes(model.pending));
    lemma_outcomes_keep_calls(SettleRule::All, model.pending);
    lemma_pruned_subset(SettleRule::All.outcomes(model.pending));
    lemma_resolved_only(model.settled(SettleRule::All).pending);
    let call_id = permission.call_id;
    let at = call_index(model.pending, call_id) as int;
    lemma_call_index_is(model.pending, call_id);
    let kept = without_call(model.pending, call_id);
    assert forall|i: int| 0 <= i < kept.len() implies (#[trigger] kept[i]).call_id != call_id by {
        if at < model.pending.len() {
            let a = if i < at {
                i
            } else {
                i + 1
            };
            assert(kept[i] == model.pending[a]);
        } else {
            lemma_unknown_call(model.pending, call_id, i);
        }
    }
    let after = kept.push(permission);
    assert forall|i: int, j: int|
        0 <= i < after.len() && 0 <= j < after.len() && (#[trigger] after[i]).call_id == (
        #[trigger] after[j]).call_id implies i == j by {
        if i < kept.len() && j < kept.len() {
            let a = if at < model.pending.len() && i >= at {
                i + 1
            } else {
                i
            };
            let b = if at < model.pending.len() && j >= at {
                j + 1
            } else {
                j
            };
            assert(after[i] == model.pending[a] && after[j] == model.pending[b]);
        } else if i < kept.len() {
            assert(after[i] == kept[i]);
        } else if j < kept.len() {
            assert(after[j] == kept[j]);
        }
    }
}

proof fn lemma_unknown_call(pending: Seq<PendingModel>, call_id: Seq<char>, i: int)
    requires
        call_index(pending, call_id) >= pending.len(),
        0 <= i < pending.len(),
    ensures
        pending[i].call_id != call_id,
    decreases pending.len(),
{
    if i > 0 {
        lemma_unknown_call(pending.drop_first(), call_id, i - 1);
        assert(pending.drop_first()[i - 1] == pending[i]);
    }
}

/// Where the metadata of a tool call holds the challenge of a higher authority.
pub const COMMAND_EVE_AUTHORITY_CHALLENGE_META_KEY: &'static str = "command_eve_authority_challenge";

/// The challenge of a higher authority, as JSON.
pub open spec fn challenge_json(operation_digest: Seq<char>, nonce: Seq<char>) -> Json {
    Json::Object(
        seq![
            ("operation_digest"@, Json::Text(operation_digest)),
            ("single_use_nonce"@, Json::Text(nonce)),
        ],
    )
}

/// Puts the challenge of an operation that requires a higher authority into the metadata of its
/// tool call, and leaves everything else of the request as it is.
pub fn attach_authority_challenge(
    request: &mut AcpPermissionRequestData,
    authority: &CommandEveAuthority,
)
    ensures
        final(request).session_id == old(request).session_id,
        final(request).options == old(request).options,
        final(request).meta == old(request).meta,
        final(request).tool_call == (AcpPermissionToolCall {
            meta: final(request).tool_call.meta,
            ..old(request).tool_call
        }),
        authority@.gate is Some && authority@.gate->0.authority_nonce is Some ==> {
            &&& final(request).tool_call.meta is Some
            &&& json_entries(final(request).tool_call.meta->0@) == with_entry(
                meta_entries(old(request).tool_call.meta),
                COMMAND_EVE_AUTHORITY_CHALLENGE_META_KEY@,
                challenge_json(
                    authority@.gate->0.operation_digest,
                    authority@.gate->0.authority_nonce->0,
                ),
            )
            &&& meta_value(
                final(request).tool_call.meta,
                COMMAND_EVE_AUTHORITY_CHALLENGE_META_KEY@,
            ) == Some(
                challenge_json(
                    authority@.gate->0.operation_digest,
                    authority@.gate->0.authority_nonce->0,
                ),
            )
        },
        authority@.gate is None || authority@.gate->0.authority_nonce is None
            ==> final(request).tool_call.meta == old(request).tool_call.meta,
{
    if let Some(gate) = &authority.gate {
        if let Some(nonce) = &gate.authority_nonce {
            let mut challenge: Vec<(String, JsonValue)> = Vec::new();
            push_entry(
                &mut challenge,
                "operation_digest",
                JsonValue::Text(gate.operation_digest.clone()),
            );
            push_entry(&mut challenge, "single_use_nonce", JsonValue::Text(nonce.clone()));
            assert(json_entries(challenge@) =~= seq![
                ("operation_digest"@, Json::Text(gate@.operation_digest)),
                ("single_use_nonce"@, Json::Text(nonce@)),
            ]);
            let mut entries = match request.tool_call.meta.take() {
                Some(entries) => entries,
                None => Vec::new(),
            };
            proof {
                set_entry_is_read_back(
                    json_entries(entries@),
                    COMMAND_EVE_AUTHORITY_CHALLENGE_META_KEY@,
                    challenge_json(gate@.operation_digest, nonce@),
                );
            }
            set_entry(
                &mut entries,
                COMMAND_EVE_AUTHORITY_CHALLENGE_META_KEY,
                JsonValue::Object(challenge),
            );
            request.tool_call.meta = Some(entries);
        }
    }
}

proof fn lemma_terminal_count_update(pending: Seq<PendingModel>, at: int, changed: PendingModel)
    requires
        0 <= at < pending.len(),
        pending[at].lifecycle == ConfirmationLifecycle::Pending,
    ensures
        terminal_count(pending.update(at, changed)) <= terminal_count(pending) + 1,
    decreases pending.len(),
{
    let after = pending.update(at, changed);
    if at == pending.len() - 1 {
        assert(after.drop_last() =~= pending.drop_last());
    } else {
        lemma_terminal_count_update(pending.drop_last(), at, changed);
        assert(after.drop_last() =~= pending.drop_last().update(at, changed));
        assert(after.last() == pending.last());
    }
}

proof fn lemma_call_index_update(pending: Seq<PendingModel>, at: int, changed: PendingModel, call_id: Seq<char>)
    requires
        0 <= at < pending.len(),
        pending[at].call_id == changed.call_id,
    ensures
        call_index(pending.update(at, changed), call_id) == call_index(pending, call_id),
    decreases pending.len(),
{
    let after = pending.update(at, changed);
    if pending[0].call_id != call_id {
        if at > 0 {
            lemma_call_index_update(pending.drop_first(), at - 1, changed, call_id);
            assert(after.drop_first() =~= pending.drop_first().update(at - 1, changed));
        } else {
            assert(after.drop_first() =~= pending.drop_first());
        }
    }
}

/// Whether a call waits for an answer that may come from a conversation.
pub open spec fn waits_for_answer(
    model: RouterModel,
    call_id: Seq<char>,
    conversation: Option<Seq<char>>,
) -> bool {
    &&& model.knows(call_id)
    &&& model.permission(call_id).lifecycle == ConfirmationLifecycle::Pending
    &&& model.permission(call_id).open
    &&& (conversation is Some && model.permission(call_id).authority is Some
        ==> conversation->0 == model.permission(call_id).conversation)
}

/// What the user chooses is what the agent gets: a refusal and a single allowance are forwarded as
/// the very answer that was chosen, and an allowance for the session as the single allowance that
/// the request offers. An operation that a user cannot allow takes refusals only; a permanent answer
/// and one that the request does not offer are not taken. An answer that its responder does not take
/// is lost, and nothing else about it changes.
pub proof fn answer_is_forwarded_as_chosen(
    model: RouterModel,
    call_id: Seq<char>,
    option_id: Seq<char>,
    conversation: Option<Seq<char>>,
)
    requires
        waits_for_answer(model, call_id, conversation),
    ensures
        ({
            let authority = model.permission(call_id).authority;
            let response = model.response(call_id, option_id, conversation, true);
            let meaning = disposition_of(authority->0.dispositions, option_id);
            let reserved = authority->0.gate is Some && match authority->0.gate->0.decision {
                PermissionDecision::RequireAuthority(_) => true,
                PermissionDecision::Block => true,
                PermissionDecision::Unsupported => true,
                PermissionDecision::Allow => false,
                PermissionDecision::Ask => false,
                PermissionDecision::AskWithOwner(_) => false,
            };
            &&& authority is None ==> response == ResponseModel::Forwarded { option_id }
            &&& authority is Some && meaning == Some(OptionDisposition::RejectOnce) ==> response
                == ResponseModel::Forwarded { option_id }
            &&& authority is Some && meaning == Some(OptionDisposition::AllowOnce) && !reserved
                ==> response == ResponseModel::Forwarded { option_id }
            &&& authority is Some && meaning == Some(OptionDisposition::ExactSession) && !reserved
                && authority->0.allow_once is Some && authority->0.grant_key is Some ==> response
                == ResponseModel::Forwarded { option_id: authority->0.allow_once->0 }
            &&& authority is Some && reserved && meaning != Some(OptionDisposition::RejectOnce)
                ==> !(response is Forwarded)
            &&& authority is Some && meaning == Some(OptionDisposition::UnsupportedPermanent)
                ==> response == ResponseModel::Permanent
            &&& authority is Some && meaning is None ==> response == ResponseModel::UnknownOption
            &&& authority is Some && meaning == Some(OptionDisposition::ExactSession) && (
            authority->0.allow_once is None || authority->0.grant_key is None)
                ==> !(response is Forwarded)
            &&& model.response(call_id, option_id, conversation, false) == if response is Forwarded {
                ResponseModel::Gone
            } else {
                response
            }
        }),
{
}

/// The state that an answer leaves: the permission is closed and remembers the answer, as allowed
/// where an allowance was forwarded and as denied where a refusal was, and its card says so and
/// offers nothing. Every other permission, and everything else, stays as it was; only an allowance
/// for the session adds a grant, of this very operation under its policy, without an end.
pub proof fn answer_is_recorded_as_it_was_forwarded(
    model: RouterModel,
    call_id: Seq<char>,
    option_id: Seq<char>,
    conversation: Option<Seq<char>>,
    other: Seq<char>,
)
    requires
        model.would_forward(call_id, option_id, conversation),
        terminal_count(model.pending) < 256,
        other != call_id,
    ensures
        ({
            let permission = model.permission(call_id);
            let authority = permission.authority->0;
            let after = model.responded(call_id, option_id, conversation, true);
            let answered = after.permission(call_id);
            let forwarded = model.response(call_id, option_id, conversation, true)->option_id;
            let meaning = disposition_of(authority.dispositions, option_id);
            &&& after.knows(call_id)
            &&& !answered.open
            &&& answered.chosen == Some(option_id)
            &&& answered.card.options.len() == 0
            &&& answered.card.action == Some(answered.lifecycle.name())
            &&& answered.card.title == permission.card.title
            &&& answered.card.description == permission.card.description
            &&& answered.card.call_id == permission.card.call_id
            &&& answered.authority == permission.authority
            &&& answered.nonce == permission.nonce
            &&& permission.authority is Some ==> (answered.lifecycle
                == ConfirmationLifecycle::Denied <==> meaning == Some(
                OptionDisposition::RejectOnce,
            )) && (answered.lifecycle == ConfirmationLifecycle::Allowed <==> (meaning == Some(
                OptionDisposition::AllowOnce,
            ) || meaning == Some(OptionDisposition::ExactSession)))
            &&& permission.authority is Some && answered.lifecycle == ConfirmationLifecycle::Denied
                ==> forwarded == option_id && disposition_of(authority.dispositions, forwarded)
                == Some(OptionDisposition::RejectOnce)
            &&& permission.authority is Some && answered.lifecycle
                == ConfirmationLifecycle::Allowed && (authority.allow_once is Some
                ==> disposition_of(authority.dispositions, authority.allow_once->0) == Some(
                OptionDisposition::AllowOnce,
            )) ==> disposition_of(authority.dispositions, forwarded) == Some(
                OptionDisposition::AllowOnce,
            )
            &&& permission.authority is Some && meaning == Some(OptionDisposition::ExactSession)
                ==> {
                let grant = after.grants[authority.grant_key->0];
                &&& after.grants.dom() =~= model.grants.dom().insert(authority.grant_key->0)
                &&& (grant.policy_revision, grant.session_epoch) == authority.policy_key()
                &&& grant.expires_at_ms is None && !grant.revoked
            }
            &&& permission.authority is None || meaning != Some(OptionDisposition::ExactSession)
                ==> after.grants == model.grants
            &&& after.next_nonce == model.next_nonce
            &&& after.closing == model.closing
            &&& after.policy == model.policy
            &&& after.used_nonces == model.used_nonces
            &&& after.pending.len() == model.pending.len()
            &&& after.knows(other) == model.knows(other)
            &&& model.knows(other) ==> after.permission(other) == model.permission(other)
        }),
{
    let at = model.index(call_id);
    lemma_call_index_is(model.pending, call_id);
    let permission = model.permission(call_id);
    let choice = permission.choice(option_id);
    let changed = PendingModel {
        chosen: Some(option_id),
        ..permission.settled(
            if choice->allowed {
                ConfirmationLifecycle::Allowed
            } else {
                ConfirmationLifecycle::Denied
            },
        )
    };
    lemma_terminal_count_update(model.pending, at, changed);
    lemma_call_index_update(model.pending, at, changed, call_id);
    lemma_call_index_update(model.pending, at, changed, other);
    lemma_call_index_is(model.pending, other);
    let after = model.responded(call_id, option_id, conversation, true);
    assert(after.pending == model.pending.update(at, changed));
    if model.knows(other) {
        assert(model.index(other) != at);
    }
}

/// A grant covers the operation that it was given for at once, under its policy, and no operation
/// with another digest that was not covered before.
pub proof fn allowance_for_the_session_covers_the_operation(
    model: RouterModel,
    call_id: Seq<char>,
    option_id: Seq<char>,
    conversation: Option<Seq<char>>,
    other: AuthorityModel,
    now_ms: u64,
)
    requires
        model.would_forward(call_id, option_id, conversation),
        model.permission(call_id).authority is Some,
        disposition_of(model.permission(call_id).authority->0.dispositions, option_id) == Some(
            OptionDisposition::ExactSession,
        ),
    ensures
        model.responded(call_id, option_id, conversation, true).covers(
            model.permission(call_id).authority->0,
            now_ms,
        ),
        other.grant_key != model.permission(call_id).authority->0.grant_key ==> model.responded(
            call_id,
            option_id,
            conversation,
            true,
        ).covers(other, now_ms) == model.covers(other, now_ms),
{
}

/// What an answer means is what the request offers it for: the meaning of an id is that of the last
/// entry with it, and an id that is not there means nothing.
pub proof fn meaning_is_that_of_the_offered_answer(
    list: Seq<(Seq<char>, OptionDisposition)>,
    at: int,
    option_id: Seq<char>,
)
    ensures
        0 <= at < list.len() && list[at].0 == option_id && (forall|i: int|
            at < i < list.len() ==> (#[trigger] list[i]).0 != option_id) ==> disposition_of(
            list,
            option_id,
        ) == Some(list[at].1),
        (forall|i: int| 0 <= i < list.len() ==> (#[trigger] list[i]).0 != option_id)
            ==> disposition_of(list, option_id) is None,
    decreases list.len(),
{
    if list.len() > 0 {
        let front = list.drop_last();
        meaning_is_that_of_the_offered_answer(front, at, option_id);
        assert forall|i: int| 0 <= i < front.len() implies #[trigger] front[i] == list[i] by {}
        assert(list[list.len() - 1] == list.last());
    }
}

/// What each answer of a request means under Command EVE: a single allowance and a single refusal
/// mean what they say, an allowance that speaks of the session is for this exact request, and
/// anything permanent is not supported.
pub proof fn offered_answers_mean_what_they_say(options: Seq<OptionModel>, at: int)
    requires
        0 <= at < options.len(),
    ensures
        dispositions_of(options).len() == options.len(),
        dispositions_of(options)[at].0 == options[at].option_id,
        dispositions_of(options)[at].1 == OptionDisposition::AllowOnce <==> options[at].kind
            == PermissionOptionKind::AllowOnce,
        dispositions_of(options)[at].1 == OptionDisposition::RejectOnce <==> options[at].kind
            == PermissionOptionKind::RejectOnce,
        dispositions_of(options)[at].1 == OptionDisposition::ExactSession ==> options[at].kind
            == PermissionOptionKind::AllowAlways,
        options[at].kind == PermissionOptionKind::RejectAlways ==> dispositions_of(options)[at].1
            == OptionDisposition::UnsupportedPermanent,
{
}

/// What an answer is told to have come to: it is applied exactly where it was forwarded; repeating
/// the decision that was applied is recognised, and any other late answer is a conflict, unless the
/// permission had expired.
pub proof fn late_answers_are_told_apart(
    model: RouterModel,
    call_id: Seq<char>,
    option_id: Seq<char>,
    conversation: Option<Seq<char>>,
    delivered: bool,
)
    requires
        model.knows(call_id),
        conversation is Some && model.permission(call_id).authority is Some ==> conversation->0
            == model.permission(call_id).conversation,
    ensures
        ({
            let permission = model.permission(call_id);
            let response = model.response(call_id, option_id, conversation, delivered);
            let told = response_result(response);
            &&& told == ConfirmationResponseResult::Applied <==> response is Forwarded
            &&& response is Forwarded ==> permission.lifecycle == ConfirmationLifecycle::Pending
                && permission.open && delivered
            &&& permission.lifecycle == ConfirmationLifecycle::Expired ==> told
                == ConfirmationResponseResult::Expired
            &&& told == ConfirmationResponseResult::IdempotentSameDecision <==> (
            permission.lifecycle == ConfirmationLifecycle::Allowed || permission.lifecycle
                == ConfirmationLifecycle::Denied) && permission.chosen == Some(option_id)
            &&& (permission.lifecycle == ConfirmationLifecycle::Allowed || permission.lifecycle
                == ConfirmationLifecycle::Denied) && permission.chosen != Some(option_id) ==> told
                == ConfirmationResponseResult::ConflictDifferentDecision
            &&& permission.lifecycle == ConfirmationLifecycle::Cancelled || permission.lifecycle
                == ConfirmationLifecycle::Superseded ==> told
                == ConfirmationResponseResult::ConflictDifferentDecision
            &&& response_error(response, call_id, option_id) is None <==> response is Forwarded
        }),
{
}

/// An answer to a call that is not known, or from another conversation than the request's, forwards
/// nothing and changes nothing.
pub proof fn stray_answer_changes_nothing(
    model: RouterModel,
    call_id: Seq<char>,
    option_id: Seq<char>,
    conversation: Seq<char>,
    delivered: bool,
)
    ensures
        !model.knows(call_id) ==> {
            &&& response_result(
                model.response(call_id, option_id, Some(conversation), delivered),
            ) == ConfirmationResponseResult::UnknownConfirmation
            &&& model.responded(call_id, option_id, Some(conversation), delivered) == model
            &&& model.undelivered(call_id, option_id, Some(conversation), delivered).len() == 0
        },
        model.knows(call_id) && model.permission(call_id).authority is Some && model.permission(
            call_id,
        ).conversation != conversation ==> {
            &&& response_result(
                model.response(call_id, option_id, Some(conversation), delivered),
            ) == ConfirmationResponseResult::WrongSession
            &&& model.responded(call_id, option_id, Some(conversation), delivered) == model
            &&& model.undelivered(call_id, option_id, Some(conversation), delivered).len() == 0
        },
{
}

/// What ends permissions at once: only pending ones end. Waiting too long ends those whose responder
/// still waits when their time has come; another policy ends those of gated operations that were
/// asked for under none or a different one; taking back the policy ends those of the backend; and a
/// cancellation ends all. What ends is closed, and its card says how and offers nothing; what does
/// not end stays as it is.
pub proof fn rule_ends_exactly_what_it_names(rule: SettleRule, permission: PendingModel)
    ensures
        ({
            let after = rule.outcome(permission);
            let pending = permission.lifecycle == ConfirmationLifecycle::Pending;
            let gate = permission.authority->0.gate;
            let ends = pending && match rule {
                SettleRule::Due { now_ms } => permission.open && permission.expires_at is Some
                    && permission.expires_at->0 <= now_ms,
                SettleRule::Policy { policy_revision, session_epoch } => permission.authority is Some
                    && gate is Some && (gate->0.policy is None
                    || gate->0.policy->0.policy_revision != policy_revision
                    || gate->0.policy->0.session_epoch != session_epoch),
                SettleRule::CommandEve => permission.authority is Some,
                SettleRule::All => true,
            };
            &&& !ends ==> after == permission
            &&& ends ==> {
                &&& after.lifecycle == match rule {
                    SettleRule::Due { now_ms } => ConfirmationLifecycle::Expired,
                    SettleRule::Policy { policy_revision, session_epoch } =>
                        ConfirmationLifecycle::Superseded,
                    SettleRule::CommandEve => ConfirmationLifecycle::Superseded,
                    SettleRule::All => ConfirmationLifecycle::Cancelled,
                }
                &&& !after.open
                &&& after.card.options.len() == 0
                &&& after.card.action == Some(
                    match rule {
                        SettleRule::Due { now_ms } => "expired"@,
                        SettleRule::Policy { policy_revision, session_epoch } => "superseded"@,
                        SettleRule::CommandEve => "superseded"@,
                        SettleRule::All => "cancelled"@,
                    },
                )
                &&& after.call_id == permission.call_id
                &&& after.authority == permission.authority
                &&& after.chosen == permission.chosen
                &&& after.nonce == permission.nonce
                &&& after.conversation == permission.conversation
                &&& after.card.title == permission.card.title
                &&& after.card.description == permission.card.description
            }
        }),
{
}

/// Everybody is told of what a rule ends, once each, and of nothing else.
pub proof fn notices_tell_what_has_ended(rule: SettleRule, pending: Seq<PendingModel>, at: int)
    ensures
        rule.notices(pending).len() <= pending.len(),
        forall|i: int|
            0 <= i < pending.len() && #[trigger] rule.outcome(pending[i]) != pending[i]
                ==> rule.notices(pending).contains(
                NoticeModel {
                    call_id: pending[i].call_id,
                    responder_open: pending[i].open,
                    card: rule.outcome(pending[i]).card,
                },
            ),
        0 <= at < rule.notices(pending).len() ==> exists|i: int|
            0 <= i < pending.len() && pending[i].lifecycle == ConfirmationLifecycle::Pending
                && rule.notices(pending)[at].call_id == pending[i].call_id
                && rule.notices(pending)[at].responder_open == pending[i].open
                && rule.notices(pending)[at].card == (#[trigger] rule.outcome(pending[i])).card,
    decreases pending.len(),
{
    if pending.len() > 0 {
        let front = pending.drop_last();
        let last = pending.last();
        let before = rule.notices(front);
        let all = rule.notices(pending);
        notices_tell_what_has_ended(rule, front, at);
        assert(last == pending[pending.len() - 1]);
        assert forall|i: int|
            0 <= i < pending.len() && #[trigger] rule.outcome(pending[i]) != pending[i] implies all.contains(
            NoticeModel {
                call_id: pending[i].call_id,
                responder_open: pending[i].open,
                card: rule.outcome(pending[i]).card,
            },
        ) by {
            let told = NoticeModel {
                call_id: pending[i].call_id,
                responder_open: pending[i].open,
                card: rule.outcome(pending[i]).card,
            };
            if i < front.len() {
                assert(front[i] == pending[i]);
                assert(rule.outcome(front[i]) != front[i]);
                let j = choose|j: int| 0 <= j < before.len() && before[j] == told;
                assert(all[j] == told);
            } else {
                assert(all[all.len() - 1] == told);
            }
        }
        if 0 <= at < all.len() {
            if at < before.len() {
                let i = choose|i: int|
                    0 <= i < front.len() && front[i].lifecycle == ConfirmationLifecycle::Pending
                        && before[at].call_id == front[i].call_id && before[at].responder_open
                        == front[i].open && before[at].card == (#[trigger] rule.outcome(
                        front[i],
                    )).card;
                assert(front[i] == pending[i]);
                assert(all[at] == before[at]);
                assert(rule.outcome(pending[i]).card == all[at].card);
            } else {
                assert(rule.outcome(pending[pending.len() - 1]).card == all[at].card);
            }
        }
    }
}

/// Asking for a permission: it waits under its call, with the card, the authority and the
/// conversation that it came with, under a number that was never used, and until its time has come.
/// It takes the place of an earlier request of the same call; every other permission stays.
pub proof fn asked_permission_waits(
    model: RouterModel,
    call_id: Seq<char>,
    card: CardModel,
    authority: Option<AuthorityModel>,
    conversation: Seq<char>,
    now_ms: u64,
    ttl_ms: Option<u64>,
    other: Seq<char>,
)
    requires
        model.wf(),
        model.next_nonce < u64::MAX,
        ttl_ms is Some ==> now_ms + ttl_ms->0 <= u64::MAX,
        other != call_id,
    ensures
        ({
            let after = model.with_asked(
                asked(call_id, card, authority, conversation, model.next_nonce, now_ms, ttl_ms),
            );
            let waiting = after.permission(call_id);
            &&& after.knows(call_id)
            &&& waiting.lifecycle == ConfirmationLifecycle::Pending && waiting.open
            &&& waiting.authority == authority
            &&& waiting.conversation == conversation
            &&& waiting.chosen is None && waiting.receipt is None
            &&& waiting.nonce == model.next_nonce
            &&& waiting.expires_at is Some <==> ttl_ms is Some
            &&& ttl_ms is Some ==> waiting.expires_at->0 == now_ms + ttl_ms->0
            &&& waiting.card.title == card.title
            &&& waiting.card.options == card.options
            &&& waiting.card.action == card.action
            &&& waiting.card.description == card.description
            &&& authority is None ==> waiting.card == card
            &&& authority is Some && authority->0.gate is Some && authority->0.gate->0.policy is Some
                ==> {
                let told = waiting.card.authority->0;
                let gate = authority->0.gate->0;
                &&& waiting.card.authority is Some
                &&& told.operation_id == call_id
                &&& told.operation_digest == gate.operation_digest
                &&& told.confirmation_version == model.next_nonce
                &&& told.policy_revision == gate.policy->0.policy_revision
                &&& told.session_epoch == gate.policy->0.session_epoch
                &&& told.created_at_ms == now_ms
                &&& told.expires_at_ms == now_ms + match ttl_ms {
                    Some(ttl_ms) => ttl_ms,
                    None => 0,
                }
                &&& told.lifecycle == "pending"@
                &&& told.runtime_receipt_digest == gate.policy->0.runtime_receipt.receipt_digest
                &&& told.protocol_version == 1
            }
            &&& after.next_nonce == model.next_nonce + 1
            &&& after.grants == model.grants
            &&& after.policy == model.policy
            &&& after.closing == model.closing
            &&& after.used_nonces == model.used_nonces
            &&& after.knows(other) == model.knows(other)
            &&& model.knows(other) ==> after.permission(other) == model.permission(other)
        }),
{
    let added = asked(call_id, card, authority, conversation, model.next_nonce, now_ms, ttl_ms);
    let kept = without_call(model.pending, call_id);
    lemma_call_index_is(model.pending, call_id);
    lemma_without_call(model.pending, call_id, other);
    lemma_call_index_push(kept, added, call_id);
    lemma_call_index_push(kept, added, other);
    lemma_call_index_is(kept, other);
    lemma_call_index_is(kept, call_id);
}

proof fn lemma_call_index_push(pending: Seq<PendingModel>, added: PendingModel, call_id: Seq<char>)
    ensures
        call_index(pending, call_id) < pending.len() ==> call_index(pending.push(added), call_id)
            == call_index(pending, call_id),
        call_index(pending, call_id) >= pending.len() && added.call_id == call_id ==> call_index(
            pending.push(added),
            call_id,
        ) == pending.len(),
        call_index(pending, call_id) >= pending.len() && added.call_id != call_id ==> call_index(
            pending.push(added),
            call_id,
        ) == pending.len() + 1,
    decreases pending.len(),
{
    let after = pending.push(added);
    if pending.len() == 0 {
        assert(after.drop_first() =~= Seq::<PendingModel>::empty());
        reveal_with_fuel(call_index, 3);
    } else {
        assert(after[0] == pending[0]);
        assert(after.drop_first() =~= pending.drop_first().push(added));
        lemma_call_index_push(pending.drop_first(), added, call_id);
        lemma_call_index_is(pending.drop_first(), call_id);
    }
}

proof fn lemma_without_call(pending: Seq<PendingModel>, call_id: Seq<char>, other: Seq<char>)
    requires
        distinct_calls(pending),
        other != call_id,
    ensures
        call_index(without_call(pending, call_id), call_id) >= without_call(pending, call_id).len(),
        (call_index(pending, other) < pending.len()) == (call_index(
            without_call(pending, call_id),
            other,
        ) < without_call(pending, call_id).len()),
        call_index(pending, other) < pending.len() ==> without_call(
            pending,
            call_id,
        )[call_index(without_call(pending, call_id), other) as int] == pending[call_index(
            pending,
            other,
        ) as int],
    decreases pending.len(),
{
    let kept = without_call(pending, call_id);
    if pending.len() > 0 {
        let rest = pending.drop_first();
        assert forall|i: int, j: int|
            0 <= i < rest.len() && 0 <= j < rest.len() && (#[trigger] rest[i]).call_id == (
            #[trigger] rest[j]).call_id implies i == j by {
            assert(pending[i + 1] == rest[i] && pending[j + 1] == rest[j]);
        }
        lemma_without_call(rest, call_id, other);
        lemma_call_index_is(rest, call_id);
        lemma_call_index_is(rest, other);
        if pending[0].call_id == call_id {
            assert(kept =~= rest);
            if call_index(rest, call_id) < rest.len() {
                assert(rest[call_index(rest, call_id) as int] == pending[call_index(
                    rest,
                    call_id,
                ) as int + 1]);
            }
            assert(without_call(rest, call_id) == rest);
        } else {
            assert(kept =~= seq![pending[0]] + without_call(rest, call_id));
            assert(kept.drop_first() =~= without_call(rest, call_id));
            assert(kept[0] == pending[0]);
        }
    }
}

/// The cards that are shown are those of the permissions that were neither answered nor taken back,
/// each of them.
pub proof fn card_is_shown_until_it_is_answered(pending: Seq<PendingModel>, at: int)
    ensures
        forall|i: int|
            0 <= i < pending.len() && (#[trigger] pending[i]).lifecycle
                != ConfirmationLifecycle::Allowed && pending[i].lifecycle
                != ConfirmationLifecycle::Denied && pending[i].lifecycle
                != ConfirmationLifecycle::Cancelled ==> shown_cards(pending).contains(
                pending[i].card,
            ),
        0 <= at < shown_cards(pending).len() ==> exists|i: int|
            0 <= i < pending.len() && (#[trigger] pending[i]).card == shown_cards(pending)[at]
                && pending[i].lifecycle != ConfirmationLifecycle::Allowed && pending[i].lifecycle
                != ConfirmationLifecycle::Denied && pending[i].lifecycle
                != ConfirmationLifecycle::Cancelled,
        shown_cards(pending).len() <= pending.len(),
    decreases pending.len(),
{
    if pending.len() > 0 {
        let front = pending.drop_last();
        let before = shown_cards(front);
        let all = shown_cards(pending);
        card_is_shown_until_it_is_answered(front, at);
        assert(pending[pending.len() - 1] == pending.last());
        assert forall|i: int|
            0 <= i < pending.len() && !(#[trigger] pending[i]).lifecycle.is_resolved() implies all.contains(
            pending[i].card,
        ) by {
            if i < front.len() {
                assert(front[i] == pending[i]);
                let j = choose|j: int| 0 <= j < before.len() && before[j] == pending[i].card;
                assert(all[j] == pending[i].card);
            } else {
                assert(all[all.len() - 1] == pending[i].card);
            }
        }
        if 0 <= at < all.len() && at < before.len() {
            let i = choose|i: int|
                0 <= i < front.len() && (#[trigger] front[i]).card == before[at]
                    && front[i].lifecycle != ConfirmationLifecycle::Allowed && front[i].lifecycle
                    != ConfirmationLifecycle::Denied && front[i].lifecycle
                    != ConfirmationLifecycle::Cancelled;
            assert(pending[i] == front[i]);
        }
    }
}

/// How a request is routed that names no team server: one of another backend is put before a user,
/// and so is one that neither its policy nor a grant answers. What the policy allows, or a live
/// grant covers, is answered with the request's single allowance while that policy is in force, and
/// given up where it is not. What the policy blocks is refused with the request's refusal.
pub proof fn request_is_routed_by_its_decision(
    model: RouterModel,
    request: PermissionRequestModel,
    authority: AuthorityModel,
    gate: GateModel,
    now_ms: u64,
)
    requires
        !model.closing,
        auto_approval(request) is None,
        command_eve_auto_approval(request) is None,
        authority.gate == Some(gate),
    ensures
        model.route(request, None, now_ms) == RouteModel::Ask,
        ({
            let route = model.route(request, Some(authority), now_ms);
            let answered = gate.decision == PermissionDecision::Allow || gate.grant_eligible
                && model.covers(authority, now_ms);
            let in_force = gate.policy is Some && model.policy is Some
                && gate.policy->0.policy_revision == model.policy->0.policy_revision
                && gate.policy->0.session_epoch == model.policy->0.session_epoch;
            &&& answered && in_force && authority.allow_once is Some ==> route
                == RouteModel::Answer { option_id: authority.allow_once->0 }
            &&& answered && in_force && authority.allow_once is None ==> route == RouteModel::Ask
            &&& answered && !in_force ==> route == RouteModel::Superseded
            &&& !answered && gate.decision == PermissionDecision::Block ==> route
                == RouteModel::Deny { reject_option_id: authority.reject_once }
            &&& !answered && gate.decision != PermissionDecision::Block ==> route == RouteModel::Ask
        }),
{
}

/// A request for a team server is answered with an allowance that the request offers: the first
/// single one under Command EVE, else the first lasting one, or the first single one where there is
/// none.
pub proof fn team_request_is_answered_with_an_allowance(
    model: RouterModel,
    request: PermissionRequestModel,
    authority: AuthorityModel,
    now_ms: u64,
)
    requires
        !model.closing,
    ensures
        command_eve_auto_approval(request) is Some ==> model.route(request, Some(authority), now_ms)
            == (RouteModel::Answer { option_id: command_eve_auto_approval(request)->0 }),
        auto_approval(request) is Some ==> model.route(request, None, now_ms)
            == (RouteModel::Answer { option_id: auto_approval(request)->0 }),
{
}

/// What covers an operation: a grant under its key that was not revoked, has not run out, and was
/// given under the revision and in the session of the operation's policy.
pub proof fn grant_covers_what_it_was_given_for(
    model: RouterModel,
    authority: AuthorityModel,
    key: Seq<char>,
    grant: SessionGrant,
    now_ms: u64,
)
    requires
        authority.grant_key == Some(key),
        authority.gate is Some,
        authority.gate->0.policy is Some,
    ensures
        !model.grants.dom().contains(key) ==> !model.covers(authority, now_ms),
        model.grants.dom().contains(key) && model.grants[key] == grant ==> (model.covers(
            authority,
            now_ms,
        ) <==> {
            &&& !grant.revoked
            &&& (grant.expires_at_ms is None || now_ms < grant.expires_at_ms->0)
            &&& grant.policy_revision == authority.gate->0.policy->0.policy_revision
            &&& grant.session_epoch == authority.gate->0.policy->0.session_epoch
        }),
        !model.covers(AuthorityModel { grant_key: None, ..authority }, now_ms),
{
}

/// What a policy, its end, and a cancellation leave of the router.
pub proof fn policy_changes_keep_the_rest(model: RouterModel, policy: SnapshotModel)
    ensures
        ({
            let after = model.under_policy(policy);
            &&& after.policy == Some(policy)
            &&& model.policy is Some && model.policy->0.policy_revision == policy.policy_revision
                && model.policy->0.session_epoch == policy.session_epoch ==> after.grants
                == model.grants
            &&& !(model.policy is Some && model.policy->0.policy_revision == policy.policy_revision
                && model.policy->0.session_epoch == policy.session_epoch)
                ==> after.grants.dom().len() == 0 && after.grants == Map::<
                Seq<char>,
                SessionGrant,
            >::empty()
            &&& after.next_nonce == model.next_nonce
            &&& after.closing == model.closing
            &&& after.used_nonces == model.used_nonces
        }),
        ({
            let after = model.without_policy();
            &&& after.policy is None
            &&& after.grants == Map::<Seq<char>, SessionGrant>::empty()
            &&& after.next_nonce == model.next_nonce
            &&& after.closing == model.closing
            &&& after.used_nonces == model.used_nonces
        }),
        ({
            let after = model.cancelled();
            &&& after.policy is None
            &&& after.grants == Map::<Seq<char>, SessionGrant>::empty()
            &&& after.next_nonce == model.next_nonce
            &&& after.closing == model.closing
            &&& after.used_nonces == model.used_nonces
        }),
{
}

/// A higher authority resumes an operation exactly where the operation waits for one in this
/// conversation under an acknowledged policy, the principal is entitled, the challenge was not used,
/// the request offers a single allowance, and the responder takes it. The agent then gets that
/// allowance, the permission is allowed, the receipt names the operation, the level and the
/// principal, and everything else stays.
pub proof fn higher_authority_resumes_the_operation(
    model: RouterModel,
    call_id: Seq<char>,
    conversation: Seq<char>,
    principal: Seq<char>,
    entitled: bool,
    delivered: bool,
)
    requires
        terminal_count(model.pending) < 256,
    ensures
        ({
            let permission = model.permission(call_id);
            let authority = permission.authority->0;
            let gate = authority.gate->0;
            let response = model.authority_response(
                call_id,
                conversation,
                principal,
                entitled,
                delivered,
            );
            let after = model.authority_responded(
                call_id,
                conversation,
                principal,
                entitled,
                delivered,
            );
            let resumed = after.permission(call_id);
            &&& response is Applied <==> {
                &&& model.knows(call_id)
                &&& permission.conversation == conversation
                &&& permission.authority is Some && authority.gate is Some
                &&& gate.decision is RequireAuthority
                &&& gate.policy is Some && gate.authority_nonce is Some
                &&& entitled && delivered
                &&& permission.lifecycle == ConfirmationLifecycle::Pending && permission.open
                &&& !model.used_nonces.contains(gate.authority_nonce->0)
                &&& authority.allow_once is Some
            }
            &&& response is Applied ==> {
                &&& Some(response->Applied_option_id) == authority.allow_once
                &&& after.knows(call_id)
                &&& resumed.lifecycle == ConfirmationLifecycle::Allowed && !resumed.open
                &&& resumed.card.action == Some("allowed"@)
                &&& resumed.chosen == authority.allow_once
                &&& resumed.receipt is Some
                &&& resumed.receipt->0.operation_digest == gate.operation_digest
                &&& gate.decision == PermissionDecision::RequireAuthority(
                    resumed.receipt->0.required_level,
                )
                &&& resumed.receipt->0.principal == principal
                &&& after.grants == model.grants
                &&& after.policy == model.policy
                &&& after.next_nonce == model.next_nonce
                &&& after.used_nonces.last() == gate.authority_nonce->0
            }
            &&& !(response is Applied) && delivered ==> after == model
            &&& !entitled ==> after == model
        }),
{
    let at = model.index(call_id);
    lemma_call_index_is(model.pending, call_id);
    if model.authority_response(call_id, conversation, principal, entitled, delivered) is Applied {
        let permission = model.permission(call_id);
        let authority = permission.authority->0;
        let gate = authority.gate->0;
        let changed = PendingModel {
            chosen: authority.allow_once,
            receipt: Some(
                AuthorityReceiptModel {
                    operation_digest: gate.operation_digest,
                    required_level: gate.decision->RequireAuthority_0,
                    principal,
                },
            ),
            ..permission.settled(ConfirmationLifecycle::Allowed)
        };
        lemma_terminal_count_update(model.pending, at, changed);
        lemma_call_index_update(model.pending, at, changed, call_id);
    }
}

/// Only the owner of the local installation, at that installation, is entitled.
pub proof fn only_the_local_owner_is_entitled(principal: ConfirmationPrincipalContext)
    ensures
        principal.is_entitled() <==> principal.local_capability && principal.user_id@
            == "system_default_user"@,
{
}

/// The timer of a permission ends it exactly where it is the timer of the request that waits, and
/// its time has come.
pub proof fn timer_ends_its_own_permission(
    model: RouterModel,
    call_id: Seq<char>,
    nonce: u64,
    now_ms: u64,
)
    ensures
        model.timer_ends(call_id, nonce, now_ms) <==> {
            &&& model.knows(call_id)
            &&& model.permission(call_id).nonce == nonce
            &&& model.permission(call_id).lifecycle == ConfirmationLifecycle::Pending
            &&& model.permission(call_id).open
            &&& (model.permission(call_id).expires_at is None || model.permission(
                call_id,
            ).expires_at->0 <= now_ms)
        },
{
}

/// The authority of an operation: it can be granted exactly where it is routine and a policy is
/// acknowledged, under the digest of the operation; its single answers are the first of their kind
/// that the request offers; a challenge is set exactly where a higher authority is required under a
/// policy. Without a policy it is decided as in the default mode.
pub proof fn authority_binds_the_operation(
    policy: Option<SnapshotModel>,
    workspace: Seq<char>,
    canonical_workspace: Seq<char>,
    rules: RulesModel,
    within: bool,
    request: PermissionRequestModel,
    nonce: Seq<char>,
)
    ensures
        ({
            let authority = gated_authority(
                policy,
                workspace,
                canonical_workspace,
                rules,
                within,
                request,
                nonce,
            );
            let gate = authority.gate->0;
            let class = classification(request, workspace, rules, within);
            let routine = class.class == OperationClass::RoutineEdit || class.class
                == OperationClass::RoutineTerminal;
            &&& authority.gate is Some
            &&& gate.policy == policy
            &&& gate.classification == class
            &&& gate.grant_eligible == routine
            &&& authority.grant_key == if routine && policy is Some {
                Some(gate.operation_digest)
            } else {
                None
            }
            &&& gate.authority_nonce == if policy is Some && gate.decision is RequireAuthority {
                Some(nonce)
            } else {
                None
            }
            &&& authority.dispositions.len() == request.options.len()
            &&& class.class == OperationClass::HardBlocked ==> gate.decision
                == PermissionDecision::Block
            &&& policy is None && routine ==> gate.decision == PermissionDecision::Ask
            &&& policy is None && class.class == OperationClass::Hg4 ==> gate.decision
                == PermissionDecision::RequireAuthority(RequiredAuthority::Founder)
            &&& policy is Some && routine && policy->0.capabilities.trusted_classification
                && policy->0.mode == PermissionMode::DontAsk ==> gate.decision
                == PermissionDecision::Allow
            &&& policy is Some && routine && policy->0.mode == PermissionMode::Default
                ==> gate.decision == PermissionDecision::Ask
            &&& gate.decision == PermissionDecision::Allow ==> routine && policy is Some
        }),
{
}

/// An operation is decided under the policy in force: routine ones by its mode and what the runtime
/// can do, and all others by whose authority they need. Its digest is that of the request in the
/// mode, and its answers are the first of their kinds.
pub proof fn operation_is_decided_under_its_policy(
    policy: SnapshotModel,
    workspace: Seq<char>,
    canonical_workspace: Seq<char>,
    rules: RulesModel,
    within: bool,
    request: PermissionRequestModel,
    nonce: Seq<char>,
)
    requires
        policy.capabilities.trusted_classification,
    ensures
        ({
            let authority = gated_authority(
                Some(policy),
                workspace,
                canonical_workspace,
                rules,
                within,
                request,
                nonce,
            );
            let gate = authority.gate->0;
            let class = classification(request, workspace, rules, within).class;
            let edit = class == OperationClass::RoutineEdit;
            let terminal = class == OperationClass::RoutineTerminal;
            let can = policy.capabilities;
            &&& edit || terminal ==> (gate.decision == PermissionDecision::Allow <==> {
                ||| policy.mode == PermissionMode::DontAsk
                ||| policy.mode == PermissionMode::AcceptEdits && edit
                ||| policy.mode == PermissionMode::Guarded && can.policy_handshake
                    && can.guarded_auto && can.versioned_grant_store && can.revocation
            })
            &&& (edit || terminal) && policy.mode == PermissionMode::AcceptEdits && !edit
                ==> gate.decision == PermissionDecision::Ask
            &&& class == OperationClass::Sensitive ==> gate.decision
                == PermissionDecision::AskWithOwner(RequiredAuthority::User)
            &&& class == OperationClass::Hg35 ==> gate.decision
                == PermissionDecision::RequireAuthority(RequiredAuthority::Proxy)
            &&& class == OperationClass::Hg4 ==> gate.decision
                == PermissionDecision::RequireAuthority(RequiredAuthority::Founder)
            &&& class == OperationClass::Unknown && policy.mode == PermissionMode::Guarded
                ==> gate.decision == PermissionDecision::Unsupported
            &&& class == OperationClass::Unknown ==> gate.decision != PermissionDecision::Allow
            &&& policy.mode == PermissionMode::Default ==> gate.operation_digest
                == operation_digest_of(canonical_workspace, "hermes"@, "default"@, request)
            &&& policy.mode == PermissionMode::AcceptEdits ==> gate.operation_digest
                == operation_digest_of(canonical_workspace, "hermes"@, "accept_edits"@, request)
            &&& policy.mode == PermissionMode::DontAsk ==> gate.operation_digest
                == operation_digest_of(canonical_workspace, "hermes"@, "dont_ask"@, request)
            &&& policy.mode == PermissionMode::Guarded ==> gate.operation_digest
                == operation_digest_of(canonical_workspace, "hermes"@, "guarded"@, request)
            &&& authority.allow_once == first_of_kind(
                request.options,
                PermissionOptionKind::AllowOnce,
            )
            &&& authority.reject_once == first_of_kind(
                request.options,
                PermissionOptionKind::RejectOnce,
            )
        }),
{
}

/// Without a policy an operation has no mode in its digest, nothing can be granted, and the owner
/// decides on everything that is not blocked or needs a higher authority.
pub proof fn operation_without_a_policy_is_asked_for(
    workspace: Seq<char>,
    canonical_workspace: Seq<char>,
    rules: RulesModel,
    within: bool,
    request: PermissionRequestModel,
    nonce: Seq<char>,
)
    ensures
        ({
            let authority = gated_authority(
                None,
                workspace,
                canonical_workspace,
                rules,
                within,
                request,
                nonce,
            );
            let gate = authority.gate->0;
            let class = classification(request, workspace, rules, within).class;
            &&& authority.grant_key is None
            &&& gate.authority_nonce is None
            &&& gate.operation_digest == operation_digest_of(
                canonical_workspace,
                "hermes"@,
                ""@,
                request,
            )
            &&& class == OperationClass::HardBlocked ==> gate.decision == PermissionDecision::Block
            &&& class == OperationClass::Hg35 ==> gate.decision
                == PermissionDecision::RequireAuthority(RequiredAuthority::Proxy)
            &&& class == OperationClass::Hg4 ==> gate.decision
                == PermissionDecision::RequireAuthority(RequiredAuthority::Founder)
            &&& class == OperationClass::Sensitive ==> gate.decision
                == PermissionDecision::AskWithOwner(RequiredAuthority::User)
            &&& class == OperationClass::RoutineEdit || class == OperationClass::RoutineTerminal
                ==> gate.decision == PermissionDecision::Ask
            &&& class == OperationClass::Unknown ==> gate.decision == PermissionDecision::Ask
                || gate.decision is AskWithOwner
        }),
{
    reveal_strlit("");
    assert(""@ =~= Seq::<char>::empty());
}

/// An operation that is not gated can be granted exactly where it belongs to the session that is
/// active and the session has a mode.
pub proof fn ungated_operation_belongs_to_its_session(
    active_session_id: Option<Seq<char>>,
    mode: Option<Seq<char>>,
    workspace: Seq<char>,
    request: PermissionRequestModel,
)
    ensures
        ({
            let authority = manual_authority(active_session_id, mode, workspace, request);
            let own = active_session_id == Some(request.session_id) && mode is Some;
            &&& authority.gate is None
            &&& own ==> authority.grant_key == Some(
                operation_digest_of(workspace, "hermes"@, mode->0, request),
            )
            &&& !own ==> authority.grant_key is None
            &&& authority.allow_once == first_of_kind(
                request.options,
                PermissionOptionKind::AllowOnce,
            )
            &&& authority.reject_once == first_of_kind(
                request.options,
                PermissionOptionKind::RejectOnce,
            )
            &&& authority.dispositions == dispositions_of(request.options)
        }),
{
}

/// A card says under its own name which class its operation has, and whose authority it needs.
pub proof fn card_names_class_and_authority(
    call_id: Seq<char>,
    gate: GateModel,
    nonce: u64,
    created_at_ms: u64,
    expires_at_ms: u64,
)
    ensures
        ({
            let told = card_metadata(call_id, gate, nonce, created_at_ms, expires_at_ms);
            let class = gate.classification.class;
            let required = gate.classification.required_authority;
            &&& class == OperationClass::RoutineEdit ==> told.classification == "routine_edit"@
            &&& class == OperationClass::RoutineTerminal ==> told.classification
                == "routine_terminal"@
            &&& class == OperationClass::HardBlocked ==> told.classification == "hard_blocked"@
            &&& class == OperationClass::Sensitive ==> told.classification == "sensitive"@
            &&& class == OperationClass::Hg35 ==> told.classification == "hg35"@
            &&& class == OperationClass::Hg4 ==> told.classification == "hg4"@
            &&& class == OperationClass::Unknown ==> told.classification == "unknown"@
            &&& required is None ==> told.required_authority is None
            &&& required == Some(RequiredAuthority::User) ==> told.required_authority == Some(
                "user"@,
            )
            &&& required == Some(RequiredAuthority::Proxy) ==> told.required_authority == Some(
                "proxy"@,
            )
            &&& required == Some(RequiredAuthority::Founder) ==> told.required_authority == Some(
                "founder"@,
            )
        }),
{
}

/// What has ended is kept up to two hundred and fifty-six. Past that the oldest one that was
/// answered or cancelled goes first, and where there is none the oldest that has ended.
pub proof fn answered_ones_are_forgotten_first(pending: Seq<PendingModel>, at: int)
    ensures
        terminal_count(pending) <= 256 ==> pruned(pending) == pending,
        terminal_count(pending) == 257 && 0 <= at < pending.len() && (pending[at].lifecycle
            == ConfirmationLifecycle::Allowed || pending[at].lifecycle
            == ConfirmationLifecycle::Denied || pending[at].lifecycle
            == ConfirmationLifecycle::Cancelled) && (forall|i: int|
            0 <= i < at ==> (#[trigger] pending[i]).lifecycle == ConfirmationLifecycle::Pending
                || pending[i].lifecycle == ConfirmationLifecycle::Expired || pending[i].lifecycle
                == ConfirmationLifecycle::Superseded) ==> pruned(pending) == pending.remove(at),
        terminal_count(pending) == 257 && 0 <= at < pending.len() && (pending[at].lifecycle
            == ConfirmationLifecycle::Expired || pending[at].lifecycle
            == ConfirmationLifecycle::Superseded) && (forall|i: int|
            0 <= i < at ==> (#[trigger] pending[i]).lifecycle == ConfirmationLifecycle::Pending)
            && (forall|i: int|
            0 <= i < pending.len() ==> (#[trigger] pending[i]).lifecycle
                == ConfirmationLifecycle::Pending || pending[i].lifecycle
                == ConfirmationLifecycle::Expired || pending[i].lifecycle
                == ConfirmationLifecycle::Superseded) ==> pruned(pending) == pending.remove(at),
{
    reveal_with_fuel(pruned, 2);
    if terminal_count(pending) == 257 && 0 <= at < pending.len() {
        lemma_terminal_count_remove(pending, at);
        if pending[at].lifecycle.is_resolved() {
            if forall|i: int|
                0 <= i < at ==> (#[trigger] pending[i]).lifecycle == ConfirmationLifecycle::Pending
                    || pending[i].lifecycle == ConfirmationLifecycle::Expired
                    || pending[i].lifecycle == ConfirmationLifecycle::Superseded {
                assert forall|i: int| 0 <= i < at implies !(
                #[trigger] pending[i]).lifecycle.is_resolved() by {
                    assert(pending[i].lifecycle == ConfirmationLifecycle::Pending
                        || pending[i].lifecycle == ConfirmationLifecycle::Expired
                        || pending[i].lifecycle == ConfirmationLifecycle::Superseded);
                }
                lemma_oldest_resolved(pending, at);
            }
        } else if forall|i: int|
            0 <= i < pending.len() ==> (#[trigger] pending[i]).lifecycle
                == ConfirmationLifecycle::Pending || pending[i].lifecycle
                == ConfirmationLifecycle::Expired || pending[i].lifecycle
                == ConfirmationLifecycle::Superseded {
            assert forall|i: int| 0 <= i < pending.len() implies !(
            #[trigger] pending[i]).lifecycle.is_resolved() by {
                assert(pending[i].lifecycle == ConfirmationLifecycle::Pending
                    || pending[i].lifecycle == ConfirmationLifecycle::Expired
                    || pending[i].lifecycle == ConfirmationLifecycle::Superseded);
            }
            lemma_oldest_resolved(pending, pending.len() as int);
            if pending[at].lifecycle != ConfirmationLifecycle::Pending && forall|i: int|
                0 <= i < at ==> (#[trigger] pending[i]).lifecycle == ConfirmationLifecycle::Pending {
                lemma_oldest_terminal(pending, at);
            }
        }
    }
}

/// A cancellation keeps what was answered, and what it cancels itself, and forgets what had expired
/// or was superseded.
pub proof fn cancellation_keeps_what_was_answered(model: RouterModel, at: int)
    requires
        0 <= at < model.pending.len(),
        model.pending.len() <= 256,
        model.wf(),
    ensures
        ({
            let permission = model.pending[at];
            let after = model.cancelled();
            let kept = permission.settled(ConfirmationLifecycle::Cancelled);
            &&& permission.lifecycle == ConfirmationLifecycle::Pending ==> after.pending.contains(
                kept,
            ) && kept.lifecycle == ConfirmationLifecycle::Cancelled && !kept.open
                && kept.card.action == Some("cancelled"@)
            &&& permission.lifecycle == ConfirmationLifecycle::Allowed || permission.lifecycle
                == ConfirmationLifecycle::Denied || permission.lifecycle
                == ConfirmationLifecycle::Cancelled ==> after.pending.contains(permission)
            &&& permission.lifecycle == ConfirmationLifecycle::Expired || permission.lifecycle
                == ConfirmationLifecycle::Superseded ==> !after.knows(permission.call_id)
        }),
{
    let outcomes = SettleRule::All.outcomes(model.pending);
    lemma_terminal_count_bound(outcomes);
    reveal_with_fuel(pruned, 1);
    assert(pruned(outcomes) == outcomes);
    lemma_resolved_only_holds(outcomes, outcomes[at]);
    lemma_resolved_only(outcomes);
    assert(outcomes[at] == SettleRule::All.outcome(model.pending[at]));
    let permission = model.pending[at];
    let after = resolved_only(outcomes);
    assert(outcomes.contains(outcomes[at]));
    if permission.lifecycle == ConfirmationLifecycle::Expired || permission.lifecycle
        == ConfirmationLifecycle::Superseded {
        assert forall|i: int| 0 <= i < after.len() implies (#[trigger] after[i]).call_id
            != permission.call_id by {
            let j = choose|j: int| 0 <= j < outcomes.len() && outcomes[j] == after[i];
            assert(outcomes[j] == SettleRule::All.outcome(model.pending[j]));
            assert(outcomes[j].call_id == model.pending[j].call_id);
            if outcomes[j].call_id == permission.call_id {
                assert(j == at);
            }
        }
        lemma_call_index(after, permission.call_id, after.len() as int);
    }
}

proof fn lemma_terminal_count_bound(pending: Seq<PendingModel>)
    ensures
        terminal_count(pending) <= pending.len(),
    decreases pending.len(),
{
    if pending.len() > 0 {
        lemma_terminal_count_bound(pending.drop_last());
    }
}

proof fn lemma_resolved_only_holds(pending: Seq<PendingModel>, permission: PendingModel)
    ensures
        permission.lifecycle.is_resolved() && pending.contains(permission) ==> resolved_only(
            pending,
        ).contains(permission),
    decreases pending.len(),
{
    if pending.len() > 0 {
        let front = pending.drop_last();
        lemma_resolved_only_holds(front, permission);
        let kept = resolved_only(front);
        if permission.lifecycle.is_resolved() && pending.contains(permission) {
            let i = choose|i: int| 0 <= i < pending.len() && pending[i] == permission;
            if i < front.len() {
                assert(front[i] == permission);
                let j = choose|j: int| 0 <= j < kept.len() && kept[j] == permission;
                if pending.last().lifecycle.is_resolved() {
                    assert(kept.push(pending.last())[j] == permission);
                }
            } else {
                assert(kept.push(pending.last())[kept.len() as int] == permission);
            }
        }
    }
}

/// A challenge that was used is remembered, and of those before it at least the last two hundred
/// and fifty-five, in their order.
pub proof fn used_challenges_are_remembered(list: Seq<Seq<char>>, text: Seq<char>, i: int)
    requires
        list.len() <= 256,
    ensures
        ({
            let after = bounded_push(list, text);
            &&& after.last() == text
            &&& after.len() <= 256
            &&& list.len() < 256 ==> after == list.push(text)
            &&& list.len() == 256 && 1 <= i < 256 ==> after.len() == 256 && after[i - 1] == list[i]
        }),
{
}

/// Why a higher authority cannot resume an operation is told in this order: it is not known, is of
/// another conversation, does not require one, has no policy, the principal is not entitled, it has
/// ended, its requester is gone, its challenge was used, or it offers no single allowance.
pub proof fn refused_authority_is_told_why(
    model: RouterModel,
    call_id: Seq<char>,
    conversation: Seq<char>,
    principal: Seq<char>,
    entitled: bool,
    delivered: bool,
)
    ensures
        ({
            let response = model.authority_response(
                call_id,
                conversation,
                principal,
                entitled,
                delivered,
            );
            let permission = model.permission(call_id);
            let authority = permission.authority->0;
            let gate = authority.gate->0;
            let own = model.knows(call_id) && permission.conversation == conversation;
            let required = own && permission.authority is Some && authority.gate is Some
                && gate.decision is RequireAuthority;
            let bound = required && gate.policy is Some && gate.authority_nonce is Some;
            let waiting = bound && entitled && permission.lifecycle
                == ConfirmationLifecycle::Pending;
            &&& !model.knows(call_id) ==> response is Missing
            &&& model.knows(call_id) && !own ==> response is WrongSession
            &&& own && !required ==> response is NotRequired
            &&& required && !bound ==> response is NoPolicy
            &&& bound && !entitled ==> response is NotEntitled
            &&& bound && entitled && !waiting ==> response == (AuthorityResponseModel::Settled {
                lifecycle: permission.lifecycle,
                same_principal: permission.receipt is Some && permission.receipt->0.principal
                    == principal,
            })
            &&& waiting && !permission.open ==> response is Gone
            &&& waiting && permission.open && model.used_nonces.contains(gate.authority_nonce->0)
                ==> response is NonceUsed
            &&& waiting && permission.open && !model.used_nonces.contains(gate.authority_nonce->0)
                && authority.allow_once is None ==> response is NoAllowOnce
            &&& waiting && permission.open && !model.used_nonces.contains(gate.authority_nonce->0)
                && authority.allow_once is Some && !delivered ==> response is Gone
        }),
{
}

/// What is answered to a higher authority: an allowance that went through is applied, the same
/// principal's again is the same decision, another's is a conflict, and what is not an answer is an
/// error with its own text.
pub proof fn answers_to_a_higher_authority(
    lifecycle: ConfirmationLifecycle,
    same_principal: bool,
    option_id: Seq<char>,
    call_id: Seq<char>,
)
    ensures
        authority_result(AuthorityResponseModel::Missing) == Some(
            ConfirmationResponseResult::UnknownConfirmation,
        ),
        authority_result(AuthorityResponseModel::WrongSession) == Some(
            ConfirmationResponseResult::WrongSession,
        ),
        authority_result(AuthorityResponseModel::Applied { option_id }) == Some(
            ConfirmationResponseResult::Applied,
        ),
        ({
            let result = authority_result(
                AuthorityResponseModel::Settled { lifecycle, same_principal },
            );
            &&& lifecycle == ConfirmationLifecycle::Expired ==> result == Some(
                ConfirmationResponseResult::Expired,
            )
            &&& lifecycle == ConfirmationLifecycle::Allowed && same_principal ==> result == Some(
                ConfirmationResponseResult::IdempotentSameDecision,
            )
            &&& lifecycle != ConfirmationLifecycle::Expired && !(lifecycle
                == ConfirmationLifecycle::Allowed && same_principal) ==> result == Some(
                ConfirmationResponseResult::ConflictDifferentDecision,
            )
        }),
        authority_result(AuthorityResponseModel::NotRequired) is None,
        authority_result(AuthorityResponseModel::NoPolicy) is None,
        authority_result(AuthorityResponseModel::NotEntitled) is None,
        authority_result(AuthorityResponseModel::NonceUsed) is None,
        authority_result(AuthorityResponseModel::NoAllowOnce) is None,
        authority_result(AuthorityResponseModel::Gone) is None,
        authority_error(AuthorityResponseModel::NotRequired, call_id) == (
            AgentErrorKind::BadRequest,
            "ACP permission does not require a higher authority"@,
        ),
        authority_error(AuthorityResponseModel::NoPolicy, call_id) == (
            AgentErrorKind::BadRequest,
            "ACP permission has no acknowledged policy to confirm under"@,
        ),
        authority_error(AuthorityResponseModel::NotEntitled, call_id) == (
            AgentErrorKind::BadRequest,
            "Principal cannot confirm the required authority"@,
        ),
        authority_error(AuthorityResponseModel::NonceUsed, call_id) == (
            AgentErrorKind::BadRequest,
            "Authority challenge was already used"@,
        ),
        authority_error(AuthorityResponseModel::NoAllowOnce, call_id) == (
            AgentErrorKind::BadRequest,
            "ACP permission offers no allow-once option"@,
        ),
        authority_error(AuthorityResponseModel::Gone, call_id) == (
            AgentErrorKind::BadRequest,
            "Pending ACP permission expired: "@ + call_id,
        ),
{
}

/// An operation is allowed without asking exactly where its policy is the one in force, its grant
/// covers it where it rests on one, and it offers a single allowance. A grant that does not cover it
/// any more is dropped, and nothing else changes.
pub proof fn automatic_allowance_needs_the_policy_in_force(
    model: RouterModel,
    authority: AuthorityModel,
    from_grant: bool,
    now_ms: u64,
    other: Seq<char>,
)
    ensures
        ({
            let answer = model.auto_allow(authority, from_grant, now_ms);
            let after = model.auto_allowed(authority, from_grant, now_ms);
            let policy = authority.gate->0.policy;
            let in_force = authority.gate is Some && policy is Some && model.policy is Some
                && policy->0.policy_revision == model.policy->0.policy_revision
                && policy->0.session_epoch == model.policy->0.session_epoch;
            let lapsed = from_grant && !model.covers(authority, now_ms);
            &&& !in_force <==> answer is Superseded
            &&& answer is Answer <==> in_force && !lapsed && authority.allow_once is Some
            &&& answer is Answer ==> Some(answer->option_id) == authority.allow_once
            &&& in_force && lapsed && authority.grant_key is Some
                ==> !after.grants.dom().contains(authority.grant_key->0)
            &&& authority.grant_key != Some(other) ==> (after.grants.dom().contains(other)
                <==> model.grants.dom().contains(other)) && after.grants[other]
                == model.grants[other]
            &&& !(in_force && lapsed) ==> after == model
            &&& after.pending == model.pending && after.policy == model.policy && after.used_nonces
                == model.used_nonces && after.next_nonce == model.next_nonce && after.closing
                == model.closing
        }),
{
}

/// A request that is not gated is answered with the single allowance exactly where a grant covers
/// it, and else the owner is asked.
pub proof fn ungated_request_is_routed_by_its_grant(
    model: RouterModel,
    request: PermissionRequestModel,
    authority: AuthorityModel,
    now_ms: u64,
)
    requires
        !model.closing,
        command_eve_auto_approval(request) is None,
        authority.gate is None,
    ensures
        ({
            let route = model.route(request, Some(authority), now_ms);
            &&& model.covers(authority, now_ms) && authority.allow_once is Some ==> route == (
            RouteModel::Answer { option_id: authority.allow_once->0 })
            &&& !(model.covers(authority, now_ms) && authority.allow_once is Some) ==> route
                == RouteModel::Ask
        }),
{
}

/// A request that is refused at once is recorded as what it was refused for.
pub proof fn refused_routes_have_a_state(route: RouteModel, allow: AutoAllowModel)
    ensures
        route is Deny ==> route.refusal() == Some(ConfirmationLifecycle::Denied),
        route is Superseded ==> route.refusal() == Some(ConfirmationLifecycle::Superseded),
        route is Answer || route is Ask || route is Closing ==> route.refusal() is None,
        allow is Superseded ==> allow.refusal() == Some(ConfirmationLifecycle::Superseded),
        allow is Answer || allow is Ask ==> allow.refusal() is None,
{
}

/// The challenge of an operation holds its digest and the nonce that can be used once.
pub proof fn challenge_holds_digest_and_nonce(operation_digest: Seq<char>, nonce: Seq<char>)
    ensures
        challenge_json(operation_digest, nonce).field_text("operation_digest"@) == Some(
            operation_digest,
        ),
        challenge_json(operation_digest, nonce).field_text("single_use_nonce"@) == Some(nonce),
{
    reveal_strlit("operation_digest");
    reveal_strlit("single_use_nonce");
    assert("operation_digest"@[0] == 'o' && "single_use_nonce"@[0] == 's');
    let entries = seq![
        ("operation_digest"@, Json::Text(operation_digest)),
        ("single_use_nonce"@, Json::Text(nonce)),
    ];
    assert(entries[0].0 == "operation_digest"@);
    assert(entries[1].0 == "single_use_nonce"@);
    crate::json::lemma_entry_value(entries, "operation_digest"@, 0);
    crate::json::lemma_entry_value(entries, "single_use_nonce"@, 1);
}

/// Each state has its name.
pub proof fn names_of_the_states(lifecycle: ConfirmationLifecycle)
    ensures
        lifecycle == ConfirmationLifecycle::Pending ==> lifecycle.name() == "pending"@,
        lifecycle == ConfirmationLifecycle::Allowed ==> lifecycle.name() == "allowed"@,
        lifecycle == ConfirmationLifecycle::Denied ==> lifecycle.name() == "denied"@,
        lifecycle == ConfirmationLifecycle::Expired ==> lifecycle.name() == "expired"@,
        lifecycle == ConfirmationLifecycle::Cancelled ==> lifecycle.name() == "cancelled"@,
        lifecycle == ConfirmationLifecycle::Superseded ==> lifecycle.name() == "superseded"@,
        lifecycle.is_resolved() <==> lifecycle == ConfirmationLifecycle::Allowed || lifecycle
            == ConfirmationLifecycle::Denied || lifecycle == ConfirmationLifecycle::Cancelled,
{
}

/// What an answer came to is told as one of six things, and an answer that is not taken has an error
/// with its own text.
pub proof fn refused_answers_have_their_texts(call_id: Seq<char>, option_id: Seq<char>)
    ensures
        response_result(ResponseModel::Missing) == ConfirmationResponseResult::UnknownConfirmation,
        response_result(ResponseModel::WrongSession) == ConfirmationResponseResult::WrongSession,
        response_result(ResponseModel::Gone) == ConfirmationResponseResult::Expired,
        response_result(ResponseModel::Gated)
            == ConfirmationResponseResult::ConflictDifferentDecision,
        response_result(ResponseModel::Permanent)
            == ConfirmationResponseResult::ConflictDifferentDecision,
        response_result(ResponseModel::UnknownOption)
            == ConfirmationResponseResult::ConflictDifferentDecision,
        response_result(ResponseModel::NoAllowOnce)
            == ConfirmationResponseResult::ConflictDifferentDecision,
        response_result(ResponseModel::NoGrantKey)
            == ConfirmationResponseResult::ConflictDifferentDecision,
        response_error(ResponseModel::Missing, call_id, option_id) == Some(
            (AgentErrorKind::BadRequest, "Pending ACP permission not found: "@ + call_id),
        ),
        response_error(ResponseModel::Gone, call_id, option_id) == Some(
            (AgentErrorKind::BadRequest, "Pending ACP permission expired: "@ + call_id),
        ),
        response_error(ResponseModel::WrongSession, call_id, option_id) == Some(
            (AgentErrorKind::BadRequest, "ACP permission belongs to another conversation"@),
        ),
        response_error(ResponseModel::NoAllowOnce, call_id, option_id) == Some(
            (
                AgentErrorKind::BadRequest,
                "Exact session grant is unavailable without an allow-once option"@,
            ),
        ),
        response_error(ResponseModel::NoGrantKey, call_id, option_id) == Some(
            (
                AgentErrorKind::BadRequest,
                "Exact session grant is unavailable for this runtime request"@,
            ),
        ),
        response_error(ResponseModel::Permanent, call_id, option_id) == Some(
            (
                AgentErrorKind::BadRequest,
                "Permanent allow/deny is unavailable until exact durable grants are supported"@,
            ),
        ),
        response_error(ResponseModel::UnknownOption, call_id, option_id) == Some(
            (
                AgentErrorKind::BadRequest,
                "Unknown ACP permission option for this request: "@ + option_id,
            ),
        ),
        response_error(ResponseModel::Gated, call_id, option_id) == Some(
            (AgentErrorKind::BadRequest, "ACP permission requires a higher authority"@),
        ),
        forall|lifecycle: ConfirmationLifecycle, same_choice: bool| #[trigger]
            response_error(
                ResponseModel::Settled { lifecycle, same_choice },
                call_id,
                option_id,
            ) == Some(
                (
                    AgentErrorKind::BadRequest,
                    if lifecycle is Allowed || lifecycle is Denied || lifecycle is Cancelled {
                        "Pending ACP permission not found: "@ + call_id
                    } else {
                        "Pending ACP permission expired: "@ + call_id
                    },
                ),
            ),
{
}

/// Why an answer is not forwarded is told in this order: the call is not known, belongs to another
/// conversation, has ended, its requester is gone, and then what is wrong with the option.
pub proof fn refused_answer_is_told_why(
    model: RouterModel,
    call_id: Seq<char>,
    option_id: Seq<char>,
    conversation: Option<Seq<char>>,
    delivered: bool,
)
    ensures
        ({
            let response = model.response(call_id, option_id, conversation, delivered);
            let permission = model.permission(call_id);
            let own = model.knows(call_id) && !(conversation is Some && permission.authority is Some
                && permission.conversation != conversation->0);
            let pending = own && permission.lifecycle is Pending;
            let waiting = pending && permission.open;
            let authority = permission.authority->0;
            let meaning = disposition_of(authority.dispositions, option_id);
            let bound = waiting && permission.authority is Some;
            let allows = bound && (meaning == Some(OptionDisposition::AllowOnce) || meaning == Some(
                OptionDisposition::ExactSession,
            ));
            let exact = bound && meaning == Some(OptionDisposition::ExactSession)
                && !authority.gated();
            &&& !model.knows(call_id) ==> response is Missing
            &&& model.knows(call_id) && !own ==> response is WrongSession
            &&& own && !pending ==> response is Settled
            &&& pending && !waiting ==> response is Gone
            &&& bound && meaning is None ==> response is UnknownOption
            &&& bound && meaning == Some(OptionDisposition::UnsupportedPermanent) ==> response
                is Permanent
            &&& allows && authority.gated() ==> response is Gated
            &&& exact && authority.allow_once is None ==> response is NoAllowOnce
            &&& exact && authority.allow_once is Some && authority.grant_key is None ==> response
                is NoGrantKey
        }),
{
}

} // verus!
