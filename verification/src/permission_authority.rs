//! The authority over what an agent may do: permission modes, the runtime's capability receipt,
//! the acknowledged policy of a session, and the decision on one operation.
use vstd::prelude::*;
use vstd::utf8::encode_utf8;

use crate::json::{
    canonical, canonical_form_keeps_every_field, canonicalize_json, json_entries, json_text,
    json_to_string, optional_text, optional_text_value, push_entry, Json, JsonValue,
};
use crate::outside::{hex_encode, hex_text, new_uuid_v4, sha256, sha256_digest};
use crate::text::{
    chars_are, chars_of, decimal, decimal_string, same_text, text_view, trim, trim_chars,
};

verus! {

pub const COMMAND_EVE_POLICY_PROTOCOL_VERSION: u32 = 1;

pub const COMMAND_EVE_AUTHORITY_PROTOCOL_VERSION: u32 = 1;

/// The version of this runtime.
pub const RUNTIME_VERSION: &'static str = "0.1.0";

/// How freely an agent may act without asking.
#[derive(Debug, Clone, Copy, PartialEq, Eq, Hash, Structural)]
pub enum PermissionMode {
    Default,
    AcceptEdits,
    DontAsk,
    Guarded,
}

/// The mode that a name stands for.
pub open spec fn mode_of(name: Seq<char>) -> Option<PermissionMode> {
    if name == "default"@ || name == "ask"@ || name == "fragen"@ {
        Some(PermissionMode::Default)
    } else if name == "accept_edits"@ || name == "accept-edits"@ || name == "auto_edits"@ || name
        == "auto-edits"@ {
        Some(PermissionMode::AcceptEdits)
    } else if name == "dont_ask"@ || name == "dont-ask"@ || name == "auto"@ {
        Some(PermissionMode::DontAsk)
    } else if name == "guarded"@ || name == "guarded_auto"@ || name == "guarded-auto"@ || name
        == "dont_ask_hg4"@ {
        Some(PermissionMode::Guarded)
    } else {
        None
    }
}

/// The name of a mode.
pub open spec fn mode_name(mode: PermissionMode) -> Seq<char> {
    match mode {
        PermissionMode::Default => "default"@,
        PermissionMode::AcceptEdits => "accept_edits"@,
        PermissionMode::DontAsk => "dont_ask"@,
        PermissionMode::Guarded => "guarded"@,
    }
}

impl PermissionMode {
    /// The mode that a name stands for, white space around it aside.
    pub fn parse(value: &str) -> (r: Option<Self>)
        ensures
            r == mode_of(trim(value@)),
    {
        let chars = chars_of(value);
        let trimmed = trim_chars(chars.as_slice());
        let name = trimmed.as_slice();
        if chars_are(name, "default") || chars_are(name, "ask") || chars_are(name, "fragen") {
            Some(PermissionMode::Default)
        } else if chars_are(name, "accept_edits") || chars_are(name, "accept-edits") || chars_are(
            name,
            "auto_edits",
        ) || chars_are(name, "auto-edits") {
            Some(PermissionMode::AcceptEdits)
        } else if chars_are(name, "dont_ask") || chars_are(name, "dont-ask") || chars_are(
            name,
            "auto",
        ) {
            Some(PermissionMode::DontAsk)
        } else if chars_are(name, "guarded") || chars_are(name, "guarded_auto") || chars_are(
            name,
            "guarded-auto",
        ) || chars_are(name, "dont_ask_hg4") {
            Some(PermissionMode::Guarded)
        } else {
            None
        }
    }

    pub fn as_str(self) -> (r: &'static str)
        ensures
            r@ == mode_name(self),
    {
        match self {
            PermissionMode::Default => "default",
            PermissionMode::AcceptEdits => "accept_edits",
            PermissionMode::DontAsk => "dont_ask",
            PermissionMode::Guarded => "guarded",
        }
    }
}

/// The name of a mode stands for that mode.
pub proof fn mode_name_parses_to_the_mode(mode: PermissionMode)
    ensures
        mode_of(trim(mode_name(mode))) == Some(mode),
{
    reveal_strlit("default");
    reveal_strlit("ask");
    reveal_strlit("fragen");
    reveal_strlit("accept_edits");
    reveal_strlit("accept-edits");
    reveal_strlit("auto_edits");
    reveal_strlit("auto-edits");
    reveal_strlit("dont_ask");
    reveal_strlit("dont-ask");
    reveal_strlit("auto");
    reveal_strlit("guarded");
    let name = mode_name(mode);
    assert(trim(name) == name);
    assert(mode == PermissionMode::AcceptEdits ==> name[0] == 'a' && name.len() == 12);
    assert(mode == PermissionMode::DontAsk ==> name[0] == 'd' && name.len() == 8);
    assert(mode == PermissionMode::Guarded ==> name[0] == 'g' && name.len() == 7);
}

/// The mode in which the transport has to be kept: it asks before every operation, so that none
/// escapes the decision made here.
pub fn command_eve_transport_mode(_requested: &str) -> (r: &'static str)
    ensures
        r@ == "default"@,
{
    "default"
}

/// What kind of operation an agent asks for.
#[derive(Debug, Clone, Copy, PartialEq, Eq, Hash, Structural)]
pub enum OperationClass {
    RoutineEdit,
    RoutineTerminal,
    HardBlocked,
    Sensitive,
    Hg35,
    Hg4,
    Unknown,
}

/// Who has to agree to an operation.
#[derive(Debug, Clone, Copy, PartialEq, Eq, Hash, Structural)]
pub enum RequiredAuthority {
    User,
    Proxy,
    Founder,
}

/// The order of the authorities.
pub open spec fn authority_rank(authority: RequiredAuthority) -> u8 {
    match authority {
        RequiredAuthority::User => 1,
        RequiredAuthority::Proxy => 2,
        RequiredAuthority::Founder => 3,
    }
}

impl RequiredAuthority {
    pub fn rank(self) -> (r: u8)
        ensures
            r == authority_rank(self),
    {
        match self {
            RequiredAuthority::User => 1,
            RequiredAuthority::Proxy => 2,
            RequiredAuthority::Founder => 3,
        }
    }
}

/// What the runtime has proved that it can do.
#[derive(Debug, Clone, Copy, PartialEq, Eq, Structural)]
pub struct CommandEveCapabilities {
    pub trusted_classification: bool,
    pub policy_handshake: bool,
    pub guarded_auto: bool,
    pub versioned_grant_store: bool,
    pub revocation: bool,
}

impl CommandEveCapabilities {
    /// No capability.
    pub open spec fn none() -> CommandEveCapabilities {
        CommandEveCapabilities {
            trusted_classification: false,
            policy_handshake: false,
            guarded_auto: false,
            versioned_grant_store: false,
            revocation: false,
        }
    }

    /// Every capability.
    pub open spec fn complete(self) -> bool {
        self.trusted_classification && self.policy_handshake && self.guarded_auto
            && self.versioned_grant_store && self.revocation
    }

    pub fn guarded_auto_proven(self) -> (r: bool)
        ensures
            r == self.complete(),
    {
        self.trusted_classification && self.policy_handshake && self.guarded_auto
            && self.versioned_grant_store && self.revocation
    }
}

impl Default for CommandEveCapabilities {
    fn default() -> (r: Self)
        ensures
            r == CommandEveCapabilities::none(),
    {
        CommandEveCapabilities {
            trusted_classification: false,
            policy_handshake: false,
            guarded_auto: false,
            versioned_grant_store: false,
            revocation: false,
        }
    }
}

/// What a capability receipt says, as text.
pub struct ReceiptModel {
    pub protocol_version: u32,
    pub runtime_name: Seq<char>,
    pub runtime_version: Seq<char>,
    pub source_commit: Option<Seq<char>>,
    pub executable_sha256: Seq<char>,
    pub backend_identity: Seq<char>,
    pub instance_nonce: Seq<char>,
    pub capabilities: CommandEveCapabilities,
    pub receipt_digest: Seq<char>,
}

/// A hexadecimal digit in lower or upper case.
pub open spec fn is_hex(c: char) -> bool {
    '0' <= c <= '9' || 'a' <= c <= 'f' || 'A' <= c <= 'F'
}

/// A text of 64 hexadecimal digits.
pub open spec fn is_digest_text(s: Seq<char>) -> bool {
    s.len() == 64 && forall|i: int| 0 <= i < 64 ==> is_hex(#[trigger] s[i])
}

/// The lower-case hexadecimal SHA-256 digest of a JSON value's text.
pub open spec fn json_digest(value: Json) -> Seq<char> {
    hex_text(sha256(encode_utf8(json_text(value))))
}

impl ReceiptModel {
    /// The capabilities, by name.
    pub open spec fn capability_entries(self) -> Seq<(Seq<char>, Json)> {
        seq![
            ("trusted_classification"@, Json::Bool(self.capabilities.trusted_classification)),
            ("policy_handshake"@, Json::Bool(self.capabilities.policy_handshake)),
            ("guarded_auto"@, Json::Bool(self.capabilities.guarded_auto)),
            ("versioned_grant_store"@, Json::Bool(self.capabilities.versioned_grant_store)),
            ("revocation"@, Json::Bool(self.capabilities.revocation)),
        ]
    }

    /// Everything but the digest, by name.
    pub open spec fn payload_entries(self) -> Seq<(Seq<char>, Json)> {
        seq![
            ("protocol_version"@, Json::Number(decimal(self.protocol_version as nat))),
            ("runtime_name"@, Json::Text(self.runtime_name)),
            ("runtime_version"@, Json::Text(self.runtime_version)),
            ("source_commit"@, optional_text(self.source_commit)),
            ("executable_sha256"@, Json::Text(self.executable_sha256)),
            ("backend_identity"@, Json::Text(self.backend_identity)),
            ("instance_nonce"@, Json::Text(self.instance_nonce)),
            ("capabilities"@, Json::Object(self.capability_entries())),
        ]
    }

    /// What the digest of the receipt covers: everything but the digest.
    pub open spec fn payload(self) -> Json {
        canonical(Json::Object(self.payload_entries()))
    }

    /// The digest that the receipt has to carry.
    pub open spec fn expected_digest(self) -> Seq<char> {
        json_digest(self.payload())
    }

    /// Whether the receipt is that of this runtime for a backend, whole and unaltered.
    pub open spec fn valid_for(self, backend_identity: Seq<char>) -> bool {
        &&& self.protocol_version == COMMAND_EVE_POLICY_PROTOCOL_VERSION
        &&& self.runtime_name == "aioncore"@
        &&& self.runtime_version == RUNTIME_VERSION@
        &&& self.backend_identity == backend_identity
        &&& is_digest_text(self.executable_sha256)
        &&& self.instance_nonce.len() > 0
        &&& self.capabilities.trusted_classification
        &&& self.capabilities.policy_handshake
        &&& self.capabilities.revocation
        &&& self.receipt_digest == self.expected_digest()
    }
}

/// The receipt by which the runtime shows who it is and what it can do.
#[derive(Debug, PartialEq, Eq)]
pub struct RuntimeCapabilityReceipt {
    pub protocol_version: u32,
    pub runtime_name: String,
    pub runtime_version: String,
    pub source_commit: Option<String>,
    pub executable_sha256: String,
    pub backend_identity: String,
    pub instance_nonce: String,
    pub capabilities: CommandEveCapabilities,
    pub receipt_digest: String,
}

impl View for RuntimeCapabilityReceipt {
    type V = ReceiptModel;

    open spec fn view(&self) -> ReceiptModel {
        ReceiptModel {
            protocol_version: self.protocol_version,
            runtime_name: self.runtime_name@,
            runtime_version: self.runtime_version@,
            source_commit: text_view(self.source_commit),
            executable_sha256: self.executable_sha256@,
            backend_identity: self.backend_identity@,
            instance_nonce: self.instance_nonce@,
            capabilities: self.capabilities,
            receipt_digest: self.receipt_digest@,
        }
    }
}

impl Clone for RuntimeCapabilityReceipt {
    fn clone(&self) -> (r: Self)
        ensures
            r@ == self@,
    {
        RuntimeCapabilityReceipt {
            protocol_version: self.protocol_version,
            runtime_name: self.runtime_name.clone(),
            runtime_version: self.runtime_version.clone(),
            source_commit: clone_text(&self.source_commit),
            executable_sha256: self.executable_sha256.clone(),
            backend_identity: self.backend_identity.clone(),
            instance_nonce: self.instance_nonce.clone(),
            capabilities: self.capabilities,
            receipt_digest: self.receipt_digest.clone(),
        }
    }
}

/// A copy of an optional text.
pub fn clone_text(text: &Option<String>) -> (r: Option<String>)
    ensures
        text_view(r) == text_view(*text),
{
    match text {
        Some(text) => Some(text.clone()),
        None => None,
    }
}

/// Whether a text is made of 64 hexadecimal digits.
pub fn is_digest(value: &str) -> (r: bool)
    ensures
        r == is_digest_text(value@),
{
    let chars = chars_of(value);
    if chars.len() != 64 {
        return false;
    }
    let mut i: usize = 0;
    while i < chars.len()
        invariant
            chars@ == value@,
            i <= chars@.len(),
            forall|j: int| 0 <= j < i ==> is_hex(#[trigger] chars@[j]),
        decreases chars@.len() - i,
    {
        let c = chars[i];
        if !(('0' <= c && c <= '9') || ('a' <= c && c <= 'f') || ('A' <= c && c <= 'F')) {
            return false;
        }
        i = i + 1;
    }
    true
}

/// The digest of a JSON value's text.
pub fn digest_json(value: &JsonValue) -> (r: String)
    ensures
        r@ == json_digest(value@),
{
    let text = json_to_string(value);
    let digest = sha256_digest(text.as_str().as_bytes());
    hex_encode(digest.as_slice())
}

impl RuntimeCapabilityReceipt {
    /// The receipt of the running process, whose executable has the given digest.
    pub fn for_current_process(
        backend_identity: &str,
        executable_sha256: &str,
        source_commit: Option<String>,
    ) -> (r: Self)
        ensures
            r@ == current_process_receipt(
                backend_identity@,
                executable_sha256@,
                text_view(source_commit),
                r@.instance_nonce,
            ),
            r@.instance_nonce.len() == 36,
            r@.receipt_digest == r@.expected_digest(),
            r@.valid_for(backend_identity@) <==> is_digest_text(executable_sha256@),
    {
        let nonce = new_uuid_v4();
        RuntimeCapabilityReceipt::sealed(
            backend_identity,
            executable_sha256,
            source_commit,
            nonce.as_str(),
        )
    }

    /// A receipt of this runtime without Guarded Auto, sealed with its digest.
    pub fn sealed(
        backend_identity: &str,
        executable_sha256: &str,
        source_commit: Option<String>,
        instance_nonce: &str,
    ) -> (r: Self)
        ensures
            r@ == current_process_receipt(
                backend_identity@,
                executable_sha256@,
                text_view(source_commit),
                instance_nonce@,
            ),
            r@.valid_for(backend_identity@) <==> is_digest_text(executable_sha256@)
                && instance_nonce@.len() > 0,
    {
        let mut receipt = RuntimeCapabilityReceipt {
            protocol_version: COMMAND_EVE_POLICY_PROTOCOL_VERSION,
            runtime_name: "aioncore".to_owned(),
            runtime_version: RUNTIME_VERSION.to_owned(),
            source_commit,
            executable_sha256: executable_sha256.to_owned(),
            backend_identity: backend_identity.to_owned(),
            instance_nonce: instance_nonce.to_owned(),
            capabilities: CommandEveCapabilities {
                trusted_classification: true,
                policy_handshake: true,
                guarded_auto: false,
                versioned_grant_store: false,
                revocation: true,
            },
            receipt_digest: String::new(),
        };
        receipt.receipt_digest = receipt.expected_digest();
        receipt
    }

    /// A fixed valid receipt for the `hermes` backend, without Guarded Auto.
    pub fn test_receipt() -> (r: Self)
        ensures
            r@ == fixed_receipt(),
            r@.valid_for("hermes"@),
    {
        let mut executable_sha256 = String::new();
        let mut count: usize = 0;
        while count < 64
            invariant
                count <= 64,
                executable_sha256@ == Seq::new(count as nat, |i: int| 'a'),
            decreases 64 - count,
        {
            executable_sha256.push('a');
            count = count + 1;
            proof {
                assert(executable_sha256@ =~= Seq::new(count as nat, |i: int| 'a'));
            }
        }
        proof {
            reveal_strlit("test-instance");
            assert(is_digest_text(executable_sha256@));
        }
        RuntimeCapabilityReceipt::sealed(
            "hermes",
            executable_sha256.as_str(),
            Some("test-source".to_owned()),
            "test-instance",
        )
    }

    /// The same receipt with every capability.
    pub fn test_guarded_receipt() -> (r: Self)
        ensures
            r@ == fixed_guarded_receipt(),
            r@.valid_for("hermes"@),
            r@.capabilities.complete(),
    {
        let mut receipt = RuntimeCapabilityReceipt::test_receipt();
        receipt.capabilities.guarded_auto = true;
        receipt.capabilities.versioned_grant_store = true;
        receipt.receipt_digest = receipt.expected_digest();
        receipt
    }

    pub fn is_valid_for(&self, backend_identity: &str) -> (r: bool)
        ensures
            r == self@.valid_for(backend_identity@),
    {
        self.protocol_version == COMMAND_EVE_POLICY_PROTOCOL_VERSION && same_text(
            self.runtime_name.as_str(),
            "aioncore",
        ) && same_text(self.runtime_version.as_str(), RUNTIME_VERSION) && same_text(
            self.backend_identity.as_str(),
            backend_identity,
        ) && is_digest(self.executable_sha256.as_str()) && !self.instance_nonce.as_str().is_empty()
            && self.capabilities.trusted_classification && self.capabilities.policy_handshake
            && self.capabilities.revocation && self.receipt_digest == self.expected_digest()
    }

    /// The digest that this receipt has to carry.
    pub fn expected_digest(&self) -> (r: String)
        ensures
            r@ == self@.expected_digest(),
    {
        let mut capabilities: Vec<(String, JsonValue)> = Vec::new();
        push_entry(
            &mut capabilities,
            "trusted_classification",
            JsonValue::Bool(self.capabilities.trusted_classification),
        );
        push_entry(
            &mut capabilities,
            "policy_handshake",
            JsonValue::Bool(self.capabilities.policy_handshake),
        );
        push_entry(
            &mut capabilities,
            "guarded_auto",
            JsonValue::Bool(self.capabilities.guarded_auto),
        );
        push_entry(
            &mut capabilities,
            "versioned_grant_store",
            JsonValue::Bool(self.capabilities.versioned_grant_store),
        );
        push_entry(&mut capabilities, "revocation", JsonValue::Bool(self.capabilities.revocation));
        let mut payload: Vec<(String, JsonValue)> = Vec::new();
        push_entry(
            &mut payload,
            "protocol_version",
            JsonValue::Number(decimal_string(self.protocol_version as u64)),
        );
        push_entry(&mut payload, "runtime_name", JsonValue::Text(self.runtime_name.clone()));
        push_entry(&mut payload, "runtime_version", JsonValue::Text(self.runtime_version.clone()));
        push_entry(&mut payload, "source_commit", optional_text_value(&self.source_commit));
        push_entry(
            &mut payload,
            "executable_sha256",
            JsonValue::Text(self.executable_sha256.clone()),
        );
        push_entry(
            &mut payload,
            "backend_identity",
            JsonValue::Text(self.backend_identity.clone()),
        );
        push_entry(&mut payload, "instance_nonce", JsonValue::Text(self.instance_nonce.clone()));
        assert(json_entries(capabilities@) =~= self@.capability_entries());
        push_entry(&mut payload, "capabilities", JsonValue::Object(capabilities));
        assert(json_entries(payload@) =~= self@.payload_entries());
        let value = canonicalize_json(&JsonValue::Object(payload));
        digest_json(&value)
    }
}

/// What the receipt of the running process says.
pub open spec fn current_process_receipt(
    backend_identity: Seq<char>,
    executable_sha256: Seq<char>,
    source_commit: Option<Seq<char>>,
    instance_nonce: Seq<char>,
) -> ReceiptModel {
    let unsealed = ReceiptModel {
        protocol_version: COMMAND_EVE_POLICY_PROTOCOL_VERSION,
        runtime_name: "aioncore"@,
        runtime_version: RUNTIME_VERSION@,
        source_commit,
        executable_sha256,
        backend_identity,
        instance_nonce,
        capabilities: CommandEveCapabilities {
            trusted_classification: true,
            policy_handshake: true,
            guarded_auto: false,
            versioned_grant_store: false,
            revocation: true,
        },
        receipt_digest: Seq::empty(),
    };
    ReceiptModel { receipt_digest: unsealed.expected_digest(), ..unsealed }
}

/// A receipt for the `hermes` backend that is the same in every process.
pub open spec fn fixed_receipt() -> ReceiptModel {
    current_process_receipt(
        "hermes"@,
        Seq::new(64, |i: int| 'a'),
        Some("test-source"@),
        "test-instance"@,
    )
}

/// That receipt with every capability, sealed again.
pub open spec fn fixed_guarded_receipt() -> ReceiptModel {
    let unsealed = ReceiptModel {
        capabilities: CommandEveCapabilities {
            guarded_auto: true,
            versioned_grant_store: true,
            ..fixed_receipt().capabilities
        },
        ..fixed_receipt()
    };
    ReceiptModel { receipt_digest: unsealed.expected_digest(), ..unsealed }
}

/// The hexadecimal SHA-256 digest of an executable's bytes.
pub fn executable_digest(bytes: &[u8]) -> (r: String)
    ensures
        r@ == hex_text(sha256(bytes@)),
        is_digest_text(r@),
{
    let digest = sha256_digest(bytes);
    hex_encode(digest.as_slice())
}

/// A policy that the runtime has acknowledged.
pub struct SnapshotModel {
    pub protocol_version: u32,
    pub policy_revision: u64,
    pub session_epoch: u64,
    pub mode: PermissionMode,
    pub capabilities: CommandEveCapabilities,
    pub runtime_receipt: ReceiptModel,
}

/// A policy that the runtime has acknowledged, and under which operations are decided.
#[derive(Debug, PartialEq, Eq)]
pub struct PolicySnapshot {
    pub protocol_version: u32,
    pub policy_revision: u64,
    pub session_epoch: u64,
    pub mode: PermissionMode,
    pub capabilities: CommandEveCapabilities,
    pub runtime_receipt: RuntimeCapabilityReceipt,
}

impl View for PolicySnapshot {
    type V = SnapshotModel;

    open spec fn view(&self) -> SnapshotModel {
        SnapshotModel {
            protocol_version: self.protocol_version,
            policy_revision: self.policy_revision,
            session_epoch: self.session_epoch,
            mode: self.mode,
            capabilities: self.capabilities,
            runtime_receipt: self.runtime_receipt@,
        }
    }
}

impl Clone for PolicySnapshot {
    fn clone(&self) -> (r: Self)
        ensures
            r@ == self@,
    {
        PolicySnapshot {
            protocol_version: self.protocol_version,
            policy_revision: self.policy_revision,
            session_epoch: self.session_epoch,
            mode: self.mode,
            capabilities: self.capabilities,
            runtime_receipt: self.runtime_receipt.clone(),
        }
    }
}

/// What an optional snapshot holds.
pub open spec fn snapshot_view(snapshot: Option<PolicySnapshot>) -> Option<SnapshotModel> {
    match snapshot {
        Some(snapshot) => Some(snapshot@),
        None => None,
    }
}

/// What an optional reference to a snapshot holds.
pub open spec fn snapshot_ref_view(snapshot: Option<&PolicySnapshot>) -> Option<SnapshotModel> {
    match snapshot {
        Some(snapshot) => Some(snapshot@),
        None => None,
    }
}

/// Why a turn or an operation has no policy to run under.
#[derive(Debug, Clone, Copy, PartialEq, Eq, Structural)]
pub enum PolicyGateError {
    UnsupportedPermissionMode,
    PolicyPending,
    UnacknowledgedPolicy,
    GuardedAutoUnavailable,
    MissingTurnLease,
    StaleTurnPolicy,
    UnsafeTransportMode,
}

impl PolicyGateError {
    /// The message of the error.
    pub open spec fn text(self) -> Seq<char> {
        match self {
            PolicyGateError::UnsupportedPermissionMode =>
                "Command EVE permission mode is unsupported"@,
            PolicyGateError::PolicyPending =>
                "Command EVE permission policy is pending runtime acknowledgement"@,
            PolicyGateError::UnacknowledgedPolicy =>
                "Command EVE permission policy is not acknowledged by the runtime"@,
            PolicyGateError::GuardedAutoUnavailable =>
                "Guarded Auto is unavailable without the complete runtime capability proof"@,
            PolicyGateError::MissingTurnLease =>
                "Command EVE turn has no acknowledged policy lease"@,
            PolicyGateError::StaleTurnPolicy => "Command EVE turn policy is stale"@,
            PolicyGateError::UnsafeTransportMode =>
                "Command EVE Hermes transport is not pinned to default"@,
        }
    }

    /// The message of the error.
    pub fn message(self) -> (r: &'static str)
        ensures
            r@ == self.text(),
    {
        match self {
            PolicyGateError::UnsupportedPermissionMode =>
                "Command EVE permission mode is unsupported",
            PolicyGateError::PolicyPending =>
                "Command EVE permission policy is pending runtime acknowledgement",
            PolicyGateError::UnacknowledgedPolicy =>
                "Command EVE permission policy is not acknowledged by the runtime",
            PolicyGateError::GuardedAutoUnavailable =>
                "Guarded Auto is unavailable without the complete runtime capability proof",
            PolicyGateError::MissingTurnLease =>
                "Command EVE turn has no acknowledged policy lease",
            PolicyGateError::StaleTurnPolicy => "Command EVE turn policy is stale",
            PolicyGateError::UnsafeTransportMode =>
                "Command EVE Hermes transport is not pinned to default",
        }
    }
}

/// A mode that was asked for and not acknowledged.
#[derive(Debug, Clone, Copy, PartialEq, Eq, Structural)]
pub struct PendingPolicy {
    pub policy_revision: u64,
    pub mode: PermissionMode,
}

/// What a policy state holds.
pub struct PolicyModel {
    pub session_epoch: u64,
    pub next_revision: u64,
    pub pending: Option<PendingPolicy>,
    pub acknowledged: Option<SnapshotModel>,
    pub active_turn: Option<SnapshotModel>,
    pub capabilities: CommandEveCapabilities,
    pub runtime_receipt: Option<ReceiptModel>,
}

impl PolicyModel {
    /// Whether the runtime can run a mode.
    pub open spec fn available(self, mode: PermissionMode) -> bool {
        mode != PermissionMode::Guarded || self.capabilities.complete()
    }

    /// No policy asked for, acknowledged or in use.
    pub open spec fn revoked(self) -> PolicyModel {
        PolicyModel { pending: None, acknowledged: None, active_turn: None, ..self }
    }

    /// After the runtime said who it is.
    pub open spec fn greeted(self, receipt: ReceiptModel) -> PolicyModel {
        if receipt.valid_for("hermes"@) {
            PolicyModel {
                capabilities: receipt.capabilities,
                runtime_receipt: Some(receipt),
                ..self
            }
        } else {
            PolicyModel {
                capabilities: CommandEveCapabilities::none(),
                runtime_receipt: None,
                ..self.revoked()
            }
        }
    }

    /// In a new session.
    pub open spec fn in_new_session(self) -> PolicyModel {
        PolicyModel {
            session_epoch: if self.session_epoch < u64::MAX {
                (self.session_epoch + 1) as u64
            } else {
                u64::MAX
            },
            ..self.revoked()
        }
    }

    /// Whether a mode is the one asked for.
    pub open spec fn is_pending(self, mode: PermissionMode) -> bool {
        self.pending is Some && self.pending->0.mode == mode
    }

    /// Whether a mode is the acknowledged one.
    pub open spec fn is_acknowledged(self, mode: PermissionMode) -> bool {
        self.acknowledged is Some && self.acknowledged->0.mode == mode
    }

    /// With a mode asked for under a new revision.
    pub open spec fn asking(self, mode: PermissionMode) -> PolicyModel {
        PolicyModel {
            next_revision: (self.next_revision + 1) as u64,
            pending: Some(PendingPolicy { policy_revision: self.next_revision, mode }),
            active_turn: None,
            ..self
        }
    }

    /// After a mode was preferred.
    pub open spec fn requested(self, mode: PermissionMode) -> PolicyModel {
        if self.is_pending(mode) {
            self
        } else if self.is_acknowledged(mode) {
            PolicyModel { pending: None, ..self }
        } else {
            self.asking(mode)
        }
    }

    /// The revision under which a preferred mode is, or will be, in force.
    pub open spec fn requested_revision(self, mode: PermissionMode) -> u64 {
        if self.is_pending(mode) {
            self.pending->0.policy_revision
        } else if self.is_acknowledged(mode) {
            self.acknowledged->0.policy_revision
        } else {
            self.next_revision
        }
    }

    /// After a change of mode was begun on the transport.
    pub open spec fn changing(self, mode: PermissionMode) -> PolicyModel {
        if self.is_pending(mode) {
            self
        } else {
            self.asking(mode)
        }
    }

    /// Whether the runtime's word that a mode is in force is accepted.
    pub open spec fn accepts(self, mode: PermissionMode) -> bool {
        &&& self.available(mode)
        &&& self.runtime_receipt is Some
        &&& self.session_epoch != 0
        &&& self.pending is Some ==> self.pending->0.mode == mode
    }

    /// Whether an accepted acknowledgement takes a new revision.
    pub open spec fn needs_revision(self, mode: PermissionMode) -> bool {
        self.pending is None && !self.is_acknowledged(mode)
    }

    /// The snapshot that an accepted acknowledgement makes.
    pub open spec fn snapshot_for(self, mode: PermissionMode) -> SnapshotModel {
        SnapshotModel {
            protocol_version: COMMAND_EVE_POLICY_PROTOCOL_VERSION,
            policy_revision: if self.pending is Some {
                self.pending->0.policy_revision
            } else if self.is_acknowledged(mode) {
                self.acknowledged->0.policy_revision
            } else {
                self.next_revision
            },
            session_epoch: self.session_epoch,
            mode,
            capabilities: self.capabilities,
            runtime_receipt: self.runtime_receipt->0,
        }
    }

    /// After the runtime's word that a mode is in force.
    pub open spec fn acknowledging(self, mode: PermissionMode) -> PolicyModel {
        if self.accepts(mode) {
            PolicyModel {
                next_revision: if self.needs_revision(mode) {
                    (self.next_revision + 1) as u64
                } else {
                    self.next_revision
                },
                pending: None,
                acknowledged: Some(self.snapshot_for(mode)),
                ..self
            }
        } else {
            self
        }
    }

    /// The policy that a new turn runs under.
    pub open spec fn turn_policy(self) -> Result<SnapshotModel, PolicyGateError> {
        if self.pending is Some {
            Err(PolicyGateError::PolicyPending)
        } else if self.acknowledged is None {
            Err(PolicyGateError::UnacknowledgedPolicy)
        } else if self.acknowledged->0.mode == PermissionMode::Guarded
            && !self.acknowledged->0.capabilities.complete() {
            Err(PolicyGateError::GuardedAutoUnavailable)
        } else {
            Ok(self.acknowledged->0)
        }
    }

    /// After a turn was begun.
    pub open spec fn in_turn(self) -> PolicyModel {
        match self.turn_policy() {
            Ok(snapshot) => PolicyModel { active_turn: Some(snapshot), ..self },
            Err(_) => self,
        }
    }

    /// The policy under which the running turn's operations are decided.
    pub open spec fn operation_policy(self) -> Result<SnapshotModel, PolicyGateError> {
        if self.pending is Some {
            Err(PolicyGateError::PolicyPending)
        } else if self.acknowledged is None {
            Err(PolicyGateError::UnacknowledgedPolicy)
        } else if self.active_turn is None {
            Err(PolicyGateError::MissingTurnLease)
        } else if self.acknowledged->0.policy_revision != self.active_turn->0.policy_revision
            || self.acknowledged->0.session_epoch != self.active_turn->0.session_epoch {
            Err(PolicyGateError::StaleTurnPolicy)
        } else {
            Ok(self.active_turn->0)
        }
    }

    /// The acknowledged policy, where none is asked for.
    pub open spec fn routable(self) -> Option<SnapshotModel> {
        if self.pending is None {
            self.acknowledged
        } else {
            None
        }
    }

    /// The revisions given out so far lie below the next one, no turn runs while a change of mode is
    /// outstanding, and no policy is acknowledged without a receipt and a session.
    pub open spec fn wf(self) -> bool {
        &&& self.pending is Some ==> {
            &&& self.pending->0.policy_revision < self.next_revision
            &&& self.active_turn is None
        }
        &&& self.acknowledged is Some ==> {
            &&& self.acknowledged->0.policy_revision < self.next_revision
            &&& self.acknowledged->0.session_epoch == self.session_epoch
            &&& self.session_epoch > 0
            &&& self.acknowledged->0.runtime_receipt.valid_for("hermes"@)
            &&& self.acknowledged->0.mode == PermissionMode::Guarded
                ==> self.acknowledged->0.capabilities.complete()
        }
        &&& self.active_turn is Some ==> self.active_turn->0.policy_revision < self.next_revision
        &&& self.runtime_receipt is Some ==> self.runtime_receipt->0.valid_for("hermes"@)
            && self.capabilities == self.runtime_receipt->0.capabilities
        &&& self.runtime_receipt is None ==> self.capabilities == CommandEveCapabilities::none()
    }
}

/// The policy authority of a session. The mode that is asked for is distinct from the one that the
/// runtime has acknowledged.
#[derive(Debug)]
pub struct CommandEvePolicyState {
    session_epoch: u64,
    next_revision: u64,
    pending: Option<PendingPolicy>,
    acknowledged: Option<PolicySnapshot>,
    active_turn: Option<PolicySnapshot>,
    capabilities: CommandEveCapabilities,
    runtime_receipt: Option<RuntimeCapabilityReceipt>,
}

/// What an optional receipt says.
pub open spec fn receipt_view(receipt: Option<RuntimeCapabilityReceipt>) -> Option<ReceiptModel> {
    match receipt {
        Some(receipt) => Some(receipt@),
        None => None,
    }
}

impl View for CommandEvePolicyState {
    type V = PolicyModel;

    closed spec fn view(&self) -> PolicyModel {
        PolicyModel {
            session_epoch: self.session_epoch,
            next_revision: self.next_revision,
            pending: self.pending,
            acknowledged: snapshot_view(self.acknowledged),
            active_turn: snapshot_view(self.active_turn),
            capabilities: self.capabilities,
            runtime_receipt: receipt_view(self.runtime_receipt),
        }
    }
}

impl Default for CommandEvePolicyState {
    fn default() -> (r: Self)
        ensures
            r@ == initial_policy(),
    {
        CommandEvePolicyState {
            session_epoch: 0,
            next_revision: 1,
            pending: None,
            acknowledged: None,
            active_turn: None,
            capabilities: CommandEveCapabilities::default(),
            runtime_receipt: None,
        }
    }
}

/// The policy state before anything has happened.
pub open spec fn initial_policy() -> PolicyModel {
    PolicyModel {
        session_epoch: 0,
        next_revision: 1,
        pending: None,
        acknowledged: None,
        active_turn: None,
        capabilities: CommandEveCapabilities::none(),
        runtime_receipt: None,
    }
}

/// The snapshot of a successful result, as text.
pub open spec fn gate_view(r: Result<PolicySnapshot, PolicyGateError>) -> Result<
    SnapshotModel,
    PolicyGateError,
> {
    match r {
        Ok(snapshot) => Ok(snapshot@),
        Err(error) => Err(error),
    }
}

impl CommandEvePolicyState {
    /// Whether enough revisions are left for a change of the mode and its acknowledgement.
    pub fn has_revisions(&self) -> (r: bool)
        ensures
            r == (self@.next_revision < u64::MAX - 1),
    {
        self.next_revision < u64::MAX - 1
    }

    pub fn mode_available(&self, mode: PermissionMode) -> (r: bool)
        ensures
            r == self@.available(mode),
    {
        mode != PermissionMode::Guarded || self.capabilities.guarded_auto_proven()
    }

    /// Takes the runtime's receipt. An invalid one takes away every capability and policy.
    pub fn apply_runtime_hello(&mut self, receipt: RuntimeCapabilityReceipt) -> (r: bool)
        ensures
            r == receipt@.valid_for("hermes"@),
            final(self)@ == old(self)@.greeted(receipt@),
    {
        if !receipt.is_valid_for("hermes") {
            self.capabilities = CommandEveCapabilities::default();
            self.runtime_receipt = None;
            self.revoke();
            return false;
        }
        self.capabilities = receipt.capabilities;
        self.runtime_receipt = Some(receipt);
        true
    }

    /// Begins a new session, in which nothing is acknowledged.
    pub fn begin_session(&mut self)
        ensures
            final(self)@ == old(self)@.in_new_session(),
    {
        self.session_epoch = self.session_epoch.saturating_add(1);
        self.pending = None;
        self.acknowledged = None;
        self.active_turn = None;
    }

    fn pending_revision(&self, mode: PermissionMode) -> (r: Option<u64>)
        ensures
            r == if self@.is_pending(mode) {
                Some(self@.pending->0.policy_revision)
            } else {
                None
            },
    {
        match &self.pending {
            Some(pending) => if pending.mode == mode {
                Some(pending.policy_revision)
            } else {
                None
            },
            None => None,
        }
    }

    fn acknowledged_revision(&self, mode: PermissionMode) -> (r: Option<u64>)
        ensures
            r == if self@.is_acknowledged(mode) {
                Some(self@.acknowledged->0.policy_revision)
            } else {
                None
            },
    {
        match &self.acknowledged {
            Some(snapshot) => if snapshot.mode == mode {
                Some(snapshot.policy_revision)
            } else {
                None
            },
            None => None,
        }
    }

    /// Prefers a mode, and returns the revision under which it is or will be in force. A new
    /// preference ends the running turn's lease at once.
    pub fn request_mode(&mut self, mode: PermissionMode) -> (r: u64)
        requires
            old(self)@.is_pending(mode) || old(self)@.is_acknowledged(mode) || old(
                self,
            )@.next_revision < u64::MAX,
        ensures
            r == old(self)@.requested_revision(mode),
            final(self)@ == old(self)@.requested(mode),
    {
        if let Some(revision) = self.pending_revision(mode) {
            return revision;
        }
        if let Some(revision) = self.acknowledged_revision(mode) {
            self.pending = None;
            return revision;
        }
        self.ask(mode)
    }

    /// The mode that is asked for and not acknowledged.
    pub fn pending_mode(&self) -> (r: Option<PermissionMode>)
        ensures
            r == match self@.pending {
                Some(pending) => Some(pending.mode),
                None => None,
            },
    {
        match &self.pending {
            Some(pending) => Some(pending.mode),
            None => None,
        }
    }

    /// Begins a change of mode on the transport, even to the acknowledged mode. Until it is
    /// acknowledged no turn lease and no routable policy is left.
    pub fn begin_mode_change(&mut self, mode: PermissionMode) -> (r: u64)
        requires
            old(self)@.is_pending(mode) || old(self)@.next_revision < u64::MAX,
        ensures
            r == if old(self)@.is_pending(mode) {
                old(self)@.pending->0.policy_revision
            } else {
                old(self)@.next_revision
            },
            final(self)@ == old(self)@.changing(mode),
    {
        if let Some(revision) = self.pending_revision(mode) {
            return revision;
        }
        self.ask(mode)
    }

    fn ask(&mut self, mode: PermissionMode) -> (r: u64)
        requires
            old(self)@.next_revision < u64::MAX,
        ensures
            r == old(self)@.next_revision,
            final(self)@ == old(self)@.asking(mode),
    {
        let revision = self.take_revision();
        self.pending = Some(PendingPolicy { policy_revision: revision, mode });
        self.active_turn = None;
        revision
    }

    /// Takes the runtime's word that a mode is in force. It counts only for a mode that the runtime
    /// can run, after a valid receipt, within a session, and where no other mode is asked for.
    pub fn acknowledge_runtime_mode(&mut self, mode: PermissionMode) -> (r: Option<PolicySnapshot>)
        requires
            old(self)@.accepts(mode) && old(self)@.needs_revision(mode) ==> old(
                self,
            )@.next_revision < u64::MAX,
        ensures
            snapshot_view(r) == if old(self)@.accepts(mode) {
                Some(old(self)@.snapshot_for(mode))
            } else {
                None
            },
            final(self)@ == old(self)@.acknowledging(mode),
    {
        if !self.mode_available(mode) {
            return None;
        }
        let runtime_receipt = match &self.runtime_receipt {
            Some(receipt) => receipt.clone(),
            None => {
                return None;
            },
        };
        if self.session_epoch == 0 {
            return None;
        }
        let revision: u64 = match self.pending {
            Some(pending) => {
                if pending.mode != mode {
                    return None;
                }
                pending.policy_revision
            },
            None => match self.acknowledged_revision(mode) {
                Some(revision) => revision,
                None => self.take_revision(),
            },
        };
        self.pending = None;
        let snapshot = PolicySnapshot {
            protocol_version: COMMAND_EVE_POLICY_PROTOCOL_VERSION,
            policy_revision: revision,
            session_epoch: self.session_epoch,
            mode,
            capabilities: self.capabilities,
            runtime_receipt,
        };
        self.acknowledged = Some(snapshot.clone());
        Some(snapshot)
    }

    /// Begins a turn under the acknowledged policy.
    pub fn begin_turn(&mut self) -> (r: Result<PolicySnapshot, PolicyGateError>)
        ensures
            gate_view(r) == old(self)@.turn_policy(),
            final(self)@ == old(self)@.in_turn(),
    {
        if self.pending.is_some() {
            return Err(PolicyGateError::PolicyPending);
        }
        let snapshot = match &self.acknowledged {
            Some(snapshot) => snapshot.clone(),
            None => {
                return Err(PolicyGateError::UnacknowledgedPolicy);
            },
        };
        if snapshot.mode == PermissionMode::Guarded
            && !snapshot.capabilities.guarded_auto_proven() {
            return Err(PolicyGateError::GuardedAutoUnavailable);
        }
        self.active_turn = Some(snapshot.clone());
        Ok(snapshot)
    }

    /// The policy under which an operation of the running turn is decided.
    pub fn permission_snapshot(&self) -> (r: Result<PolicySnapshot, PolicyGateError>)
        ensures
            gate_view(r) == self@.operation_policy(),
    {
        if self.pending.is_some() {
            return Err(PolicyGateError::PolicyPending);
        }
        match &self.acknowledged {
            Some(current) => match &self.active_turn {
                Some(turn) => if current.policy_revision != turn.policy_revision
                    || current.session_epoch != turn.session_epoch {
                    Err(PolicyGateError::StaleTurnPolicy)
                } else {
                    Ok(turn.clone())
                },
                None => Err(PolicyGateError::MissingTurnLease),
            },
            None => Err(PolicyGateError::UnacknowledgedPolicy),
        }
    }

    pub fn acknowledged(&self) -> (r: Option<&PolicySnapshot>)
        ensures
            snapshot_ref_view(r) == self@.acknowledged,
    {
        match &self.acknowledged {
            Some(snapshot) => Some(snapshot),
            None => None,
        }
    }

    /// The acknowledged policy, as long as no other one is asked for.
    pub fn routable_snapshot(&self) -> (r: Option<&PolicySnapshot>)
        ensures
            snapshot_ref_view(r) == self@.routable(),
    {
        if self.pending.is_some() {
            return None;
        }
        match &self.acknowledged {
            Some(snapshot) => Some(snapshot),
            None => None,
        }
    }

    /// Takes back every policy.
    pub fn revoke(&mut self)
        ensures
            final(self)@ == old(self)@.revoked(),
    {
        self.pending = None;
        self.acknowledged = None;
        self.active_turn = None;
    }

    fn take_revision(&mut self) -> (r: u64)
        requires
            old(self)@.next_revision < u64::MAX,
        ensures
            r == old(self)@.next_revision,
            final(self)@ == (PolicyModel {
                next_revision: (old(self)@.next_revision + 1) as u64,
                ..old(self)@
            }),
    {
        let revision: u64 = self.next_revision;
        self.next_revision = revision + 1;
        revision
    }
}

/// One step in the life of a policy state.
pub enum PolicyStep {
    Hello(ReceiptModel),
    BeginSession,
    Request(PermissionMode),
    BeginChange(PermissionMode),
    Acknowledge(PermissionMode),
    BeginTurn,
    Revoke,
}

impl PolicyModel {
    /// The state after a step.
    pub open spec fn step(self, step: PolicyStep) -> PolicyModel {
        match step {
            PolicyStep::Hello(receipt) => self.greeted(receipt),
            PolicyStep::BeginSession => self.in_new_session(),
            PolicyStep::Request(mode) => self.requested(mode),
            PolicyStep::BeginChange(mode) => self.changing(mode),
            PolicyStep::Acknowledge(mode) => self.acknowledging(mode),
            PolicyStep::BeginTurn => self.in_turn(),
            PolicyStep::Revoke => self.revoked(),
        }
    }
}

/// The initial policy state is well formed.
pub proof fn initial_policy_is_well_formed()
    ensures
        initial_policy().wf(),
{
}

/// Every step keeps a policy state well formed: revisions lie below the next one, no turn survives
/// while a change of mode is outstanding, and only a valid receipt and a session lead to an
/// acknowledged policy.
pub proof fn every_step_keeps_the_policy_well_formed(model: PolicyModel, step: PolicyStep)
    requires
        model.wf(),
        model.next_revision < u64::MAX,
    ensures
        model.step(step).wf(),
        model.next_revision <= model.step(step).next_revision,
{
}

/// While a mode is asked for and not acknowledged, no turn begins, no operation has a policy and
/// no policy is routed.
pub proof fn pending_policy_gates_everything(model: PolicyModel)
    requires
        model.pending is Some,
    ensures
        model.turn_policy() == Err::<SnapshotModel, PolicyGateError>(
            PolicyGateError::PolicyPending,
        ),
        model.operation_policy() == Err::<SnapshotModel, PolicyGateError>(
            PolicyGateError::PolicyPending,
        ),
        model.routable() is None,
{
}

/// Beginning a change of mode takes the running turn's policy away, whatever mode was acknowledged
/// or asked for before: no earlier turn survives while the change is outstanding.
pub proof fn mode_change_invalidates_the_turn(model: PolicyModel, mode: PermissionMode)
    requires
        model.wf(),
    ensures
        model.changing(mode).pending is Some,
        model.changing(mode).active_turn is None,
        model.changing(mode).operation_policy() is Err,
{
}

/// A preference for another mode than the acknowledged one does so too.
pub proof fn preference_invalidates_the_turn(model: PolicyModel, mode: PermissionMode)
    requires
        model.wf(),
        !model.is_acknowledged(mode),
    ensures
        model.requested(mode).pending is Some,
        model.requested(mode).active_turn is None,
        model.requested(mode).operation_policy() is Err,
{
}

/// The revision of a newly asked mode is larger than that of the acknowledged policy, of the turn's
/// and of every mode asked for before.
pub proof fn asked_revision_is_new(model: PolicyModel, mode: PermissionMode)
    requires
        model.wf(),
        model.next_revision < u64::MAX,
    ensures
        ({
            let revision = model.asking(mode).pending->0.policy_revision;
            &&& model.pending is Some ==> model.pending->0.policy_revision < revision
            &&& model.acknowledged is Some ==> model.acknowledged->0.policy_revision < revision
            &&& model.active_turn is Some ==> model.active_turn->0.policy_revision < revision
        }),
{
}

/// An acknowledgement of another mode than the one asked for is ignored.
pub proof fn stale_acknowledgement_is_ignored(model: PolicyModel, mode: PermissionMode)
    requires
        model.pending is Some,
        model.pending->0.mode != mode,
    ensures
        model.acknowledging(mode) == model,
{
}

/// Without a valid receipt no acknowledgement counts, and an invalid receipt takes back whatever
/// was acknowledged.
pub proof fn unverified_runtime_is_never_acknowledged(
    model: PolicyModel,
    receipt: ReceiptModel,
    mode: PermissionMode,
)
    requires
        !receipt.valid_for("hermes"@),
    ensures
        model.greeted(receipt).acknowledged is None,
        !model.greeted(receipt).accepts(mode),
        !model.greeted(receipt).in_new_session().accepts(mode),
{
}

/// A turn under an acknowledged policy decides its operations under that policy.
pub proof fn turn_runs_under_the_acknowledged_policy(model: PolicyModel)
    requires
        model.turn_policy() is Ok,
    ensures
        model.in_turn().operation_policy() == model.turn_policy(),
        model.turn_policy() == Ok::<SnapshotModel, PolicyGateError>(model.acknowledged->0),
{
}

/// Guarded Auto runs only with every capability proved.
pub proof fn guarded_turn_has_every_capability(model: PolicyModel)
    requires
        model.wf(),
        model.turn_policy() is Ok,
        model.turn_policy()->Ok_0.mode == PermissionMode::Guarded,
    ensures
        model.turn_policy()->Ok_0.capabilities.complete(),
{
}

/// A new session starts without any policy.
pub proof fn new_session_starts_unacknowledged(model: PolicyModel)
    ensures
        model.in_new_session().turn_policy() == Err::<SnapshotModel, PolicyGateError>(
            PolicyGateError::UnacknowledgedPolicy,
        ),
        model.in_new_session().session_epoch > 0,
{
}

/// An operation's class, and who has to agree to it.
#[derive(Debug, Clone, Copy, PartialEq, Eq, Structural)]
pub struct TrustedClassification {
    pub class: OperationClass,
    pub required_authority: Option<RequiredAuthority>,
}

/// Who has to agree to an operation of a class.
pub open spec fn authority_of(class: OperationClass) -> Option<RequiredAuthority> {
    match class {
        OperationClass::Sensitive => Some(RequiredAuthority::User),
        OperationClass::Hg35 => Some(RequiredAuthority::Proxy),
        OperationClass::Hg4 => Some(RequiredAuthority::Founder),
        _ => None,
    }
}

impl TrustedClassification {
    /// The classification of a class.
    pub open spec fn of(class: OperationClass) -> TrustedClassification {
        TrustedClassification { class, required_authority: authority_of(class) }
    }

    /// The classification of a command that fits no class: the owner is asked, and no grant or
    /// mode allows it.
    pub open spec fn unplaced() -> TrustedClassification {
        TrustedClassification {
            class: OperationClass::Unknown,
            required_authority: Some(RequiredAuthority::User),
        }
    }

    pub fn new(class: OperationClass) -> (r: Self)
        ensures
            r == TrustedClassification::of(class),
    {
        let required_authority = match class {
            OperationClass::Sensitive => Some(RequiredAuthority::User),
            OperationClass::Hg35 => Some(RequiredAuthority::Proxy),
            OperationClass::Hg4 => Some(RequiredAuthority::Founder),
            _ => None,
        };
        TrustedClassification { class, required_authority }
    }

    /// The classification of a command that fits no class.
    pub fn unclassified_execute() -> (r: Self)
        ensures
            r == TrustedClassification::unplaced(),
    {
        TrustedClassification {
            class: OperationClass::Unknown,
            required_authority: Some(RequiredAuthority::User),
        }
    }
}

/// What happens to an operation.
#[derive(Debug, Clone, Copy, PartialEq, Eq, Structural)]
pub enum PermissionDecision {
    Allow,
    Ask,
    AskWithOwner(RequiredAuthority),
    RequireAuthority(RequiredAuthority),
    Block,
    Unsupported,
}

/// What an operation is decided by.
#[derive(Debug, Clone, Copy)]
pub struct DecisionInput {
    pub mode: PermissionMode,
    pub classification: TrustedClassification,
    pub explicit_deny: bool,
    pub exact_grant: bool,
    pub authority_receipt_verified: bool,
    pub capabilities: CommandEveCapabilities,
}

impl DecisionInput {
    /// Whether nothing trustworthy is known of the operation.
    pub open spec fn unplaced(self) -> bool {
        self.classification.class == OperationClass::Unknown
            || !self.capabilities.trusted_classification
    }

    /// What the mode says of a routine operation.
    pub open spec fn mode_decision(self) -> PermissionDecision {
        let routine = self.classification.class == OperationClass::RoutineEdit
            || self.classification.class == OperationClass::RoutineTerminal;
        match self.mode {
            PermissionMode::Default => PermissionDecision::Ask,
            PermissionMode::AcceptEdits => if self.classification.class
                == OperationClass::RoutineEdit {
                PermissionDecision::Allow
            } else {
                PermissionDecision::Ask
            },
            PermissionMode::DontAsk => if routine {
                PermissionDecision::Allow
            } else {
                PermissionDecision::Ask
            },
            PermissionMode::Guarded => if routine && self.capabilities.complete() {
                PermissionDecision::Allow
            } else {
                PermissionDecision::Unsupported
            },
        }
    }

    /// The decision. The first of these that applies counts: the hard block, an operation that
    /// fits no class, the required authority, an explicit deny, an exact grant, the mode.
    pub open spec fn decision(self) -> PermissionDecision {
        if self.classification.class == OperationClass::HardBlocked {
            PermissionDecision::Block
        } else if self.unplaced() {
            if self.mode == PermissionMode::Guarded {
                PermissionDecision::Unsupported
            } else {
                match self.classification.required_authority {
                    Some(required) => PermissionDecision::AskWithOwner(required),
                    None => PermissionDecision::Ask,
                }
            }
        } else {
            match self.classification.required_authority {
                Some(RequiredAuthority::User) => if self.explicit_deny {
                    PermissionDecision::Block
                } else {
                    PermissionDecision::AskWithOwner(RequiredAuthority::User)
                },
                Some(required) => if !self.authority_receipt_verified {
                    PermissionDecision::RequireAuthority(required)
                } else if self.explicit_deny {
                    PermissionDecision::Block
                } else {
                    PermissionDecision::Allow
                },
                None => if self.explicit_deny {
                    PermissionDecision::Block
                } else if self.exact_grant {
                    PermissionDecision::Allow
                } else {
                    self.mode_decision()
                },
            }
        }
    }
}

/// Decides on an operation.
pub fn decide(input: DecisionInput) -> (r: PermissionDecision)
    ensures
        r == input.decision(),
{
    let class = input.classification.class;
    if class == OperationClass::HardBlocked {
        return PermissionDecision::Block;
    }
    if class == OperationClass::Unknown || !input.capabilities.trusted_classification {
        if input.mode == PermissionMode::Guarded {
            return PermissionDecision::Unsupported;
        }
        return match input.classification.required_authority {
            Some(required) => PermissionDecision::AskWithOwner(required),
            None => PermissionDecision::Ask,
        };
    }
    if let Some(required) = input.classification.required_authority {
        if required != RequiredAuthority::User {
            if !input.authority_receipt_verified {
                return PermissionDecision::RequireAuthority(required);
            }
            return if input.explicit_deny {
                PermissionDecision::Block
            } else {
                PermissionDecision::Allow
            };
        }
        if input.explicit_deny {
            return PermissionDecision::Block;
        }
        return PermissionDecision::AskWithOwner(required);
    }
    if input.explicit_deny {
        return PermissionDecision::Block;
    }
    if input.exact_grant {
        return PermissionDecision::Allow;
    }
    match (input.mode, class) {
        (PermissionMode::AcceptEdits, OperationClass::RoutineEdit) => PermissionDecision::Allow,
        (
            PermissionMode::DontAsk,
            OperationClass::RoutineEdit | OperationClass::RoutineTerminal,
        ) => PermissionDecision::Allow,
        (
            PermissionMode::Guarded,
            OperationClass::RoutineEdit | OperationClass::RoutineTerminal,
        ) => if input.capabilities.guarded_auto_proven() {
            PermissionDecision::Allow
        } else {
            PermissionDecision::Unsupported
        },
        (PermissionMode::Guarded, _) => PermissionDecision::Unsupported,
        _ => PermissionDecision::Ask,
    }
}

/// A hard-blocked operation is blocked, whatever mode, grant or receipt there is.
pub proof fn hard_block_is_final(input: DecisionInput)
    requires
        input.classification.class == OperationClass::HardBlocked,
    ensures
        input.decision() == PermissionDecision::Block,
{
}

/// An operation of which nothing trustworthy is known is never allowed by itself.
pub proof fn unknown_operation_is_never_allowed(input: DecisionInput)
    requires
        input.unplaced(),
    ensures
        input.decision() != PermissionDecision::Allow,
{
}

/// A grant never takes the place of the authority that an operation requires: with or without it
/// the decision is the same.
pub proof fn grant_never_lowers_required_authority(input: DecisionInput)
    requires
        input.classification.required_authority is Some,
    ensures
        input.decision() == (DecisionInput { exact_grant: false, ..input }).decision(),
{
}

/// An operation that requires the proxy or the founder is allowed only with a verified receipt of
/// that authority.
pub proof fn high_gate_needs_a_verified_receipt(input: DecisionInput)
    requires
        input.classification.required_authority == Some(RequiredAuthority::Proxy)
            || input.classification.required_authority == Some(RequiredAuthority::Founder),
        input.decision() == PermissionDecision::Allow,
    ensures
        input.authority_receipt_verified,
{
}

/// What is explicitly denied is never allowed.
pub proof fn explicit_deny_is_never_allowed(input: DecisionInput)
    requires
        input.explicit_deny,
    ensures
        input.decision() != PermissionDecision::Allow,
{
}

/// Guarded Auto allows nothing by itself without every capability.
pub proof fn guarded_allows_only_with_every_capability(input: DecisionInput)
    requires
        input.mode == PermissionMode::Guarded,
        !input.exact_grant,
        !input.authority_receipt_verified,
        input.decision() == PermissionDecision::Allow,
    ensures
        input.capabilities.complete(),
{
}

/// Which mode allows a routine operation that nobody denied or granted: asking for nothing allows
/// every one, accepting edits allows edits, Guarded Auto allows every one with all five
/// capabilities, and the default allows none. What is not allowed is asked for, or refused under
/// Guarded Auto.
pub proof fn routine_operation_follows_its_mode(input: DecisionInput)
    requires
        input.capabilities.trusted_classification,
        input.classification.class == OperationClass::RoutineEdit || input.classification.class
            == OperationClass::RoutineTerminal,
        input.classification.required_authority is None,
        !input.explicit_deny,
        !input.exact_grant,
    ensures
        input.decision() == PermissionDecision::Allow <==> {
            ||| input.mode == PermissionMode::DontAsk
            ||| input.mode == PermissionMode::AcceptEdits && input.classification.class
                == OperationClass::RoutineEdit
            ||| input.mode == PermissionMode::Guarded && input.capabilities.policy_handshake
                && input.capabilities.guarded_auto && input.capabilities.versioned_grant_store
                && input.capabilities.revocation
        },
        input.decision() != PermissionDecision::Allow ==> input.decision() == if input.mode
            == PermissionMode::Guarded {
            PermissionDecision::Unsupported
        } else {
            PermissionDecision::Ask
        },
{
}

/// The modes grow more permissive: what the default allows, accepting edits allows; what that
/// allows, asking for nothing allows; and what that allows, Guarded Auto with every capability
/// allows.
pub proof fn modes_grow_more_permissive(input: DecisionInput)
    ensures
        ({
            let under = |mode: PermissionMode| (DecisionInput { mode, ..input }).decision();
            &&& under(PermissionMode::Default) == PermissionDecision::Allow ==> under(
                PermissionMode::AcceptEdits,
            ) == PermissionDecision::Allow
            &&& under(PermissionMode::AcceptEdits) == PermissionDecision::Allow ==> under(
                PermissionMode::DontAsk,
            ) == PermissionDecision::Allow
            &&& under(PermissionMode::DontAsk) == PermissionDecision::Allow
                && input.capabilities == (CommandEveCapabilities {
                trusted_classification: true,
                policy_handshake: true,
                guarded_auto: true,
                versioned_grant_store: true,
                revocation: true,
            }) ==> under(PermissionMode::Guarded) == PermissionDecision::Allow
        }),
{
}

/// An exact grant allows a routine operation in every mode, unless it is denied.
pub proof fn exact_grant_allows_a_routine_operation(input: DecisionInput)
    requires
        input.capabilities.trusted_classification,
        input.classification.class == OperationClass::RoutineEdit || input.classification.class
            == OperationClass::RoutineTerminal,
        input.classification.required_authority is None,
        input.exact_grant,
    ensures
        input.decision() == if input.explicit_deny {
            PermissionDecision::Block
        } else {
            PermissionDecision::Allow
        },
{
}

/// Without a grant, a denial blocks a routine operation in every mode.
pub proof fn denial_blocks_a_routine_operation(input: DecisionInput)
    requires
        input.capabilities.trusted_classification,
        input.classification.class != OperationClass::Unknown,
        input.classification.required_authority is None,
        input.explicit_deny,
    ensures
        input.decision() == PermissionDecision::Block,
{
}

/// A placed operation that requires an authority is put before that very authority, whatever the
/// mode is: its owner is asked unless it is denied; a higher authority has to show its receipt, and
/// then the operation is allowed unless it is denied.
pub proof fn required_authority_is_asked(input: DecisionInput, required: RequiredAuthority)
    requires
        input.capabilities.trusted_classification,
        input.classification.class != OperationClass::HardBlocked,
        input.classification.class != OperationClass::Unknown,
        input.classification.required_authority == Some(required),
    ensures
        required == RequiredAuthority::User && !input.explicit_deny ==> input.decision()
            == PermissionDecision::AskWithOwner(required),
        required == RequiredAuthority::User && input.explicit_deny ==> input.decision()
            == PermissionDecision::Block,
        required != RequiredAuthority::User && !input.authority_receipt_verified
            ==> input.decision() == PermissionDecision::RequireAuthority(required),
        required != RequiredAuthority::User && input.authority_receipt_verified
            && !input.explicit_deny ==> input.decision() == PermissionDecision::Allow,
        required != RequiredAuthority::User && input.authority_receipt_verified
            && input.explicit_deny ==> input.decision() == PermissionDecision::Block,
{
}

/// An operation of which nothing trustworthy is known is put before a person, its owner where it
/// requires one, and refused under Guarded Auto; no denial, grant or receipt changes that.
pub proof fn unplaced_operation_is_asked_for(input: DecisionInput)
    requires
        input.classification.class != OperationClass::HardBlocked,
        input.classification.class == OperationClass::Unknown
            || !input.capabilities.trusted_classification,
    ensures
        input.mode == PermissionMode::Guarded ==> input.decision()
            == PermissionDecision::Unsupported,
        input.mode != PermissionMode::Guarded && input.classification.required_authority is None
            ==> input.decision() == PermissionDecision::Ask,
        input.mode != PermissionMode::Guarded && input.classification.required_authority is Some
            ==> input.decision() == PermissionDecision::AskWithOwner(
            input.classification.required_authority->0,
        ),
{
}

/// A classification keeps its class. The gated classes require ever higher authorities, and every
/// other class requires none; a command that fits no class requires its owner.
pub proof fn gates_ascend(class: OperationClass)
    ensures
        TrustedClassification::of(class).class == class,
        TrustedClassification::of(class).required_authority is Some <==> (class
            == OperationClass::Sensitive || class == OperationClass::Hg35 || class
            == OperationClass::Hg4),
        ({
            let user = TrustedClassification::of(OperationClass::Sensitive).required_authority;
            let proxy = TrustedClassification::of(OperationClass::Hg35).required_authority;
            let founder = TrustedClassification::of(OperationClass::Hg4).required_authority;
            &&& user == Some(RequiredAuthority::User)
            &&& proxy == Some(RequiredAuthority::Proxy)
            &&& founder == Some(RequiredAuthority::Founder)
            &&& 0 < authority_rank(user->0) < authority_rank(proxy->0) < authority_rank(founder->0)
        }),
        TrustedClassification::unplaced().class == OperationClass::Unknown,
        TrustedClassification::unplaced().required_authority == Some(RequiredAuthority::User),
{
}

/// Guarded Auto is complete with exactly the five capabilities.
pub proof fn every_capability_counts(capabilities: CommandEveCapabilities)
    ensures
        capabilities.complete() <==> capabilities == (CommandEveCapabilities {
            trusted_classification: true,
            policy_handshake: true,
            guarded_auto: true,
            versioned_grant_store: true,
            revocation: true,
        }),
        CommandEveCapabilities::none() == (CommandEveCapabilities {
            trusted_classification: false,
            policy_handshake: false,
            guarded_auto: false,
            versioned_grant_store: false,
            revocation: false,
        }),
{
}

/// The runtime's word for a mode counts exactly where the runtime has shown its receipt in a
/// session, can run the mode, and was asked for no other one. It then puts that mode in force, with
/// the runtime's receipt and capabilities, in this session, and nothing is asked for any more. The
/// revision is the one that was asked for, stays where the mode was in force already, and is new
/// otherwise. A word that does not count changes nothing.
pub proof fn acknowledgement_puts_the_asked_mode_in_force(model: PolicyModel, mode: PermissionMode)
    requires
        model.wf(),
        model.next_revision < u64::MAX,
    ensures
        ({
            let after = model.acknowledging(mode);
            let counts = model.runtime_receipt is Some && model.session_epoch > 0 && (mode
                == PermissionMode::Guarded ==> model.capabilities.guarded_auto
                && model.capabilities.versioned_grant_store
                && model.capabilities.trusted_classification && model.capabilities.policy_handshake
                && model.capabilities.revocation) && (model.pending is Some
                ==> model.pending->0.mode == mode);
            &&& !counts ==> after == model
            &&& counts ==> {
                let snapshot = after.acknowledged->0;
                &&& after.acknowledged is Some
                &&& after.pending is None
                &&& after.active_turn == model.active_turn
                &&& snapshot.mode == mode
                &&& snapshot.session_epoch == model.session_epoch
                &&& snapshot.capabilities == model.capabilities
                &&& Some(snapshot.runtime_receipt) == model.runtime_receipt
                &&& model.pending is Some ==> snapshot.policy_revision
                    == model.pending->0.policy_revision && after.next_revision
                    == model.next_revision
                &&& model.pending is None && model.acknowledged is Some
                    && model.acknowledged->0.mode == mode ==> snapshot.policy_revision
                    == model.acknowledged->0.policy_revision && after.next_revision
                    == model.next_revision
                &&& model.pending is None && (model.acknowledged is None
                    || model.acknowledged->0.mode != mode) ==> {
                    &&& model.acknowledged is Some ==> model.acknowledged->0.policy_revision
                        < snapshot.policy_revision
                    &&& snapshot.policy_revision < after.next_revision
                }
                &&& after.session_epoch == model.session_epoch
                &&& after.capabilities == model.capabilities
                &&& after.runtime_receipt == model.runtime_receipt
            }
        }),
{
}

/// A preferred mode that the runtime confirms is in force under the revision that was given out for
/// it.
pub proof fn preferred_mode_comes_into_force(model: PolicyModel, mode: PermissionMode)
    requires
        model.wf(),
        model.next_revision < u64::MAX,
        model.runtime_receipt is Some,
        model.session_epoch > 0,
        mode != PermissionMode::Guarded,
    ensures
        ({
            let after = model.requested(mode).acknowledging(mode);
            &&& after.acknowledged is Some && after.pending is None
            &&& after.acknowledged->0.mode == mode
            &&& after.acknowledged->0.policy_revision == model.requested_revision(mode)
        }),
        ({
            let after = model.changing(mode).acknowledging(mode);
            &&& after.acknowledged is Some && after.pending is None && after.active_turn is None
            &&& after.acknowledged->0.mode == mode
            &&& after.acknowledged->0.policy_revision == model.changing(
                mode,
            ).pending->0.policy_revision
            &&& model.acknowledged is Some ==> model.acknowledged->0.policy_revision
                < after.acknowledged->0.policy_revision || model.pending is Some
        }),
{
}

/// Asking for a mode: one that is asked for already keeps its revision, a preference for the mode in
/// force withdraws whatever was asked for, and any other is asked for anew. Neither touches the
/// policy in force, and the transport's change is asked for even where the mode is in force.
pub proof fn asking_keeps_the_policy_in_force(model: PolicyModel, mode: PermissionMode)
    requires
        model.next_revision < u64::MAX,
    ensures
        ({
            let preferred = model.requested(mode);
            let changed = model.changing(mode);
            let asked = model.pending is Some && model.pending->0.mode == mode;
            let in_force = model.acknowledged is Some && model.acknowledged->0.mode == mode;
            &&& preferred.acknowledged == model.acknowledged
            &&& changed.acknowledged == model.acknowledged
            &&& preferred.session_epoch == model.session_epoch
            &&& changed.session_epoch == model.session_epoch
            &&& preferred.capabilities == model.capabilities
            &&& preferred.runtime_receipt == model.runtime_receipt
            &&& asked ==> preferred == model && changed == model
            &&& !asked ==> changed.pending is Some && changed.pending->0.mode == mode
                && changed.pending->0.policy_revision == model.next_revision
                && changed.active_turn is None && changed.next_revision == model.next_revision + 1
            &&& !asked && in_force ==> preferred.pending is None && preferred.active_turn
                == model.active_turn && preferred.next_revision == model.next_revision
            &&& !asked && !in_force ==> preferred == changed
        }),
{
}

/// A turn begins exactly where a policy is in force and none is asked for, and it holds that policy;
/// a refused turn changes nothing.
pub proof fn turn_begins_under_the_policy_in_force(model: PolicyModel)
    requires
        model.wf(),
    ensures
        model.turn_policy() is Ok <==> model.pending is None && model.acknowledged is Some,
        model.turn_policy() is Ok ==> model.in_turn().active_turn == model.acknowledged,
        model.turn_policy() is Err ==> model.in_turn() == model,
        model.pending is Some ==> model.turn_policy() == Err::<SnapshotModel, PolicyGateError>(
            PolicyGateError::PolicyPending,
        ),
        model.pending is None && model.acknowledged is None ==> model.turn_policy() == Err::<
            SnapshotModel,
            PolicyGateError,
        >(PolicyGateError::UnacknowledgedPolicy),
        model.in_turn().acknowledged == model.acknowledged,
        model.in_turn().pending == model.pending,
        model.in_turn().next_revision == model.next_revision,
        model.in_turn().session_epoch == model.session_epoch,
{
}

/// An operation is decided under the policy of its turn exactly while that very policy, by revision
/// and session, is in force and no other one is asked for.
pub proof fn operation_needs_the_policy_of_its_turn(model: PolicyModel)
    ensures
        model.operation_policy() is Ok <==> {
            &&& model.pending is None
            &&& model.acknowledged is Some
            &&& model.active_turn is Some
            &&& model.acknowledged->0.policy_revision == model.active_turn->0.policy_revision
            &&& model.acknowledged->0.session_epoch == model.active_turn->0.session_epoch
        },
        model.operation_policy() is Ok ==> model.operation_policy()->Ok_0 == model.active_turn->0,
        model.pending is None && model.acknowledged is Some && model.active_turn is None
            ==> model.operation_policy() == Err::<SnapshotModel, PolicyGateError>(
            PolicyGateError::MissingTurnLease,
        ),
        model.pending is None && model.acknowledged is Some && model.active_turn is Some
            && model.operation_policy() is Err ==> model.operation_policy() == Err::<
            SnapshotModel,
            PolicyGateError,
        >(PolicyGateError::StaleTurnPolicy),
        model.routable() == if model.pending is None {
            model.acknowledged
        } else {
            None
        },
{
}

/// A valid receipt gives the runtime its capabilities and leaves every policy; an invalid one takes
/// away the capabilities and every policy. A new session counts one further, takes away every
/// policy and keeps what the runtime can do. Revoking takes away every policy and nothing else.
pub proof fn receipts_and_sessions_leave_the_rest(model: PolicyModel, receipt: ReceiptModel)
    ensures
        receipt.valid_for("hermes"@) ==> model.greeted(receipt) == (PolicyModel {
            capabilities: receipt.capabilities,
            runtime_receipt: Some(receipt),
            ..model
        }),
        !receipt.valid_for("hermes"@) ==> {
            let after = model.greeted(receipt);
            &&& after.capabilities == CommandEveCapabilities::none()
            &&& after.runtime_receipt is None
            &&& after.pending is None && after.acknowledged is None && after.active_turn is None
            &&& after.session_epoch == model.session_epoch
            &&& after.next_revision == model.next_revision
        },
        ({
            let after = model.in_new_session();
            &&& after.session_epoch > model.session_epoch || model.session_epoch == u64::MAX
            &&& after.session_epoch <= model.session_epoch + 1
            &&& after.pending is None && after.acknowledged is None && after.active_turn is None
            &&& after.next_revision == model.next_revision
            &&& after.capabilities == model.capabilities
            &&& after.runtime_receipt == model.runtime_receipt
        }),
        ({
            let after = model.revoked();
            &&& after.pending is None && after.acknowledged is None && after.active_turn is None
            &&& after.next_revision == model.next_revision
            &&& after.session_epoch == model.session_epoch
            &&& after.capabilities == model.capabilities
            &&& after.runtime_receipt == model.runtime_receipt
        }),
{
}

/// What a receipt has to say to be believed: that it is of this runtime and its protocol, for the
/// backend, of an executable and an instance, with the three capabilities without which no policy is
/// trusted, and that nothing in it was altered since it was sealed.
pub proof fn receipt_says_who_the_runtime_is(receipt: ReceiptModel, backend: Seq<char>)
    ensures
        receipt.valid_for(backend) ==> {
            &&& receipt.protocol_version == 1
            &&& receipt.runtime_name == "aioncore"@
            &&& receipt.runtime_version == "0.1.0"@
            &&& receipt.backend_identity == backend
            &&& receipt.executable_sha256.len() == 64
            &&& receipt.instance_nonce.len() > 0
            &&& receipt.capabilities.trusted_classification
            &&& receipt.capabilities.policy_handshake
            &&& receipt.capabilities.revocation
            &&& receipt.receipt_digest == receipt.expected_digest()
        },
        forall|i: int|
            receipt.valid_for(backend) && 0 <= i < 64 ==> {
                ||| '0' <= #[trigger] receipt.executable_sha256[i] <= '9'
                ||| 'a' <= receipt.executable_sha256[i] <= 'f'
                ||| 'A' <= receipt.executable_sha256[i] <= 'F'
            },
        receipt.valid_for(backend) ==> !(ReceiptModel {
            receipt_digest: receipt.receipt_digest.push('0'),
            ..receipt
        }).valid_for(backend),
{
    assert(receipt.receipt_digest.push('0').len() != receipt.receipt_digest.len());
    let altered = ReceiptModel { receipt_digest: receipt.receipt_digest.push('0'), ..receipt };
    assert(altered.payload_entries() =~= receipt.payload_entries());
    assert(altered.expected_digest() == receipt.expected_digest());
}

/// Which names stand for which mode, and that no other name stands for any.
pub proof fn names_of_the_modes(name: Seq<char>)
    ensures
        mode_of(name) == Some(PermissionMode::Default) <==> (name == "default"@ || name == "ask"@
            || name == "fragen"@),
        mode_of(name) == Some(PermissionMode::AcceptEdits) <==> (name == "accept_edits"@ || name
            == "accept-edits"@ || name == "auto_edits"@ || name == "auto-edits"@),
        mode_of(name) == Some(PermissionMode::DontAsk) <==> (name == "dont_ask"@ || name
            == "dont-ask"@ || name == "auto"@),
        mode_of(name) == Some(PermissionMode::Guarded) <==> (name == "guarded"@ || name
            == "guarded_auto"@ || name == "guarded-auto"@ || name == "dont_ask_hg4"@),
{
    reveal_strlit("default");
    reveal_strlit("ask");
    reveal_strlit("fragen");
    reveal_strlit("accept_edits");
    reveal_strlit("accept-edits");
    reveal_strlit("auto_edits");
    reveal_strlit("auto-edits");
    reveal_strlit("dont_ask");
    reveal_strlit("dont-ask");
    reveal_strlit("auto");
    reveal_strlit("guarded");
    reveal_strlit("guarded_auto");
    reveal_strlit("guarded-auto");
    reveal_strlit("dont_ask_hg4");
    assert("default"@.len() == 7 && "default"@[0] == 'd');
    assert("ask"@.len() == 3 && "ask"@[0] == 'a');
    assert("fragen"@.len() == 6 && "fragen"@[0] == 'f');
    assert("accept_edits"@.len() == 12 && "accept_edits"@[0] == 'a');
    assert("accept-edits"@.len() == 12 && "accept-edits"@[0] == 'a');
    assert("auto_edits"@.len() == 10 && "auto_edits"@[0] == 'a');
    assert("auto-edits"@.len() == 10 && "auto-edits"@[0] == 'a');
    assert("dont_ask"@.len() == 8 && "dont_ask"@[0] == 'd');
    assert("dont-ask"@.len() == 8 && "dont-ask"@[0] == 'd');
    assert("auto"@.len() == 4 && "auto"@[0] == 'a');
    assert("guarded"@.len() == 7 && "guarded"@[0] == 'g');
    assert("guarded_auto"@.len() == 12 && "guarded_auto"@[0] == 'g');
    assert("guarded-auto"@.len() == 12 && "guarded-auto"@[0] == 'g');
    assert("dont_ask_hg4"@.len() == 12 && "dont_ask_hg4"@[0] == 'd');
}

/// A receipt is that of this runtime exactly where it says so in every field and carries the digest
/// of what it says.
pub proof fn receipt_is_valid_for_its_backend(receipt: ReceiptModel, backend: Seq<char>)
    ensures
        receipt.valid_for(backend) <==> {
            &&& receipt.protocol_version == 1
            &&& receipt.runtime_name == "aioncore"@
            &&& receipt.runtime_version == "0.1.0"@
            &&& receipt.backend_identity == backend
            &&& receipt.executable_sha256.len() == 64
            &&& forall|i: int|
                0 <= i < 64 ==> {
                    ||| '0' <= #[trigger] receipt.executable_sha256[i]
                        && receipt.executable_sha256[i] <= '9'
                    ||| 'a' <= receipt.executable_sha256[i] && receipt.executable_sha256[i] <= 'f'
                    ||| 'A' <= receipt.executable_sha256[i] && receipt.executable_sha256[i] <= 'F'
                }
            &&& receipt.instance_nonce.len() > 0
            &&& receipt.capabilities.trusted_classification
            &&& receipt.capabilities.policy_handshake
            &&& receipt.capabilities.revocation
            &&& receipt.receipt_digest == json_digest(receipt.payload())
        },
{
    if receipt.valid_for(backend) {
        assert forall|i: int| 0 <= i < 64 implies {
            ||| '0' <= #[trigger] receipt.executable_sha256[i] && receipt.executable_sha256[i] <= '9'
            ||| 'a' <= receipt.executable_sha256[i] && receipt.executable_sha256[i] <= 'f'
            ||| 'A' <= receipt.executable_sha256[i] && receipt.executable_sha256[i] <= 'F'
        } by {
            assert(is_hex(receipt.executable_sha256[i]));
        }
    }
}

/// The digest of a receipt covers every field of it but the digest, each under its name.
pub proof fn receipt_digest_covers_every_field(receipt: ReceiptModel)
    ensures
        ({
            let payload = receipt.payload();
            let can = payload.field("capabilities"@)->0;
            &&& receipt.expected_digest() == json_digest(payload)
            &&& payload.field("protocol_version"@) == Some(
                Json::Number(decimal(receipt.protocol_version as nat)),
            )
            &&& payload.field_text("runtime_name"@) == Some(receipt.runtime_name)
            &&& payload.field_text("runtime_version"@) == Some(receipt.runtime_version)
            &&& payload.field_text("source_commit"@) == receipt.source_commit
            &&& payload.field_text("executable_sha256"@) == Some(receipt.executable_sha256)
            &&& payload.field_text("backend_identity"@) == Some(receipt.backend_identity)
            &&& payload.field_text("instance_nonce"@) == Some(receipt.instance_nonce)
            &&& payload.field("capabilities"@) is Some
            &&& can.field("trusted_classification"@) == Some(
                Json::Bool(receipt.capabilities.trusted_classification),
            )
            &&& can.field("policy_handshake"@) == Some(
                Json::Bool(receipt.capabilities.policy_handshake),
            )
            &&& can.field("guarded_auto"@) == Some(Json::Bool(receipt.capabilities.guarded_auto))
            &&& can.field("versioned_grant_store"@) == Some(
                Json::Bool(receipt.capabilities.versioned_grant_store),
            )
            &&& can.field("revocation"@) == Some(Json::Bool(receipt.capabilities.revocation))
        }),
{
    let entries = receipt.payload_entries();
    let inner = receipt.capability_entries();
    lemma_payload_names();
    assert(entries[0].0 == "protocol_version"@ && entries[1].0 == "runtime_name"@ && entries[2].0
        == "runtime_version"@ && entries[3].0 == "source_commit"@ && entries[4].0
        == "executable_sha256"@ && entries[5].0 == "backend_identity"@ && entries[6].0
        == "instance_nonce"@ && entries[7].0 == "capabilities"@);
    canonical_form_keeps_every_field(entries, "protocol_version"@, 0);
    canonical_form_keeps_every_field(entries, "runtime_name"@, 1);
    canonical_form_keeps_every_field(entries, "runtime_version"@, 2);
    canonical_form_keeps_every_field(entries, "source_commit"@, 3);
    canonical_form_keeps_every_field(entries, "executable_sha256"@, 4);
    canonical_form_keeps_every_field(entries, "backend_identity"@, 5);
    canonical_form_keeps_every_field(entries, "instance_nonce"@, 6);
    canonical_form_keeps_every_field(entries, "capabilities"@, 7);
    assert(inner[0].0 == "trusted_classification"@ && inner[1].0 == "policy_handshake"@
        && inner[2].0 == "guarded_auto"@ && inner[3].0 == "versioned_grant_store"@ && inner[4].0
        == "revocation"@);
    canonical_form_keeps_every_field(inner, "trusted_classification"@, 0);
    canonical_form_keeps_every_field(inner, "policy_handshake"@, 1);
    canonical_form_keeps_every_field(inner, "guarded_auto"@, 2);
    canonical_form_keeps_every_field(inner, "versioned_grant_store"@, 3);
    canonical_form_keeps_every_field(inner, "revocation"@, 4);
}

proof fn lemma_payload_names()
    ensures
        "protocol_version"@.len() == 16,
        "runtime_name"@.len() == 12,
        "runtime_version"@.len() == 15,
        "source_commit"@.len() == 13,
        "executable_sha256"@.len() == 17,
        "backend_identity"@.len() == 16 && "backend_identity"@[0] == 'b',
        "protocol_version"@[0] == 'p',
        "instance_nonce"@.len() == 14,
        "capabilities"@.len() == 12 && "capabilities"@[0] == 'c',
        "runtime_name"@[0] == 'r',
        "trusted_classification"@.len() == 22,
        "policy_handshake"@.len() == 16,
        "guarded_auto"@.len() == 12,
        "versioned_grant_store"@.len() == 21,
        "revocation"@.len() == 10,
{
    reveal_strlit("protocol_version");
    reveal_strlit("runtime_name");
    reveal_strlit("runtime_version");
    reveal_strlit("source_commit");
    reveal_strlit("executable_sha256");
    reveal_strlit("backend_identity");
    reveal_strlit("instance_nonce");
    reveal_strlit("capabilities");
    reveal_strlit("trusted_classification");
    reveal_strlit("policy_handshake");
    reveal_strlit("guarded_auto");
    reveal_strlit("versioned_grant_store");
    reveal_strlit("revocation");
    assert("protocol_version"@[0] == 'p' && "backend_identity"@[0] == 'b');
    assert("capabilities"@[0] == 'c' && "runtime_name"@[0] == 'r');
}

/// The receipt of the running process is valid for its backend where its executable has a digest
/// and the process a nonce. It says what the process is made of, and that it does not run guarded.
pub proof fn process_shows_a_valid_receipt(
    backend_identity: Seq<char>,
    executable_sha256: Seq<char>,
    source_commit: Option<Seq<char>>,
    instance_nonce: Seq<char>,
)
    requires
        is_digest_text(executable_sha256),
        instance_nonce.len() > 0,
    ensures
        ({
            let receipt = current_process_receipt(
                backend_identity,
                executable_sha256,
                source_commit,
                instance_nonce,
            );
            &&& receipt.valid_for(backend_identity)
            &&& receipt.executable_sha256 == executable_sha256
            &&& receipt.source_commit == source_commit
            &&& receipt.instance_nonce == instance_nonce
            &&& !receipt.capabilities.guarded_auto
            &&& !receipt.capabilities.versioned_grant_store
            &&& !receipt.capabilities.complete()
        }),
{
}

/// Why a turn or an operation has no policy is told in these words.
pub proof fn refusals_have_their_texts(error: PolicyGateError)
    ensures
        error is UnsupportedPermissionMode ==> error.text()
            == "Command EVE permission mode is unsupported"@,
        error is PolicyPending ==> error.text()
            == "Command EVE permission policy is pending runtime acknowledgement"@,
        error is UnacknowledgedPolicy ==> error.text()
            == "Command EVE permission policy is not acknowledged by the runtime"@,
        error is GuardedAutoUnavailable ==> error.text()
            == "Guarded Auto is unavailable without the complete runtime capability proof"@,
        error is MissingTurnLease ==> error.text()
            == "Command EVE turn has no acknowledged policy lease"@,
        error is StaleTurnPolicy ==> error.text() == "Command EVE turn policy is stale"@,
        error is UnsafeTransportMode ==> error.text()
            == "Command EVE Hermes transport is not pinned to default"@,
{
}

} // verus!
