//! The card by which a permission request is shown, and the authority metadata that it carries.
use vstd::prelude::*;

use crate::json::{
    clone_json, entry_value, find_entry, json_entries, json_view, lemma_entry_value, optional_text,
    optional_text_value, push_entry, set_entry, set_entry_is_read_back, with_entry, Json,
    JsonValue,
};
use crate::permission_authority::{clone_text, is_digest, is_digest_text};
use crate::text::{
    chars_of, decimal, decimal_string, decimal_text_reads_back, number_of, parse_number, same_text,
    text_view,
};

verus! {

/// Where a request's metadata holds that of its authority.
pub const COMMAND_EVE_AUTHORITY_META_KEY: &'static str = "command_eve_authority";

/// What a shown tool call does.
#[derive(Debug, Clone, Copy, PartialEq, Eq, Structural)]
pub enum AcpToolCallKind {
    Read,
    Edit,
    Execute,
}

/// The name of what a tool call does.
pub open spec fn kind_name(kind: AcpToolCallKind) -> Seq<char> {
    match kind {
        AcpToolCallKind::Read => "read"@,
        AcpToolCallKind::Edit => "edit"@,
        AcpToolCallKind::Execute => "execute"@,
    }
}

/// How far an answer reaches.
#[derive(Debug, Clone, Copy, PartialEq, Eq, Structural)]
pub enum AcpPermissionOptionKind {
    AllowOnce,
    AllowAlways,
    RejectOnce,
    RejectAlways,
}

/// A tool call that needs permission. How it stands, what it returned, and the content and the places
/// that it shows are carried along as JSON.
#[derive(Debug)]
pub struct AcpPermissionToolCall {
    pub tool_call_id: String,
    pub status: Option<JsonValue>,
    pub title: Option<String>,
    pub kind: Option<AcpToolCallKind>,
    pub raw_input: Option<JsonValue>,
    pub raw_output: Option<JsonValue>,
    pub content: Option<Vec<JsonValue>>,
    pub locations: Option<Vec<JsonValue>>,
    pub meta: Option<Vec<(String, JsonValue)>>,
}

/// One of the answers that are shown.
#[derive(Debug)]
pub struct AcpPermissionOptionData {
    pub option_id: String,
    pub name: String,
    pub kind: AcpPermissionOptionKind,
    pub meta: Option<Vec<(String, JsonValue)>>,
}

/// A permission request as it is shown.
#[derive(Debug)]
pub struct AcpPermissionRequestData {
    pub session_id: String,
    pub tool_call: AcpPermissionToolCall,
    pub options: Vec<AcpPermissionOptionData>,
    pub meta: Option<Vec<(String, JsonValue)>>,
}

/// What is told of a permission: the request itself, or how its card stands.
#[derive(Debug)]
pub enum AcpPermissionEventData {
    Request(AcpPermissionRequestData),
    Confirmation(Confirmation),
}

/// The authority under which an operation is confirmed.
#[derive(Debug, PartialEq, Eq)]
pub struct ConfirmationAuthorityMetadata {
    pub protocol_version: u32,
    pub operation_id: String,
    pub operation_digest: String,
    pub confirmation_version: u64,
    pub policy_revision: u64,
    pub session_epoch: u64,
    pub created_at_ms: u64,
    pub expires_at_ms: u64,
    pub lifecycle: String,
    pub classification: String,
    pub required_authority: Option<String>,
    pub runtime_receipt_digest: String,
}

/// The authority of an operation, as text.
pub struct MetadataModel {
    pub protocol_version: u32,
    pub operation_id: Seq<char>,
    pub operation_digest: Seq<char>,
    pub confirmation_version: u64,
    pub policy_revision: u64,
    pub session_epoch: u64,
    pub created_at_ms: u64,
    pub expires_at_ms: u64,
    pub lifecycle: Seq<char>,
    pub classification: Seq<char>,
    pub required_authority: Option<Seq<char>>,
    pub runtime_receipt_digest: Seq<char>,
}

impl View for ConfirmationAuthorityMetadata {
    type V = MetadataModel;

    open spec fn view(&self) -> MetadataModel {
        MetadataModel {
            protocol_version: self.protocol_version,
            operation_id: self.operation_id@,
            operation_digest: self.operation_digest@,
            confirmation_version: self.confirmation_version,
            policy_revision: self.policy_revision,
            session_epoch: self.session_epoch,
            created_at_ms: self.created_at_ms,
            expires_at_ms: self.expires_at_ms,
            lifecycle: self.lifecycle@,
            classification: self.classification@,
            required_authority: text_view(self.required_authority),
            runtime_receipt_digest: self.runtime_receipt_digest@,
        }
    }
}

impl Clone for ConfirmationAuthorityMetadata {
    fn clone(&self) -> (r: Self)
        ensures
            r@ == self@,
    {
        ConfirmationAuthorityMetadata {
            protocol_version: self.protocol_version,
            operation_id: self.operation_id.clone(),
            operation_digest: self.operation_digest.clone(),
            confirmation_version: self.confirmation_version,
            policy_revision: self.policy_revision,
            session_epoch: self.session_epoch,
            created_at_ms: self.created_at_ms,
            expires_at_ms: self.expires_at_ms,
            lifecycle: self.lifecycle.clone(),
            classification: self.classification.clone(),
            required_authority: clone_text(&self.required_authority),
            runtime_receipt_digest: self.runtime_receipt_digest.clone(),
        }
    }
}

/// What an optional piece of metadata says.
pub open spec fn metadata_view(metadata: Option<ConfirmationAuthorityMetadata>) -> Option<
    MetadataModel,
> {
    match metadata {
        Some(metadata) => Some(metadata@),
        None => None,
    }
}

impl MetadataModel {
    /// Whether the named authority is the one that the named class requires.
    pub open spec fn authority_fits_class(self) -> bool {
        ||| self.required_authority is None && (self.classification == "routine_edit"@
            || self.classification == "routine_terminal"@ || self.classification
            == "hard_blocked"@ || self.classification == "unknown"@)
        ||| self.required_authority == Some("user"@) && self.classification == "sensitive"@
        ||| self.required_authority == Some("proxy"@) && self.classification == "hg35"@
        ||| self.required_authority == Some("founder"@) && self.classification == "hg4"@
    }

    /// Whether a name is that of a card's state.
    pub open spec fn names_a_lifecycle(name: Seq<char>) -> bool {
        ||| name == "pending"@
        ||| name == "allowed"@
        ||| name == "denied"@
        ||| name == "expired"@
        ||| name == "cancelled"@
        ||| name == "superseded"@
    }

    /// Whether the metadata can be believed of a call.
    pub open spec fn valid_for(self, call_id: Seq<char>) -> bool {
        &&& self.protocol_version == 1
        &&& self.operation_id == call_id
        &&& is_digest_text(self.operation_digest)
        &&& self.confirmation_version > 0
        &&& self.policy_revision > 0
        &&& self.session_epoch > 0
        &&& self.created_at_ms <= self.expires_at_ms
        &&& MetadataModel::names_a_lifecycle(self.lifecycle)
        &&& self.authority_fits_class()
        &&& is_digest_text(self.runtime_receipt_digest)
    }

    /// The metadata as a JSON object.
    pub open spec fn entries(self) -> Seq<(Seq<char>, Json)> {
        seq![
            ("protocol_version"@, Json::Number(decimal(self.protocol_version as nat))),
            ("operation_id"@, Json::Text(self.operation_id)),
            ("operation_digest"@, Json::Text(self.operation_digest)),
            ("confirmation_version"@, Json::Number(decimal(self.confirmation_version as nat))),
            ("policy_revision"@, Json::Number(decimal(self.policy_revision as nat))),
            ("session_epoch"@, Json::Number(decimal(self.session_epoch as nat))),
            ("created_at_ms"@, Json::Number(decimal(self.created_at_ms as nat))),
            ("expires_at_ms"@, Json::Number(decimal(self.expires_at_ms as nat))),
            ("lifecycle"@, Json::Text(self.lifecycle)),
            ("classification"@, Json::Text(self.classification)),
            ("required_authority"@, optional_text(self.required_authority)),
            ("runtime_receipt_digest"@, Json::Text(self.runtime_receipt_digest)),
        ]
    }
}

/// The number in a field, where it is not larger than `max`.
pub open spec fn field_number(value: Json, key: Seq<char>, max: u64) -> Option<u64> {
    match value.field(key) {
        Some(Json::Number(text)) => number_of(text, max),
        _ => None,
    }
}

/// The metadata that a JSON value holds. Every field but the required authority has to be there,
/// and of the right type.
pub open spec fn metadata_in(value: Json) -> Option<MetadataModel> {
    match (
        field_number(value, "protocol_version"@, u32::MAX as u64),
        value.field_text("operation_id"@),
        value.field_text("operation_digest"@),
        field_number(value, "confirmation_version"@, u64::MAX),
        field_number(value, "policy_revision"@, u64::MAX),
        field_number(value, "session_epoch"@, u64::MAX),
        field_number(value, "created_at_ms"@, u64::MAX),
        field_number(value, "expires_at_ms"@, u64::MAX),
        value.field_text("lifecycle"@),
        value.field_text("classification"@),
        authority_field(value),
        value.field_text("runtime_receipt_digest"@),
    ) {
        (
            Some(protocol_version),
            Some(operation_id),
            Some(operation_digest),
            Some(confirmation_version),
            Some(policy_revision),
            Some(session_epoch),
            Some(created_at_ms),
            Some(expires_at_ms),
            Some(lifecycle),
            Some(classification),
            Some(required_authority),
            Some(runtime_receipt_digest),
        ) => Some(
            MetadataModel {
                protocol_version: protocol_version as u32,
                operation_id,
                operation_digest,
                confirmation_version,
                policy_revision,
                session_epoch,
                created_at_ms,
                expires_at_ms,
                lifecycle,
                classification,
                required_authority,
                runtime_receipt_digest,
            },
        ),
        _ => None,
    }
}

/// The required authority in a JSON value: none where the field is missing or null.
pub open spec fn authority_field(value: Json) -> Option<Option<Seq<char>>> {
    match value.field("required_authority"@) {
        None => Some(None),
        Some(Json::Null) => Some(None),
        Some(Json::Text(text)) => Some(Some(text)),
        Some(_) => None,
    }
}

fn read_number(value: &JsonValue, key: &str, max: u64) -> (r: Option<u64>)
    ensures
        r == field_number(value@, key@, max),
{
    match value.get(key) {
        Some(JsonValue::Number(text)) => {
            let chars = chars_of(text.as_str());
            parse_number(chars.as_slice(), max)
        },
        _ => None,
    }
}

fn read_text(value: &JsonValue, key: &str) -> (r: Option<String>)
    ensures
        text_view(r) == value@.field_text(key@),
{
    match value.get_str(key) {
        Some(text) => Some(text.to_owned()),
        None => None,
    }
}

fn read_authority(value: &JsonValue) -> (r: Option<Option<String>>)
    ensures
        match r {
            Some(authority) => authority_field(value@) == Some(text_view(authority)),
            None => authority_field(value@) is None,
        },
{
    match value.get("required_authority") {
        None => Some(None),
        Some(JsonValue::Null) => Some(None),
        Some(JsonValue::Text(text)) => Some(Some(text.clone())),
        Some(_) => None,
    }
}

/// Reads the metadata that a JSON value holds.
pub fn read_metadata(value: &JsonValue) -> (r: Option<ConfirmationAuthorityMetadata>)
    ensures
        metadata_view(r) == metadata_in(value@),
{
    match (
        read_number(value, "protocol_version", u32::MAX as u64),
        read_text(value, "operation_id"),
        read_text(value, "operation_digest"),
        read_number(value, "confirmation_version", u64::MAX),
        read_number(value, "policy_revision", u64::MAX),
        read_number(value, "session_epoch", u64::MAX),
        read_number(value, "created_at_ms", u64::MAX),
        read_number(value, "expires_at_ms", u64::MAX),
        read_text(value, "lifecycle"),
        read_text(value, "classification"),
        read_authority(value),
        read_text(value, "runtime_receipt_digest"),
    ) {
        (
            Some(protocol_version),
            Some(operation_id),
            Some(operation_digest),
            Some(confirmation_version),
            Some(policy_revision),
            Some(session_epoch),
            Some(created_at_ms),
            Some(expires_at_ms),
            Some(lifecycle),
            Some(classification),
            Some(required_authority),
            Some(runtime_receipt_digest),
        ) => Some(
            ConfirmationAuthorityMetadata {
                protocol_version: protocol_version as u32,
                operation_id,
                operation_digest,
                confirmation_version,
                policy_revision,
                session_epoch,
                created_at_ms,
                expires_at_ms,
                lifecycle,
                classification,
                required_authority,
                runtime_receipt_digest,
            },
        ),
        _ => None,
    }
}

fn number_value(n: u64) -> (r: JsonValue)
    ensures
        r@ == Json::Number(decimal(n as nat)),
{
    JsonValue::Number(decimal_string(n))
}

/// Writes metadata as a JSON object.
pub fn write_metadata(metadata: &ConfirmationAuthorityMetadata) -> (r: JsonValue)
    ensures
        r@ == Json::Object(metadata@.entries()),
{
    let mut out: Vec<(String, JsonValue)> = Vec::new();
    push_entry(&mut out, "protocol_version", number_value(metadata.protocol_version as u64));
    push_entry(&mut out, "operation_id", JsonValue::Text(metadata.operation_id.clone()));
    push_entry(&mut out, "operation_digest", JsonValue::Text(metadata.operation_digest.clone()));
    push_entry(&mut out, "confirmation_version", number_value(metadata.confirmation_version));
    push_entry(&mut out, "policy_revision", number_value(metadata.policy_revision));
    push_entry(&mut out, "session_epoch", number_value(metadata.session_epoch));
    push_entry(&mut out, "created_at_ms", number_value(metadata.created_at_ms));
    push_entry(&mut out, "expires_at_ms", number_value(metadata.expires_at_ms));
    push_entry(&mut out, "lifecycle", JsonValue::Text(metadata.lifecycle.clone()));
    push_entry(&mut out, "classification", JsonValue::Text(metadata.classification.clone()));
    push_entry(&mut out, "required_authority", optional_text_value(&metadata.required_authority));
    push_entry(
        &mut out,
        "runtime_receipt_digest",
        JsonValue::Text(metadata.runtime_receipt_digest.clone()),
    );
    assert(json_entries(out@) =~= metadata@.entries());
    JsonValue::Object(out)
}

/// Metadata that is written as JSON is read back as it was.
pub proof fn metadata_is_read_back(metadata: MetadataModel)
    ensures
        metadata_in(Json::Object(metadata.entries())) == Some(metadata),
{
    reveal_strlit("protocol_version");
    reveal_strlit("operation_id");
    reveal_strlit("operation_digest");
    reveal_strlit("confirmation_version");
    reveal_strlit("policy_revision");
    reveal_strlit("session_epoch");
    reveal_strlit("created_at_ms");
    reveal_strlit("expires_at_ms");
    reveal_strlit("lifecycle");
    reveal_strlit("classification");
    reveal_strlit("required_authority");
    reveal_strlit("runtime_receipt_digest");
    let entries = metadata.entries();
    assert("protocol_version"@.len() == 16 && "protocol_version"@[0] == 'p');
    assert("operation_id"@.len() == 12);
    assert("operation_digest"@.len() == 16 && "operation_digest"@[0] == 'o');
    assert("confirmation_version"@.len() == 20);
    assert("policy_revision"@.len() == 15);
    assert("session_epoch"@.len() == 13 && "session_epoch"@[0] == 's');
    assert("created_at_ms"@.len() == 13 && "created_at_ms"@[0] == 'c');
    assert("expires_at_ms"@.len() == 13 && "expires_at_ms"@[0] == 'e');
    assert("lifecycle"@.len() == 9);
    assert("classification"@.len() == 14);
    assert("required_authority"@.len() == 18);
    assert("runtime_receipt_digest"@.len() == 22);
    lemma_entry_value(entries, "protocol_version"@, 0);
    lemma_entry_value(entries, "operation_id"@, 1);
    lemma_entry_value(entries, "operation_digest"@, 2);
    lemma_entry_value(entries, "confirmation_version"@, 3);
    lemma_entry_value(entries, "policy_revision"@, 4);
    lemma_entry_value(entries, "session_epoch"@, 5);
    lemma_entry_value(entries, "created_at_ms"@, 6);
    lemma_entry_value(entries, "expires_at_ms"@, 7);
    lemma_entry_value(entries, "lifecycle"@, 8);
    lemma_entry_value(entries, "classification"@, 9);
    lemma_entry_value(entries, "required_authority"@, 10);
    lemma_entry_value(entries, "runtime_receipt_digest"@, 11);
    decimal_text_reads_back(metadata.protocol_version as nat);
    decimal_text_reads_back(metadata.confirmation_version as nat);
    decimal_text_reads_back(metadata.policy_revision as nat);
    decimal_text_reads_back(metadata.session_epoch as nat);
    decimal_text_reads_back(metadata.created_at_ms as nat);
    decimal_text_reads_back(metadata.expires_at_ms as nat);
}

fn is_valid_authority_metadata(metadata: &ConfirmationAuthorityMetadata, call_id: &str) -> (r: bool)
    ensures
        r == metadata@.valid_for(call_id@),
{
    let class = metadata.classification.as_str();
    let authority_fits_class = match &metadata.required_authority {
        None => same_text(class, "routine_edit") || same_text(class, "routine_terminal")
            || same_text(class, "hard_blocked") || same_text(class, "unknown"),
        Some(authority) => (same_text(authority.as_str(), "user") && same_text(class, "sensitive"))
            || (same_text(authority.as_str(), "proxy") && same_text(class, "hg35")) || (same_text(
            authority.as_str(),
            "founder",
        ) && same_text(class, "hg4")),
    };
    let lifecycle = metadata.lifecycle.as_str();
    metadata.protocol_version == 1 && same_text(metadata.operation_id.as_str(), call_id)
        && is_digest(metadata.operation_digest.as_str()) && metadata.confirmation_version > 0
        && metadata.policy_revision > 0 && metadata.session_epoch > 0 && metadata.created_at_ms
        <= metadata.expires_at_ms && (same_text(lifecycle, "pending") || same_text(
        lifecycle,
        "allowed",
    ) || same_text(lifecycle, "denied") || same_text(lifecycle, "expired") || same_text(
        lifecycle,
        "cancelled",
    ) || same_text(lifecycle, "superseded")) && authority_fits_class && is_digest(
        metadata.runtime_receipt_digest.as_str(),
    )
}

/// One of the answers on a card.
#[derive(Debug)]
pub struct ConfirmationOption {
    pub label: String,
    pub value: JsonValue,
    pub params: Option<JsonValue>,
}

/// An answer on a card: its label, the value that choosing it sends, and what goes with it.
pub struct CardOption {
    pub label: Seq<char>,
    pub value: Json,
    pub params: Option<Json>,
}

impl View for ConfirmationOption {
    type V = CardOption;

    open spec fn view(&self) -> CardOption {
        CardOption { label: self.label@, value: self.value@, params: json_view(self.params) }
    }
}

/// The card of a permission.
#[derive(Debug)]
pub struct Confirmation {
    pub id: String,
    pub call_id: String,
    pub title: Option<String>,
    pub action: Option<String>,
    pub description: String,
    pub command_type: Option<String>,
    pub options: Vec<ConfirmationOption>,
    pub authority: Option<ConfirmationAuthorityMetadata>,
}

/// What a card shows.
pub struct CardModel {
    pub id: Seq<char>,
    pub call_id: Seq<char>,
    pub title: Option<Seq<char>>,
    pub action: Option<Seq<char>>,
    pub description: Seq<char>,
    pub command_type: Option<Seq<char>>,
    pub options: Seq<CardOption>,
    pub authority: Option<MetadataModel>,
}

impl View for Confirmation {
    type V = CardModel;

    open spec fn view(&self) -> CardModel {
        CardModel {
            id: self.id@,
            call_id: self.call_id@,
            title: text_view(self.title),
            action: text_view(self.action),
            description: self.description@,
            command_type: text_view(self.command_type),
            options: self.options@.map_values(|option: ConfirmationOption| option@),
            authority: metadata_view(self.authority),
        }
    }
}

impl Clone for Confirmation {
    fn clone(&self) -> (r: Self)
        ensures
            r@ == self@,
    {
        let mut options: Vec<ConfirmationOption> = Vec::new();
        let mut i: usize = 0;
        while i < self.options.len()
            invariant
                i <= self.options@.len(),
                options@.len() == i,
                forall|j: int| 0 <= j < i ==> (#[trigger] options@[j])@ == self.options@[j]@,
            decreases self.options@.len() - i,
        {
            options.push(
                ConfirmationOption {
                    label: self.options[i].label.clone(),
                    value: clone_json(&self.options[i].value),
                    params: match &self.options[i].params {
                        Some(params) => Some(clone_json(params)),
                        None => None,
                    },
                },
            );
            i = i + 1;
        }
        let r = Confirmation {
            id: self.id.clone(),
            call_id: self.call_id.clone(),
            title: clone_text(&self.title),
            action: clone_text(&self.action),
            description: self.description.clone(),
            command_type: clone_text(&self.command_type),
            options,
            authority: match &self.authority {
                Some(metadata) => Some(metadata.clone()),
                None => None,
            },
        };
        assert(r@.options =~= self@.options);
        r
    }
}

/// The entries of metadata; none where there is none.
pub open spec fn meta_entries(meta: Option<Vec<(String, JsonValue)>>) -> Seq<(Seq<char>, Json)> {
    match meta {
        Some(entries) => json_entries(entries@),
        None => Seq::empty(),
    }
}

/// The value that a request's metadata holds under a key.
pub open spec fn meta_value(meta: Option<Vec<(String, JsonValue)>>, key: Seq<char>) -> Option<Json> {
    match meta {
        Some(entries) => entry_value(json_entries(entries@), key),
        None => None,
    }
}

impl AcpPermissionRequestData {
    /// What the card of the request says of it: the first there is of its description, its command,
    /// its tool and its title. Nothing else of its input is shown.
    pub open spec fn shown_description(&self) -> Seq<char> {
        let raw = json_view(self.tool_call.raw_input);
        if raw is Some && raw->0.field_text("description"@) is Some {
            raw->0.field_text("description"@)->0
        } else if raw is Some && raw->0.field_text("command"@) is Some {
            raw->0.field_text("command"@)->0
        } else if raw is Some && raw->0.field_text("tool"@) is Some {
            raw->0.field_text("tool"@)->0
        } else if self.tool_call.title is Some {
            self.tool_call.title->0@
        } else {
            "Permission required for an unverified operation"@
        }
    }

    /// The authority metadata of the request, where it can be believed.
    pub open spec fn believed_authority(&self) -> Option<MetadataModel> {
        match meta_value(self.meta, COMMAND_EVE_AUTHORITY_META_KEY@) {
            Some(value) => match metadata_in(value) {
                Some(metadata) => if metadata.valid_for(self.tool_call.tool_call_id@) {
                    Some(metadata)
                } else {
                    None
                },
                None => None,
            },
            None => None,
        }
    }

    /// The answers of the card.
    pub open spec fn card_options(&self) -> Seq<CardOption> {
        self.options@.map_values(
            |option: AcpPermissionOptionData|
                CardOption {
                    label: option.name@,
                    value: Json::Text(option.option_id@),
                    params: None,
                },
        )
    }

    /// The card of the request.
    pub open spec fn card(&self) -> CardModel {
        CardModel {
            id: self.tool_call.tool_call_id@,
            call_id: self.tool_call.tool_call_id@,
            title: text_view(self.tool_call.title),
            action: None,
            description: self.shown_description(),
            command_type: match self.tool_call.kind {
                Some(kind) => Some(kind_name(kind)),
                None => None,
            },
            options: self.card_options(),
            authority: self.believed_authority(),
        }
    }

    /// Makes the card of the request.
    pub fn to_confirmation(&self) -> (r: Confirmation)
        ensures
            r@ == self.card(),
    {
        let mut options: Vec<ConfirmationOption> = Vec::new();
        let mut i: usize = 0;
        while i < self.options.len()
            invariant
                i <= self.options@.len(),
                options@.len() == i,
                forall|j: int|
                    0 <= j < i ==> (#[trigger] options@[j])@ == (CardOption {
                        label: self.options@[j].name@,
                        value: Json::Text(self.options@[j].option_id@),
                        params: None,
                    }),
            decreases self.options@.len() - i,
        {
            options.push(
                ConfirmationOption {
                    label: self.options[i].name.clone(),
                    value: JsonValue::Text(self.options[i].option_id.clone()),
                    params: None,
                },
            );
            i = i + 1;
        }
        let r = Confirmation {
            id: self.tool_call.tool_call_id.clone(),
            call_id: self.tool_call.tool_call_id.clone(),
            title: clone_text(&self.tool_call.title),
            action: None,
            description: self.safe_confirmation_description(),
            command_type: match self.tool_call.kind {
                Some(AcpToolCallKind::Read) => Some("read".to_owned()),
                Some(AcpToolCallKind::Edit) => Some("edit".to_owned()),
                Some(AcpToolCallKind::Execute) => Some("execute".to_owned()),
                None => None,
            },
            options,
            authority: self.validated_authority_metadata(),
        };
        assert(r@.options =~= self.card().options);
        r
    }

    fn validated_authority_metadata(&self) -> (r: Option<ConfirmationAuthorityMetadata>)
        ensures
            metadata_view(r) == self.believed_authority(),
    {
        match &self.meta {
            Some(entries) => match find_entry(entries, COMMAND_EVE_AUTHORITY_META_KEY) {
                Some(value) => match read_metadata(value) {
                    Some(metadata) => if is_valid_authority_metadata(
                        &metadata,
                        self.tool_call.tool_call_id.as_str(),
                    ) {
                        Some(metadata)
                    } else {
                        None
                    },
                    None => None,
                },
                None => None,
            },
            None => None,
        }
    }

    fn safe_confirmation_description(&self) -> (r: String)
        ensures
            r@ == self.shown_description(),
    {
        if let Some(raw) = &self.tool_call.raw_input {
            if let Some(text) = raw.get_str("description") {
                return text.to_owned();
            }
            if let Some(text) = raw.get_str("command") {
                return text.to_owned();
            }
            if let Some(text) = raw.get_str("tool") {
                return text.to_owned();
            }
        }
        match &self.tool_call.title {
            Some(title) => title.clone(),
            None => "Permission required for an unverified operation".to_owned(),
        }
    }
}

impl AcpPermissionEventData {
    /// The card that an event leads to.
    pub open spec fn event_card(&self) -> CardModel {
        match self {
            AcpPermissionEventData::Confirmation(confirmation) => confirmation@,
            AcpPermissionEventData::Request(request) => request.card(),
        }
    }

    pub fn as_confirmation(&self) -> (r: Option<Confirmation>)
        ensures
            r matches Some(card) && card@ == self.event_card(),
    {
        match self {
            AcpPermissionEventData::Confirmation(confirmation) => Some(confirmation.clone()),
            AcpPermissionEventData::Request(request) => Some(request.to_confirmation()),
        }
    }
}

/// Puts authority metadata into the metadata of a request. A card is left as it is.
pub fn attach_confirmation_authority_metadata(
    event: &mut AcpPermissionEventData,
    metadata: &ConfirmationAuthorityMetadata,
)
    ensures
        match (*old(event), *final(event)) {
            (
                AcpPermissionEventData::Request(before),
                AcpPermissionEventData::Request(after),
            ) => {
                &&& after.session_id == before.session_id
                &&& after.tool_call == before.tool_call
                &&& after.options == before.options
                &&& after.meta is Some
                &&& json_entries(after.meta->0@) == with_entry(
                    meta_entries(before.meta),
                    COMMAND_EVE_AUTHORITY_META_KEY@,
                    Json::Object(metadata@.entries()),
                )
                &&& meta_value(after.meta, COMMAND_EVE_AUTHORITY_META_KEY@) == Some(
                    Json::Object(metadata@.entries()),
                )
                &&& after.believed_authority() == if metadata@.valid_for(
                    before.tool_call.tool_call_id@,
                ) {
                    Some(metadata@)
                } else {
                    None
                }
            },
            (AcpPermissionEventData::Confirmation(before), after) => after == *old(event),
            _ => false,
        },
{
    match event {
        AcpPermissionEventData::Request(request) => {
            let mut entries = match request.meta.take() {
                Some(entries) => entries,
                None => Vec::new(),
            };
            let ghost before = json_entries(entries@);
            set_entry(&mut entries, COMMAND_EVE_AUTHORITY_META_KEY, write_metadata(metadata));
            proof {
                set_entry_is_read_back(
                    before,
                    COMMAND_EVE_AUTHORITY_META_KEY@,
                    Json::Object(metadata@.entries()),
                );
                metadata_is_read_back(metadata@);
            }
            request.meta = Some(entries);
        },
        AcpPermissionEventData::Confirmation(_) => {},
    }
}

/// What is said of the authority of a card is believed exactly where it is of the known version,
/// about this very call, bound to digests, revisions and an epoch, in force for a time, in a known
/// state, and asks for the authority that its class needs.
pub proof fn believed_authority_is_bound(metadata: MetadataModel, call_id: Seq<char>)
    ensures
        metadata.valid_for(call_id) <==> {
            &&& metadata.protocol_version == 1
            &&& metadata.operation_id == call_id
            &&& is_digest_text(metadata.operation_digest)
            &&& is_digest_text(metadata.runtime_receipt_digest)
            &&& metadata.confirmation_version >= 1
            &&& metadata.policy_revision >= 1
            &&& metadata.session_epoch >= 1
            &&& !(metadata.expires_at_ms < metadata.created_at_ms)
            &&& ["pending"@, "allowed"@, "denied"@, "expired"@, "cancelled"@,
                "superseded"@]@.contains(metadata.lifecycle)
            &&& match metadata.required_authority {
                None => ["routine_edit"@, "routine_terminal"@, "hard_blocked"@,
                    "unknown"@]@.contains(metadata.classification),
                Some(authority) => {
                    ||| authority == "user"@ && metadata.classification == "sensitive"@
                    ||| authority == "proxy"@ && metadata.classification == "hg35"@
                    ||| authority == "founder"@ && metadata.classification == "hg4"@
                },
            }
        },
{
    let states = ["pending"@, "allowed"@, "denied"@, "expired"@, "cancelled"@, "superseded"@]@;
    assert(states[0] == "pending"@ && states[1] == "allowed"@ && states[2] == "denied"@ && states[3]
        == "expired"@ && states[4] == "cancelled"@ && states[5] == "superseded"@);
    let classes = ["routine_edit"@, "routine_terminal"@, "hard_blocked"@, "unknown"@]@;
    assert(classes[0] == "routine_edit"@ && classes[1] == "routine_terminal"@ && classes[2]
        == "hard_blocked"@ && classes[3] == "unknown"@);
}

/// What is said of the authority of a card is read by the names of its fields. All have to be there
/// but the required authority.
pub proof fn authority_is_read_by_name(value: Json)
    ensures
        metadata_in(value) matches Some(metadata) ==> {
            &&& value.field_text("operation_id"@) == Some(metadata.operation_id)
            &&& value.field_text("operation_digest"@) == Some(metadata.operation_digest)
            &&& value.field_text("lifecycle"@) == Some(metadata.lifecycle)
            &&& value.field_text("classification"@) == Some(metadata.classification)
            &&& value.field_text("runtime_receipt_digest"@) == Some(
                metadata.runtime_receipt_digest,
            )
            &&& value.field_text("required_authority"@) == metadata.required_authority
            &&& field_number(value, "protocol_version"@, 4_294_967_295) == Some(
                metadata.protocol_version as u64,
            )
            &&& field_number(value, "confirmation_version"@, u64::MAX) == Some(
                metadata.confirmation_version,
            )
            &&& field_number(value, "policy_revision"@, u64::MAX) == Some(metadata.policy_revision)
            &&& field_number(value, "session_epoch"@, u64::MAX) == Some(metadata.session_epoch)
            &&& field_number(value, "created_at_ms"@, u64::MAX) == Some(metadata.created_at_ms)
            &&& field_number(value, "expires_at_ms"@, u64::MAX) == Some(metadata.expires_at_ms)
        },
{
}

/// A card shows the call that it is about: its id and title, the name of its kind, the answers in
/// their order under their own ids, and the authority that is believed of it.
pub proof fn card_shows_its_call(request: AcpPermissionRequestData, i: int)
    requires
        0 <= i < request.options@.len(),
    ensures
        ({
            let card = request.card();
            let call = request.tool_call;
            &&& card.id == call.tool_call_id@ && card.call_id == call.tool_call_id@
            &&& card.title == text_view(call.title)
            &&& card.action is None
            &&& call.kind is None <==> card.command_type is None
            &&& call.kind == Some(AcpToolCallKind::Read) ==> card.command_type == Some("read"@)
            &&& call.kind == Some(AcpToolCallKind::Edit) ==> card.command_type == Some("edit"@)
            &&& call.kind == Some(AcpToolCallKind::Execute) ==> card.command_type == Some(
                "execute"@,
            )
            &&& card.options.len() == request.options@.len()
            &&& card.options[i].label == request.options@[i].name@
            &&& card.options[i].value == Json::Text(request.options@[i].option_id@)
            &&& card.options[i].params is None
        }),
{
}

/// A card describes its call by the description that came with it, else by its command, else by its
/// tool, else by its title, and says where there is nothing of these that it is not verified.
pub proof fn card_describes_its_call(request: AcpPermissionRequestData)
    ensures
        ({
            let shown = request.card().description;
            let text = |name: Seq<char>|
                match json_view(request.tool_call.raw_input) {
                    Some(raw) => raw.field_text(name),
                    None => None,
                };
            let title = text_view(request.tool_call.title);
            &&& text("description"@) is Some ==> Some(shown) == text("description"@)
            &&& text("description"@) is None && text("command"@) is Some ==> Some(shown) == text(
                "command"@,
            )
            &&& text("description"@) is None && text("command"@) is None && text("tool"@) is Some
                ==> Some(shown) == text("tool"@)
            &&& text("description"@) is None && text("command"@) is None && text("tool"@) is None
                && title is Some ==> Some(shown) == title
            &&& text("description"@) is None && text("command"@) is None && text("tool"@) is None
                && title is None ==> shown == "Permission required for an unverified operation"@
        }),
{
}

/// A card carries an authority exactly where what came with its request is valid for this very
/// call, and then just that.
pub proof fn card_carries_what_is_believed(request: AcpPermissionRequestData)
    ensures
        ({
            let said = meta_value(request.meta, "command_eve_authority"@);
            let read = metadata_in(said->0);
            let believed = request.card().authority;
            &&& believed is Some <==> said is Some && read is Some && read->0.valid_for(
                request.tool_call.tool_call_id@,
            )
            &&& believed is Some ==> believed == read
        }),
{
}

/// An event that holds a card shows that card, and one that holds a request shows the card of it.
pub proof fn event_shows_its_card(event: AcpPermissionEventData)
    ensures
        event is Confirmation ==> event.event_card() == event->Confirmation_0@,
        event is Request ==> event.event_card() == event->Request_0.card(),
{
}

} // verus!
