//! What a permission request asks for: the meaning of its answers, the digest by which it is known
//! again, and the team servers that it may name.
use vstd::prelude::*;

use crate::json::{
    canonical, canonical_form_keeps_every_field, canonical_form_keeps_every_item, canonical_items,
    canonicalize_json, clone_entries, clone_json, entries_view, json_entries, json_items,
    optional_text, optional_text_value, push_entry, Json, JsonValue,
};
use crate::permission_authority::{digest_json, json_digest};
use crate::permission_event::{
    AcpPermissionOptionData, AcpPermissionOptionKind, AcpPermissionRequestData,
};
use crate::permission_request::{
    options_view, OptionModel, PermissionOption, PermissionOptionKind, PermissionRequestModel,
    RequestPermissionRequest, ToolKind,
};
use crate::text::{
    chars_are, chars_of, contains, contains_text, find_from, is_text_before,
    lemma_text_before_total, lemma_text_before_transitive, lower_all, lower_chars, occurs_at,
    same_text, split_once, split_parts_give_the_text_back, split_text_once, string_of,
    strip_prefix, strip_text_prefix, stripped_prefix_can_be_put_back, text_before, text_view,
};

verus! {

pub const TEAM_MCP_SERVER_NAME: &'static str = "aionui-team";

pub const TEAM_GUIDE_MCP_SERVER_NAME: &'static str = "aionui-team-guide";

pub const HERMES_BACKEND: &'static str = "hermes";

/// How long, in milliseconds, a request to edit waits for an answer.
pub const HERMES_EDIT_PERMISSION_TTL_MS: u64 = 60_000;

/// How long, in milliseconds, any other request waits for an answer.
pub const HERMES_COMMAND_PERMISSION_TTL_MS: u64 = 300_000;

/// What an answer means under Command EVE.
#[derive(Debug, Clone, Copy, PartialEq, Eq, Structural)]
pub enum OptionDisposition {
    AllowOnce,
    ExactSession,
    RejectOnce,
    UnsupportedPermanent,
}

/// Whether an answer speaks of the session only.
pub open spec fn is_session_scoped(option_id: Seq<char>, name: Seq<char>) -> bool {
    let id = lower_all(option_id);
    let name = lower_all(name);
    ||| id == "allow_session"@
    ||| contains(id, "for-session"@)
    ||| contains(id, "for_session"@)
    ||| contains(name, "for session"@)
    ||| contains(name, "this session"@)
}

/// What an answer means.
pub open spec fn disposition(option: OptionModel) -> OptionDisposition {
    match option.kind {
        PermissionOptionKind::AllowOnce => OptionDisposition::AllowOnce,
        PermissionOptionKind::RejectOnce => OptionDisposition::RejectOnce,
        PermissionOptionKind::AllowAlways => if is_session_scoped(option.option_id, option.name) {
            OptionDisposition::ExactSession
        } else {
            OptionDisposition::UnsupportedPermanent
        },
        PermissionOptionKind::RejectAlways => OptionDisposition::UnsupportedPermanent,
    }
}

fn is_session_scoped_option(option_id: &str, name: &str) -> (r: bool)
    ensures
        r == is_session_scoped(option_id@, name@),
{
    let id_chars = chars_of(option_id);
    let id = lower_chars(id_chars.as_slice());
    let name_chars = chars_of(name);
    let name = lower_chars(name_chars.as_slice());
    chars_are(id.as_slice(), "allow_session") || contains_text(id.as_slice(), "for-session")
        || contains_text(id.as_slice(), "for_session") || contains_text(
        name.as_slice(),
        "for session",
    ) || contains_text(name.as_slice(), "this session")
}

/// What an answer means under Command EVE.
pub fn command_eve_option_disposition(option: &PermissionOption) -> (r: OptionDisposition)
    ensures
        r == disposition(option@),
{
    match option.kind {
        PermissionOptionKind::AllowOnce => OptionDisposition::AllowOnce,
        PermissionOptionKind::RejectOnce => OptionDisposition::RejectOnce,
        PermissionOptionKind::AllowAlways => if is_session_scoped_option(
            option.option_id.as_str(),
            option.name.as_str(),
        ) {
            OptionDisposition::ExactSession
        } else {
            OptionDisposition::UnsupportedPermanent
        },
        PermissionOptionKind::RejectAlways => OptionDisposition::UnsupportedPermanent,
    }
}

/// An answer that is shown, as text.
pub struct ShownOption {
    pub option_id: Seq<char>,
    pub name: Seq<char>,
    pub kind: AcpPermissionOptionKind,
    pub meta: Option<Seq<(Seq<char>, Json)>>,
}

/// What a shown answer holds.
pub open spec fn shown(option: AcpPermissionOptionData) -> ShownOption {
    ShownOption {
        option_id: option.option_id@,
        name: option.name@,
        kind: option.kind,
        meta: entries_view(option.meta),
    }
}

/// What a list of shown answers holds.
pub open spec fn shown_all(options: Seq<AcpPermissionOptionData>) -> Seq<ShownOption> {
    options.map_values(|option: AcpPermissionOptionData| shown(option))
}

/// What becomes of a shown answer. A single allowance is shown unless the operation needs a higher
/// authority (`gated`); an allowance for the session is shown, under a name that says what it
/// covers, where it is available; what is permanent is not shown.
pub open spec fn contained(option: ShownOption, exact_session_available: bool, gated: bool) -> Option<
    ShownOption,
> {
    match option.kind {
        AcpPermissionOptionKind::AllowOnce => if gated {
            None
        } else {
            Some(option)
        },
        AcpPermissionOptionKind::RejectOnce => Some(option),
        AcpPermissionOptionKind::AllowAlways => if exact_session_available && !gated
            && is_session_scoped(option.option_id, option.name) {
            Some(ShownOption { name: "Allow this exact request for this session"@, ..option })
        } else {
            None
        },
        AcpPermissionOptionKind::RejectAlways => None,
    }
}

/// What becomes of a list of shown answers.
pub open spec fn contained_all(
    options: Seq<ShownOption>,
    exact_session_available: bool,
    gated: bool,
) -> Seq<ShownOption>
    decreases options.len(),
{
    if options.len() == 0 {
        Seq::empty()
    } else {
        let front = contained_all(options.drop_last(), exact_session_available, gated);
        match contained(options.last(), exact_session_available, gated) {
            Some(option) => front.push(option),
            None => front,
        }
    }
}

/// Takes away the answers of a request that Command EVE does not offer.
pub fn contain_command_eve_options(
    request: &mut AcpPermissionRequestData,
    exact_session_available: bool,
    gated: bool,
)
    ensures
        shown_all(final(request).options@) == contained_all(
            shown_all(old(request).options@),
            exact_session_available,
            gated,
        ),
        final(request).session_id == old(request).session_id,
        final(request).tool_call == old(request).tool_call,
        final(request).meta == old(request).meta,
{
    let ghost held = shown_all(request.options@);
    let mut out: Vec<AcpPermissionOptionData> = Vec::new();
    let mut i: usize = 0;
    proof {
        assert(held.subrange(0, 0) =~= Seq::<ShownOption>::empty());
        assert(shown_all(out@) =~= Seq::<ShownOption>::empty());
    }
    while i < request.options.len()
        invariant
            i <= request.options@.len(),
            *request == *old(request),
            held == shown_all(request.options@),
            shown_all(out@) == contained_all(
                held.subrange(0, i as int),
                exact_session_available,
                gated,
            ),
        decreases request.options@.len() - i,
    {
        let ghost upto = held.subrange(0, i + 1);
        let ghost before = out@;
        proof {
            assert(upto.drop_last() =~= held.subrange(0, i as int));
            assert(upto.last() == shown(request.options@[i as int]));
        }
        let option = &request.options[i];
        let keep_as_is = match option.kind {
            AcpPermissionOptionKind::AllowOnce => !gated,
            AcpPermissionOptionKind::RejectOnce => true,
            _ => false,
        };
        if keep_as_is {
            out.push(
                AcpPermissionOptionData {
                    option_id: option.option_id.clone(),
                    name: option.name.clone(),
                    kind: option.kind,
                    meta: clone_entries(&option.meta),
                },
            );
            proof {
                assert(shown_all(out@) =~= shown_all(before).push(upto.last()));
            }
        } else if option.kind == AcpPermissionOptionKind::AllowAlways && exact_session_available
            && !gated && is_session_scoped_option(option.option_id.as_str(), option.name.as_str()) {
            out.push(
                AcpPermissionOptionData {
                    option_id: option.option_id.clone(),
                    name: "Allow this exact request for this session".to_owned(),
                    kind: option.kind,
                    meta: clone_entries(&option.meta),
                },
            );
            proof {
                assert(shown_all(out@) =~= shown_all(before).push(
                    contained(upto.last(), exact_session_available, gated)->0,
                ));
            }
        }
        i = i + 1;
    }
    proof {
        assert(held.subrange(0, held.len() as int) =~= held);
    }
    request.options = out;
}

/// How long a request waits for an answer.
pub fn permission_ttl_ms(request: &RequestPermissionRequest) -> (r: u64)
    ensures
        r == ttl_of(request@.kind),
{
    match request.tool_call.kind {
        Some(ToolKind::Edit) => HERMES_EDIT_PERMISSION_TTL_MS,
        _ => HERMES_COMMAND_PERMISSION_TTL_MS,
    }
}

/// How long a request for a kind of tool waits for an answer.
pub open spec fn ttl_of(kind: Option<ToolKind>) -> u64 {
    if kind == Some(ToolKind::Edit) {
        HERMES_EDIT_PERMISSION_TTL_MS
    } else {
        HERMES_COMMAND_PERMISSION_TTL_MS
    }
}

/// The name of a tool kind.
pub open spec fn tool_kind_name(kind: ToolKind) -> Seq<char> {
    match kind {
        ToolKind::Read => "read"@,
        ToolKind::Edit => "edit"@,
        ToolKind::Delete => "delete"@,
        ToolKind::Move => "move"@,
        ToolKind::Search => "search"@,
        ToolKind::Execute => "execute"@,
        ToolKind::Think => "think"@,
        ToolKind::Fetch => "fetch"@,
        ToolKind::SwitchMode => "switch_mode"@,
        ToolKind::Other => "other"@,
    }
}

fn tool_kind_str(kind: ToolKind) -> (r: &'static str)
    ensures
        r@ == tool_kind_name(kind),
{
    match kind {
        ToolKind::Read => "read",
        ToolKind::Edit => "edit",
        ToolKind::Delete => "delete",
        ToolKind::Move => "move",
        ToolKind::Search => "search",
        ToolKind::Execute => "execute",
        ToolKind::Think => "think",
        ToolKind::Fetch => "fetch",
        ToolKind::SwitchMode => "switch_mode",
        ToolKind::Other => "other",
    }
}

/// The name of an answer's kind.
pub open spec fn option_kind_name(kind: PermissionOptionKind) -> Seq<char> {
    match kind {
        PermissionOptionKind::AllowOnce => "allow_once"@,
        PermissionOptionKind::AllowAlways => "allow_always"@,
        PermissionOptionKind::RejectOnce => "reject_once"@,
        PermissionOptionKind::RejectAlways => "reject_always"@,
    }
}

fn option_kind_str(kind: PermissionOptionKind) -> (r: &'static str)
    ensures
        r@ == option_kind_name(kind),
{
    match kind {
        PermissionOptionKind::AllowOnce => "allow_once",
        PermissionOptionKind::AllowAlways => "allow_always",
        PermissionOptionKind::RejectOnce => "reject_once",
        PermissionOptionKind::RejectAlways => "reject_always",
    }
}

/// Answers in the order of their ids, with one more behind those of the same id.
pub open spec fn with_option(options: Seq<OptionModel>, option: OptionModel) -> Seq<OptionModel>
    decreases options.len(),
{
    if options.len() == 0 || text_before(option.option_id, options[0].option_id) {
        seq![option] + options
    } else {
        seq![options[0]] + with_option(options.drop_first(), option)
    }
}

/// Answers in the order of their ids, those of the same id as they came.
pub open spec fn options_by_id(options: Seq<OptionModel>) -> Seq<OptionModel>
    decreases options.len(),
{
    if options.len() == 0 {
        Seq::empty()
    } else {
        with_option(options_by_id(options.drop_last()), options.last())
    }
}

/// What the digest of an operation covers of an answer.
pub open spec fn option_json(option: OptionModel) -> Json {
    Json::Object(
        seq![
            ("option_id"@, Json::Text(option.option_id)),
            ("kind"@, Json::Text(option_kind_name(option.kind))),
        ],
    )
}

/// What the digest of an operation covers, by name.
pub open spec fn operation_entries(
    workspace: Seq<char>,
    backend: Seq<char>,
    mode: Seq<char>,
    request: PermissionRequestModel,
) -> Seq<(Seq<char>, Json)> {
    seq![
        ("version"@, Json::Number("1"@)),
        ("backend"@, Json::Text(backend)),
        ("session_id"@, Json::Text(request.session_id)),
        ("workspace"@, Json::Text(workspace)),
        ("mode"@, Json::Text(mode)),
        (
            "tool_kind"@,
            optional_text(
                match request.kind {
                    Some(kind) => Some(tool_kind_name(kind)),
                    None => None,
                },
            ),
        ),
        ("title"@, optional_text(request.title)),
        (
            "raw_input"@,
            match request.raw_input {
                Some(raw) => raw,
                None => Json::Null,
            },
        ),
        (
            "options"@,
            Json::Array(
                options_by_id(request.options).map_values(|option: OptionModel| option_json(option)),
            ),
        ),
    ]
}

/// The digest of an operation. It covers everything that the request transmits but the id of the
/// call.
pub open spec fn operation_digest_of(
    workspace: Seq<char>,
    backend: Seq<char>,
    mode: Seq<char>,
    request: PermissionRequestModel,
) -> Seq<char> {
    json_digest(canonical(Json::Object(operation_entries(workspace, backend, mode, request))))
}

/// The digest of an operation does not depend on the id of the call.
pub proof fn operation_digest_ignores_the_call_id(
    workspace: Seq<char>,
    backend: Seq<char>,
    mode: Seq<char>,
    request: PermissionRequestModel,
    call_id: Seq<char>,
)
    ensures
        operation_digest_of(workspace, backend, mode, request) == operation_digest_of(
            workspace,
            backend,
            mode,
            (PermissionRequestModel { call_id, ..request }),
        ),
{
}

proof fn lemma_with_option_at(options: Seq<OptionModel>, option: OptionModel, at: int)
    requires
        0 <= at <= options.len(),
        forall|i: int|
            0 <= i < at ==> !text_before(option.option_id, (#[trigger] options[i]).option_id),
        at < options.len() ==> text_before(option.option_id, options[at].option_id),
    ensures
        with_option(options, option) == options.insert(at, option),
    decreases at,
{
    if at == 0 {
        assert(seq![option] + options =~= options.insert(0, option));
    } else {
        let rest = options.drop_first();
        assert(!text_before(option.option_id, options[0].option_id));
        assert forall|i: int| 0 <= i < at - 1 implies !text_before(
            option.option_id,
            (#[trigger] rest[i]).option_id,
        ) by {
            assert(rest[i] == options[i + 1]);
        }
        lemma_with_option_at(rest, option, at - 1);
        assert(seq![options[0]] + rest.insert(at - 1, option) =~= options.insert(at, option));
    }
}

fn sort_options(options: &Vec<PermissionOption>) -> (r: Vec<PermissionOption>)
    ensures
        options_view(r@) == options_by_id(options_view(options@)),
{
    let ghost held = options_view(options@);
    let mut out: Vec<PermissionOption> = Vec::new();
    let mut i: usize = 0;
    proof {
        assert(held.subrange(0, 0) =~= Seq::<OptionModel>::empty());
        assert(options_view(out@) =~= Seq::<OptionModel>::empty());
    }
    while i < options.len()
        invariant
            i <= options@.len(),
            held == options_view(options@),
            options_view(out@) == options_by_id(held.subrange(0, i as int)),
        decreases options@.len() - i,
    {
        let ghost upto = held.subrange(0, i + 1);
        let ghost before = options_view(out@);
        let option = options[i].clone();
        let mut at: usize = 0;
        while at < out.len() && !is_text_before(
            option.option_id.as_str(),
            out[at].option_id.as_str(),
        )
            invariant
                at <= out@.len(),
                before == options_view(out@),
                forall|j: int|
                    0 <= j < at ==> !text_before(
                        option@.option_id,
                        (#[trigger] before[j]).option_id,
                    ),
            decreases out@.len() - at,
        {
            assert(before[at as int] == out@[at as int]@);
            at = at + 1;
        }
        proof {
            if at < out@.len() {
                assert(before[at as int] == out@[at as int]@);
            }
            lemma_with_option_at(before, option@, at as int);
            assert(upto.drop_last() =~= held.subrange(0, i as int));
            assert(upto.last() == option@);
        }
        let ghost chosen = option@;
        out.insert(at, option);
        proof {
            assert(options_view(out@) =~= before.insert(at as int, chosen));
        }
        i = i + 1;
    }
    proof {
        assert(held.subrange(0, held.len() as int) =~= held);
    }
    out
}

fn option_value(option: &PermissionOption) -> (r: JsonValue)
    ensures
        r@ == option_json(option@),
{
    let mut entries: Vec<(String, JsonValue)> = Vec::new();
    push_entry(&mut entries, "option_id", JsonValue::Text(option.option_id.clone()));
    push_entry(&mut entries, "kind", JsonValue::Text(option_kind_str(option.kind).to_owned()));
    assert(json_entries(entries@) =~= seq![
        ("option_id"@, Json::Text(option@.option_id)),
        ("kind"@, Json::Text(option_kind_name(option@.kind))),
    ]);
    JsonValue::Object(entries)
}

fn options_value(options: &Vec<PermissionOption>) -> (r: JsonValue)
    ensures
        r@ == Json::Array(
            options_view(options@).map_values(|option: OptionModel| option_json(option)),
        ),
{
    let ghost held = options_view(options@).map_values(|option: OptionModel| option_json(option));
    let mut items: Vec<JsonValue> = Vec::new();
    let mut i: usize = 0;
    assert(held.subrange(0, 0) =~= Seq::<Json>::empty());
    while i < options.len()
        invariant
            i <= options@.len(),
            held == options_view(options@).map_values(|option: OptionModel| option_json(option)),
            json_items(items@) == held.subrange(0, i as int),
        decreases options@.len() - i,
    {
        let ghost before = items@;
        items.push(option_value(&options[i]));
        proof {
            assert(items@.drop_last() =~= before);
            assert(held[i as int] == option_json(options@[i as int]@));
            assert(held.subrange(0, i + 1) =~= held.subrange(0, i as int).push(held[i as int]));
        }
        i = i + 1;
    }
    assert(held.subrange(0, held.len() as int) =~= held);
    JsonValue::Array(items)
}

/// The digest of an operation in a workspace, whose path has no links in it.
pub fn operation_digest(
    workspace: &str,
    backend: &str,
    mode: &str,
    request: &RequestPermissionRequest,
) -> (r: String)
    ensures
        r@ == operation_digest_of(workspace@, backend@, mode@, request@),
{
    let options = sort_options(&request.options);
    let mut payload: Vec<(String, JsonValue)> = Vec::new();
    push_entry(&mut payload, "version", JsonValue::Number("1".to_owned()));
    push_entry(&mut payload, "backend", JsonValue::Text(backend.to_owned()));
    push_entry(&mut payload, "session_id", JsonValue::Text(request.session_id.clone()));
    push_entry(&mut payload, "workspace", JsonValue::Text(workspace.to_owned()));
    push_entry(&mut payload, "mode", JsonValue::Text(mode.to_owned()));
    let kind = match request.tool_call.kind {
        Some(kind) => Some(tool_kind_str(kind).to_owned()),
        None => None,
    };
    push_entry(&mut payload, "tool_kind", optional_text_value(&kind));
    push_entry(&mut payload, "title", optional_text_value(&request.tool_call.title));
    let raw_input = match &request.tool_call.raw_input {
        Some(raw) => clone_json(raw),
        None => JsonValue::Null,
    };
    push_entry(&mut payload, "raw_input", raw_input);
    push_entry(&mut payload, "options", options_value(&options));
    assert(json_entries(payload@) =~= operation_entries(workspace@, backend@, mode@, request@));
    let value = canonicalize_json(&JsonValue::Object(payload));
    digest_json(&value)
}

/// The server that a title of the form `mcp__server__tool` names.
pub open spec fn server_in_title(title: Seq<char>) -> Option<Seq<char>> {
    match strip_prefix(title, "mcp__"@) {
        Some(rest) => match split_once(rest, "__"@) {
            Some((server, tool)) => if server.len() == 0 || tool.len() == 0 {
                None
            } else {
                Some(server)
            },
            None => None,
        },
        None => None,
    }
}

/// The server that the input of a request names.
pub open spec fn server_in_input(raw_input: Option<Json>) -> Option<Seq<char>> {
    match raw_input {
        Some(raw) => match raw.field_text("server_name"@) {
            Some(name) => if name.len() > 0 {
                Some(name)
            } else {
                None
            },
            None => None,
        },
        None => None,
    }
}

/// The server that a request names: in its input, else in its title.
pub open spec fn requested_server(request: PermissionRequestModel) -> Option<Seq<char>> {
    match server_in_input(request.raw_input) {
        Some(server) => Some(server),
        None => match request.title {
            Some(title) => server_in_title(title),
            None => None,
        },
    }
}

/// Whether a request is for a server of the team.
pub open spec fn is_team_request(request: PermissionRequestModel) -> bool {
    match requested_server(request) {
        Some(server) => server == TEAM_MCP_SERVER_NAME@ || server == TEAM_GUIDE_MCP_SERVER_NAME@,
        None => false,
    }
}

/// The id of the first answer of a kind.
pub open spec fn first_of_kind(options: Seq<OptionModel>, kind: PermissionOptionKind) -> Option<
    Seq<char>,
>
    decreases options.len(),
{
    if options.len() == 0 {
        None
    } else if options[0].kind == kind {
        Some(options[0].option_id)
    } else {
        first_of_kind(options.drop_first(), kind)
    }
}

pub fn find_option(options: &Vec<PermissionOption>, kind: PermissionOptionKind) -> (r: Option<String>)
    ensures
        text_view(r) == first_of_kind(options_view(options@), kind),
{
    let ghost held = options_view(options@);
    let mut i: usize = 0;
    assert(held.subrange(0, held.len() as int) =~= held);
    while i < options.len()
        invariant
            i <= options@.len(),
            held == options_view(options@),
            first_of_kind(held, kind) == first_of_kind(
                held.subrange(i as int, held.len() as int),
                kind,
            ),
        decreases options@.len() - i,
    {
        let ghost rest = held.subrange(i as int, held.len() as int);
        assert(rest[0] == options@[i as int]@);
        if options[i].kind == kind {
            return Some(options[i].option_id.clone());
        }
        assert(rest.drop_first() =~= held.subrange(i + 1, held.len() as int));
        i = i + 1;
    }
    None
}

/// The server that a request names.
pub fn extract_mcp_server_name(request: &RequestPermissionRequest) -> (r: Option<String>)
    ensures
        text_view(r) == requested_server(request@),
{
    if let Some(raw) = &request.tool_call.raw_input {
        if let Some(name) = raw.get_str("server_name") {
            if !name.is_empty() {
                return Some(name.to_owned());
            }
        }
    }
    match &request.tool_call.title {
        Some(title) => {
            let chars = chars_of(title.as_str());
            match strip_text_prefix(chars.as_slice(), "mcp__") {
                Some(rest) => match split_text_once(rest.as_slice(), "__") {
                    Some((server, tool)) => if server.len() == 0 || tool.len() == 0 {
                        None
                    } else {
                        Some(string_of(server.as_slice()))
                    },
                    None => None,
                },
                None => None,
            }
        },
        None => None,
    }
}

fn names_team_server(request: &RequestPermissionRequest) -> (r: bool)
    ensures
        r == is_team_request(request@),
{
    match extract_mcp_server_name(request) {
        Some(server) => same_text(server.as_str(), TEAM_MCP_SERVER_NAME) || same_text(
            server.as_str(),
            TEAM_GUIDE_MCP_SERVER_NAME,
        ),
        None => false,
    }
}

/// The answer by which a request for a team server is allowed without asking: the widest allowance
/// that it offers.
pub open spec fn auto_approval(request: PermissionRequestModel) -> Option<Seq<char>> {
    if is_team_request(request) {
        match first_of_kind(request.options, PermissionOptionKind::AllowAlways) {
            Some(option_id) => Some(option_id),
            None => first_of_kind(request.options, PermissionOptionKind::AllowOnce),
        }
    } else {
        None
    }
}

/// The same under Command EVE: never more than a single allowance.
pub open spec fn command_eve_auto_approval(request: PermissionRequestModel) -> Option<Seq<char>> {
    if is_team_request(request) {
        first_of_kind(request.options, PermissionOptionKind::AllowOnce)
    } else {
        None
    }
}

/// The answer by which a request for a team server is allowed without asking.
pub fn auto_approve_option_id(request: &RequestPermissionRequest) -> (r: Option<String>)
    ensures
        text_view(r) == auto_approval(request@),
{
    if !names_team_server(request) {
        return None;
    }
    match find_option(&request.options, PermissionOptionKind::AllowAlways) {
        Some(option_id) => Some(option_id),
        None => find_option(&request.options, PermissionOptionKind::AllowOnce),
    }
}

/// The same under Command EVE.
pub fn command_eve_team_auto_approve_option_id(request: &RequestPermissionRequest) -> (r: Option<
    String,
>)
    ensures
        text_view(r) == command_eve_auto_approval(request@),
{
    if !names_team_server(request) {
        return None;
    }
    find_option(&request.options, PermissionOptionKind::AllowOnce)
}

/// Under Command EVE an automatic approval is always a single allowance.
pub proof fn command_eve_never_approves_more_than_once(request: PermissionRequestModel)
    requires
        command_eve_auto_approval(request) is Some,
    ensures
        exists|i: int|
            0 <= i < request.options.len() && (#[trigger] request.options[i]).option_id
                == command_eve_auto_approval(request)->0 && request.options[i].kind
                == PermissionOptionKind::AllowOnce,
{
    lemma_first_of_kind(request.options, PermissionOptionKind::AllowOnce);
}

proof fn lemma_first_of_kind(options: Seq<OptionModel>, kind: PermissionOptionKind)
    requires
        first_of_kind(options, kind) is Some,
    ensures
        exists|i: int|
            0 <= i < options.len() && (#[trigger] options[i]).option_id == first_of_kind(
                options,
                kind,
            )->0 && options[i].kind == kind,
    decreases options.len(),
{
    if options.len() > 0 {
        if options[0].kind == kind {
        } else {
            let rest = options.drop_first();
            lemma_first_of_kind(rest, kind);
            let i = choose|i: int|
                0 <= i < rest.len() && (#[trigger] rest[i]).option_id == first_of_kind(
                    rest,
                    kind,
                )->0 && rest[i].kind == kind;
            assert(options[i + 1] == rest[i]);
        }
    }
}

/// What the digest of an operation is of: a JSON object that holds, each in a field of its own, the
/// backend, the session, the workspace, the mode, the kind and the title of the tool, its whole
/// input in canonical form, and the answers that the request offers with their kinds.
pub proof fn operation_digest_covers_the_request(
    workspace: Seq<char>,
    backend: Seq<char>,
    mode: Seq<char>,
    request: PermissionRequestModel,
)
    ensures
        ({
            let document = canonical(
                Json::Object(operation_entries(workspace, backend, mode, request)),
            );
            let offered = document.field("options"@)->0->Array_0;
            &&& operation_digest_of(workspace, backend, mode, request) == json_digest(document)
            &&& document.field("version"@) == Some(Json::Number("1"@))
            &&& document.field_text("backend"@) == Some(backend)
            &&& document.field_text("session_id"@) == Some(request.session_id)
            &&& document.field_text("workspace"@) == Some(workspace)
            &&& document.field_text("mode"@) == Some(mode)
            &&& document.field_text("title"@) == request.title
            &&& request.kind is Some ==> document.field_text("tool_kind"@) == Some(
                tool_kind_name(request.kind->0),
            )
            &&& request.kind is None ==> document.field("tool_kind"@) == Some(Json::Null)
            &&& request.raw_input is Some ==> document.field("raw_input"@) == Some(
                canonical(request.raw_input->0),
            )
            &&& document.field("options"@) is Some && document.field("options"@)->0 is Array
            &&& offered.len() == options_by_id(request.options).len()
            &&& forall|i: int|
                0 <= i < offered.len() ==> (#[trigger] offered[i]).field_text("option_id"@) == Some(
                    options_by_id(request.options)[i].option_id,
                ) && offered[i].field_text("kind"@) == Some(
                    option_kind_name(options_by_id(request.options)[i].kind),
                )
        }),
{
    let entries = operation_entries(workspace, backend, mode, request);
    reveal_strlit("version");
    reveal_strlit("backend");
    reveal_strlit("session_id");
    reveal_strlit("workspace");
    reveal_strlit("mode");
    reveal_strlit("tool_kind");
    reveal_strlit("title");
    reveal_strlit("raw_input");
    reveal_strlit("options");
    reveal_strlit("option_id");
    reveal_strlit("kind");
    assert("version"@.len() == 7 && "version"@[0] == 'v' && "version"@[1] == 'e');
    assert("backend"@.len() == 7 && "backend"@[0] == 'b' && "backend"@[1] == 'a');
    assert("session_id"@.len() == 10 && "session_id"@[0] == 's' && "session_id"@[1] == 'e');
    assert("workspace"@.len() == 9 && "workspace"@[0] == 'w' && "workspace"@[1] == 'o');
    assert("mode"@.len() == 4 && "mode"@[0] == 'm' && "mode"@[1] == 'o');
    assert("tool_kind"@.len() == 9 && "tool_kind"@[0] == 't' && "tool_kind"@[1] == 'o');
    assert("title"@.len() == 5 && "title"@[0] == 't' && "title"@[1] == 'i');
    assert("raw_input"@.len() == 9 && "raw_input"@[0] == 'r' && "raw_input"@[1] == 'a');
    assert("options"@.len() == 7 && "options"@[0] == 'o' && "options"@[1] == 'p');
    canonical_form_keeps_every_field(entries, "version"@, 0);
    canonical_form_keeps_every_field(entries, "backend"@, 1);
    canonical_form_keeps_every_field(entries, "session_id"@, 2);
    canonical_form_keeps_every_field(entries, "workspace"@, 3);
    canonical_form_keeps_every_field(entries, "mode"@, 4);
    canonical_form_keeps_every_field(entries, "tool_kind"@, 5);
    canonical_form_keeps_every_field(entries, "title"@, 6);
    canonical_form_keeps_every_field(entries, "raw_input"@, 7);
    canonical_form_keeps_every_field(entries, "options"@, 8);
    let sorted = options_by_id(request.options);
    let answers = sorted.map_values(|option: OptionModel| option_json(option));
    assert(canonical(Json::Array(answers)) == Json::Array(canonical_items(answers)));
    let offered = canonical_items(answers);
    if answers.len() > 0 {
        canonical_form_keeps_every_item(answers, 0);
    }
    assert forall|i: int| 0 <= i < offered.len() implies (#[trigger] offered[i]).field_text(
        "option_id"@,
    ) == Some(sorted[i].option_id) && offered[i].field_text("kind"@) == Some(
        option_kind_name(sorted[i].kind),
    ) by {
        canonical_form_keeps_every_item(answers, i);
        let own = seq![
            ("option_id"@, Json::Text(sorted[i].option_id)),
            ("kind"@, Json::Text(option_kind_name(sorted[i].kind))),
        ];
        assert(answers[i] == Json::Object(own));
        assert("option_id"@.len() == 9 && "kind"@.len() == 4);
        canonical_form_keeps_every_field(own, "option_id"@, 0);
        canonical_form_keeps_every_field(own, "kind"@, 1);
    }
}

proof fn lemma_with_option_counts(options: Seq<OptionModel>, option: OptionModel)
    ensures
        with_option(options, option).to_multiset() =~= options.to_multiset().insert(option),
    decreases options.len(),
{
    broadcast use vstd::seq_lib::group_to_multiset_ensures;

    let after = with_option(options, option);
    if options.len() == 0 || text_before(option.option_id, options[0].option_id) {
        assert(after =~= options.insert(0, option));
    } else {
        let rest = options.drop_first();
        lemma_with_option_counts(rest, option);
        assert(after =~= with_option(rest, option).insert(0, options[0]));
        assert(options =~= rest.insert(0, options[0]));
    }
}

/// Sorting the answers of a request loses none and adds none.
pub proof fn sorted_answers_are_the_offered_ones(options: Seq<OptionModel>)
    ensures
        options_by_id(options).to_multiset() =~= options.to_multiset(),
        options_by_id(options).len() == options.len(),
    decreases options.len(),
{
    broadcast use vstd::seq_lib::group_to_multiset_ensures;

    if options.len() > 0 {
        let front = options.drop_last();
        sorted_answers_are_the_offered_ones(front);
        lemma_with_option_counts(options_by_id(front), options.last());
        assert(options =~= front.push(options.last()));
        lemma_with_option_len(options_by_id(front), options.last());
    } else {
        assert(options_by_id(options) =~= options);
    }
}

proof fn lemma_with_option_len(options: Seq<OptionModel>, option: OptionModel)
    ensures
        with_option(options, option).len() == options.len() + 1,
    decreases options.len(),
{
    if options.len() > 0 && !text_before(option.option_id, options[0].option_id) {
        lemma_with_option_len(options.drop_first(), option);
    }
}

/// The names by which a digest tells the kinds of tools and of answers apart.
pub proof fn kinds_have_their_names(kind: ToolKind, answer: PermissionOptionKind)
    ensures
        kind == ToolKind::Read ==> tool_kind_name(kind) == "read"@,
        kind == ToolKind::Edit ==> tool_kind_name(kind) == "edit"@,
        kind == ToolKind::Delete ==> tool_kind_name(kind) == "delete"@,
        kind == ToolKind::Move ==> tool_kind_name(kind) == "move"@,
        kind == ToolKind::Search ==> tool_kind_name(kind) == "search"@,
        kind == ToolKind::Execute ==> tool_kind_name(kind) == "execute"@,
        kind == ToolKind::Think ==> tool_kind_name(kind) == "think"@,
        kind == ToolKind::Fetch ==> tool_kind_name(kind) == "fetch"@,
        kind == ToolKind::SwitchMode ==> tool_kind_name(kind) == "switch_mode"@,
        kind == ToolKind::Other ==> tool_kind_name(kind) == "other"@,
        answer == PermissionOptionKind::AllowOnce ==> option_kind_name(answer) == "allow_once"@,
        answer == PermissionOptionKind::AllowAlways ==> option_kind_name(answer) == "allow_always"@,
        answer == PermissionOptionKind::RejectOnce ==> option_kind_name(answer) == "reject_once"@,
        answer == PermissionOptionKind::RejectAlways ==> option_kind_name(answer)
            == "reject_always"@,
{
}

/// The answer that is taken of a kind is the first that the request offers, and there is one exactly
/// where the request offers one.
pub proof fn first_answer_of_a_kind(options: Seq<OptionModel>, kind: PermissionOptionKind, at: int)
    ensures
        0 <= at < options.len() && options[at].kind == kind && (forall|i: int|
            0 <= i < at ==> (#[trigger] options[i]).kind != kind) ==> first_of_kind(options, kind)
            == Some(options[at].option_id),
        (forall|i: int| 0 <= i < options.len() ==> (#[trigger] options[i]).kind != kind)
            ==> first_of_kind(options, kind) is None,
    decreases options.len(),
{
    if options.len() > 0 {
        let rest = options.drop_first();
        first_answer_of_a_kind(rest, kind, at - 1);
        assert forall|i: int| 0 <= i < rest.len() implies #[trigger] rest[i] == options[i + 1] by {}
        if options[0].kind != kind {
            if 0 <= at < options.len() && options[at].kind == kind && (forall|i: int|
                0 <= i < at ==> (#[trigger] options[i]).kind != kind) {
                assert(rest[at - 1].kind == kind);
                assert forall|i: int| 0 <= i < at - 1 implies (#[trigger] rest[i]).kind != kind by {
                    assert(options[i + 1].kind != kind);
                }
            }
            if forall|i: int| 0 <= i < options.len() ==> (#[trigger] options[i]).kind != kind {
                assert forall|i: int| 0 <= i < rest.len() implies (#[trigger] rest[i]).kind
                    != kind by {
                    assert(options[i + 1].kind != kind);
                }
            }
        }
    }
}

/// A request is approved without asking exactly where it names a server of the team and offers an
/// allowance: under Command EVE the first single one; else the first lasting one, or the first
/// single one where it offers no lasting one. A request that names another server never is.
pub proof fn only_team_requests_are_approved(request: PermissionRequestModel)
    ensures
        ({
            let server = requested_server(request);
            let team = server == Some("aionui-team"@) || server == Some("aionui-team-guide"@);
            let once = first_of_kind(request.options, PermissionOptionKind::AllowOnce);
            let always = first_of_kind(request.options, PermissionOptionKind::AllowAlways);
            &&& !team ==> auto_approval(request) is None && command_eve_auto_approval(
                request,
            ) is None
            &&& team ==> command_eve_auto_approval(request) == once
            &&& team && always is Some ==> auto_approval(request) == always
            &&& team && always is None ==> auto_approval(request) == once
        }),
{
}

/// The server of a request is the one that its input names; where it names none, it is the one in a
/// title of the form `mcp__server__tool`.
pub proof fn server_is_named_in_input_or_title(
    request: PermissionRequestModel,
    server: Seq<char>,
    tool: Seq<char>,
)
    requires
        server.len() > 0,
        tool.len() > 0,
        !contains(server.push('_'), "__"@),
    ensures
        request.raw_input is Some && request.raw_input->0.field_text("server_name"@) == Some(server)
            ==> requested_server(request) == Some(server),
        request.raw_input is None && request.title == Some("mcp__"@ + server + "__"@ + tool)
            ==> requested_server(request) == Some(server),
        request.raw_input is None && request.title is None ==> requested_server(request) is None,
        request.raw_input is None && request.title is Some && !(request.title->0.len() >= 5
            && request.title->0.subrange(0, 5) == "mcp__"@) ==> requested_server(request) is None,
{
    reveal_strlit("mcp__");
    reveal_strlit("__");
    let title = "mcp__"@ + server + "__"@ + tool;
    let rest = server + "__"@ + tool;
    assert(title.subrange(0, 5) =~= "mcp__"@);
    assert(title.subrange(5, title.len() as int) =~= rest);
    let at = server.len() as int;
    assert(rest.subrange(at, at + 2) =~= "__"@);
    assert forall|i: int| 0 <= i < at implies !#[trigger] occurs_at(rest, "__"@, i) by {
        if occurs_at(rest, "__"@, i) {
            assert(server.push('_').subrange(i, i + 2) =~= rest.subrange(i, i + 2));
            assert(occurs_at(server.push('_'), "__"@, i));
        }
    }
    lemma_find_from(rest, "__"@, 0, server.len());
    assert(rest.subrange(0, at) =~= server);
    assert(rest.subrange(at + 2, rest.len() as int) =~= tool);
}

proof fn lemma_find_from(s: Seq<char>, needle: Seq<char>, from: nat, at: nat)
    requires
        from <= at,
        occurs_at(s, needle, at as int),
        forall|i: int| from <= i < at ==> !#[trigger] occurs_at(s, needle, i),
    ensures
        find_from(s, needle, from) == Some(at),
    decreases at - from,
{
    if from < at {
        assert(!occurs_at(s, needle, from as int));
        lemma_find_from(s, needle, from + 1, at);
    }
}

/// An allowance speaks of the session exactly where its id is `allow_session`, its id speaks of one
/// with hyphens or underscores, or its name does in words, whatever the case of the letters.
pub proof fn allowances_that_speak_of_the_session(option_id: Seq<char>, name: Seq<char>)
    ensures
        is_session_scoped(option_id, name) <==> {
            ||| lower_all(option_id) == "allow_session"@
            ||| contains(lower_all(option_id), "for-session"@)
            ||| contains(lower_all(option_id), "for_session"@)
            ||| contains(lower_all(name), "for session"@)
            ||| contains(lower_all(name), "this session"@)
        },
{
}

/// Which answers Command EVE shows: refusals always, a single allowance where a user may allow the
/// operation, an allowance for the session where besides the exact grant is available, under a name
/// that says what it covers; nothing permanent. What is shown keeps its id, its kind and its
/// metadata.
pub proof fn shown_answers_are_the_supported_ones(option: ShownOption, exact: bool, gated: bool)
    ensures
        contained(option, exact, gated) is Some <==> {
            ||| option.kind == AcpPermissionOptionKind::RejectOnce
            ||| option.kind == AcpPermissionOptionKind::AllowOnce && !gated
            ||| option.kind == AcpPermissionOptionKind::AllowAlways && exact && !gated
                && is_session_scoped(option.option_id, option.name)
        },
        contained(option, exact, gated) matches Some(kept) ==> {
            &&& kept.option_id == option.option_id
            &&& kept.kind == option.kind
            &&& kept.meta == option.meta
            &&& kept.name == if option.kind == AcpPermissionOptionKind::AllowAlways {
                "Allow this exact request for this session"@
            } else {
                option.name
            }
        },
{
}

/// Of a list of answers those are shown that are supported, all of them and in their order.
pub proof fn supported_answers_stay_in_order(options: Seq<ShownOption>, exact: bool, gated: bool, at: int)
    requires
        0 <= at < options.len(),
    ensures
        contained_all(options, exact, gated) == contained_all(
            options.subrange(0, at),
            exact,
            gated,
        ) + (match contained(options[at], exact, gated) {
            Some(kept) => seq![kept],
            None => Seq::empty(),
        }) + contained_all(options.subrange(at + 1, options.len() as int), exact, gated),
    decreases options.len(),
{
    let before = options.subrange(0, at);
    let behind = options.subrange(at + 1, options.len() as int);
    if at == options.len() - 1 {
        assert(options.drop_last() =~= before);
        assert(behind =~= Seq::<ShownOption>::empty());
        assert(options.last() == options[at]);
        let own = match contained(options[at], exact, gated) {
            Some(kept) => seq![kept],
            None => Seq::empty(),
        };
        assert(contained_all(options, exact, gated) =~= contained_all(before, exact, gated) + own
            + Seq::<ShownOption>::empty());
    } else {
        let front = options.drop_last();
        supported_answers_stay_in_order(front, exact, gated, at);
        assert(front.subrange(0, at) =~= before);
        assert(front.subrange(at + 1, front.len() as int) =~= behind.drop_last());
        assert(front[at] == options[at]);
        assert(behind.last() == options.last());
        let own = match contained(options[at], exact, gated) {
            Some(kept) => seq![kept],
            None => Seq::empty(),
        };
        let head = contained_all(before, exact, gated);
        let tail = contained_all(behind.drop_last(), exact, gated);
        match contained(options.last(), exact, gated) {
            Some(kept) => {
                assert((head + own + tail).push(kept) =~= head + own + tail.push(kept));
            },
            None => {},
        }
    }
}

/// A request to edit waits a minute for an answer, and any other one five.
pub proof fn requests_wait_for_minutes(kind: Option<ToolKind>)
    ensures
        kind == Some(ToolKind::Edit) ==> ttl_of(kind) == 60_000,
        kind != Some(ToolKind::Edit) ==> ttl_of(kind) == 300_000,
{
}

/// The digest of an operation sees its answers in the order of their ids, in whatever order they
/// were offered.
pub proof fn answers_are_sorted_by_id(options: Seq<OptionModel>)
    ensures
        forall|i: int, j: int|
            0 <= i < j < options_by_id(options).len() ==> !text_before(
                (#[trigger] options_by_id(options)[j]).option_id,
                (#[trigger] options_by_id(options)[i]).option_id,
            ),
    decreases options.len(),
{
    if options.len() > 0 {
        answers_are_sorted_by_id(options.drop_last());
        lemma_with_option_sorted(options_by_id(options.drop_last()), options.last());
    }
}

proof fn lemma_with_option_sorted(options: Seq<OptionModel>, option: OptionModel)
    requires
        forall|i: int, j: int|
            0 <= i < j < options.len() ==> !text_before(
                (#[trigger] options[j]).option_id,
                (#[trigger] options[i]).option_id,
            ),
    ensures
        forall|i: int, j: int|
            0 <= i < j < with_option(options, option).len() ==> !text_before(
                (#[trigger] with_option(options, option)[j]).option_id,
                (#[trigger] with_option(options, option)[i]).option_id,
            ),
        forall|i: int|
            0 <= i < with_option(options, option).len() ==> #[trigger] with_option(
                options,
                option,
            )[i] == option || options.contains(with_option(options, option)[i]),
    decreases options.len(),
{
    let after = with_option(options, option);
    if options.len() == 0 || text_before(option.option_id, options[0].option_id) {
        assert forall|i: int| 0 <= i < after.len() implies #[trigger] after[i] == option
            || options.contains(after[i]) by {
            if i > 0 {
                assert(after[i] == options[i - 1]);
            }
        }
        assert forall|i: int, j: int| 0 <= i < j < after.len() implies !text_before(
            (#[trigger] after[j]).option_id,
            (#[trigger] after[i]).option_id,
        ) by {
            assert(after[j] == options[j - 1]);
            if i > 0 {
                assert(after[i] == options[i - 1]);
            } else {
                lemma_text_before_total(option.option_id, options[0].option_id);
                if text_before(options[j - 1].option_id, option.option_id) {
                    lemma_text_before_transitive(
                        options[j - 1].option_id,
                        option.option_id,
                        options[0].option_id,
                    );
                    if j > 1 {
                        assert(!text_before(options[j - 1].option_id, options[0].option_id));
                    }
                    lemma_text_before_total(options[0].option_id, options[0].option_id);
                }
            }
        }
    } else {
        let rest = options.drop_first();
        assert forall|i: int, j: int| 0 <= i < j < rest.len() implies !text_before(
            (#[trigger] rest[j]).option_id,
            (#[trigger] rest[i]).option_id,
        ) by {
            assert(rest[j] == options[j + 1] && rest[i] == options[i + 1]);
        }
        lemma_with_option_sorted(rest, option);
        let tail = with_option(rest, option);
        assert forall|i: int| 0 <= i < after.len() implies #[trigger] after[i] == option
            || options.contains(after[i]) by {
            if i == 0 {
                assert(after[i] == options[0]);
            } else {
                assert(after[i] == tail[i - 1]);
                if tail[i - 1] != option {
                    let k = choose|k: int| 0 <= k < rest.len() && rest[k] == tail[i - 1];
                    assert(options[k + 1] == after[i]);
                }
            }
        }
        assert forall|i: int, j: int| 0 <= i < j < after.len() implies !text_before(
            (#[trigger] after[j]).option_id,
            (#[trigger] after[i]).option_id,
        ) by {
            assert(after[j] == tail[j - 1]);
            if i > 0 {
                assert(after[i] == tail[i - 1]);
            } else if tail[j - 1] != option {
                let k = choose|k: int| 0 <= k < rest.len() && rest[k] == tail[j - 1];
                assert(options[k + 1] == after[j]);
            }
        }
    }
}

/// An answer for good means the exact request for this session where it speaks of the session, and
/// is not supported where it does not.
pub proof fn answers_for_good_are_for_the_session(option: OptionModel)
    ensures
        disposition(option) == OptionDisposition::ExactSession <==> option.kind
            == PermissionOptionKind::AllowAlways && is_session_scoped(
            option.option_id,
            option.name,
        ),
        disposition(option) == OptionDisposition::UnsupportedPermanent <==> option.kind
            == PermissionOptionKind::RejectAlways || (option.kind
            == PermissionOptionKind::AllowAlways && !is_session_scoped(
            option.option_id,
            option.name,
        )),
        disposition(option) == OptionDisposition::AllowOnce <==> option.kind
            == PermissionOptionKind::AllowOnce,
        disposition(option) == OptionDisposition::RejectOnce <==> option.kind
            == PermissionOptionKind::RejectOnce,
{
}

/// An input counts only where it names a server by a text that is not empty; else the title does,
/// and it names one only in the form of a prefix, the server, a separator and a tool, none of them
/// empty.
pub proof fn nameless_input_leaves_the_title(request: PermissionRequestModel)
    ensures
        ({
            let named = match request.raw_input {
                Some(raw) => raw.field_text("server_name"@),
                None => None,
            };
            let counts = named is Some && named->0.len() > 0;
            let found = requested_server(request);
            &&& counts ==> found == named
            &&& !counts && request.title is None ==> found is None
            &&& !counts && request.title is Some ==> found == requested_server(
                PermissionRequestModel { raw_input: None, ..request },
            )
            &&& !counts && found is Some ==> exists|tool: Seq<char>|
                tool.len() > 0 && request.title == Some(
                    #[trigger] ("mcp__"@ + (found->0 + "__"@ + tool)),
                )
            &&& found is Some ==> found->0.len() > 0
        }),
{
    let named = match request.raw_input {
        Some(raw) => raw.field_text("server_name"@),
        None => None,
    };
    let counts = named is Some && named->0.len() > 0;
    let found = requested_server(request);
    if !counts && found is Some {
        let title = request.title->0;
        let rest = strip_prefix(title, "mcp__"@)->0;
        stripped_prefix_can_be_put_back(title, "mcp__"@, rest);
        split_parts_give_the_text_back(rest, "__"@);
        let (server, tool) = split_once(rest, "__"@)->0;
        assert(rest == found->0 + "__"@ + tool);
        assert(title == "mcp__"@ + (found->0 + "__"@ + tool));
    }
}

} // verus!
