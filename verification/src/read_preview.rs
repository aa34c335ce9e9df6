//! The answer to a preview read: its bounds against the request, and what is taken out of it.
use vstd::prelude::*;

use crate::client_extensions::{
    is_identifier, validate_identifier, AcpClientExtensionRouter, ExtensionModel, PendingModel,
    PendingRead, ReadKind, COMMAND_EVE_READ_PREVIEW_VERSION, MAX_COUNT,
    MAX_RESPONSE_PAYLOAD_BYTES,
};
use crate::error::{AgentError, AgentErrorKind};
use crate::redaction::{
    address_len, redact_secret_text, secrets_redacted, strip_url_secret_parts,
};
use crate::text::{byte_len, chars_of, same_text, str_view, text_view, utf8_len};

verus! {

/// The largest document of which a part is read.
pub const MAX_TOTAL_CHARS: u32 = 10_000_000;

/// The most characters of text in one answer.
pub const MAX_TEXT_CHARS: usize = 24_000;

/// The most bytes of an address.
pub const MAX_URL_BYTES: usize = 4096;

/// The most bytes of a title.
pub const MAX_TITLE_BYTES: usize = 512;

/// The most bytes of a note.
pub const MAX_NOTE_BYTES: usize = 2048;

/// The most bytes of a path.
pub const MAX_PATH_BYTES: usize = 4096;

/// What was read of a preview.
#[derive(Debug, PartialEq, Eq)]
pub struct AcpReadPreviewResult {
    /// What kind of document it is.
    pub kind: String,
    pub url: String,
    pub title: String,
    pub text: String,
    pub start: u32,
    pub end: u32,
    pub total_chars: u32,
    pub note: Option<String>,
    pub path: Option<String>,
}

/// What a preview's answer says.
pub struct PreviewModel {
    pub kind: Seq<char>,
    pub url: Seq<char>,
    pub title: Seq<char>,
    pub text: Seq<char>,
    pub start: u32,
    pub end: u32,
    pub total_chars: u32,
    pub note: Option<Seq<char>>,
    pub path: Option<Seq<char>>,
}

impl View for AcpReadPreviewResult {
    type V = PreviewModel;

    open spec fn view(&self) -> PreviewModel {
        PreviewModel {
            kind: self.kind@,
            url: self.url@,
            title: self.title@,
            text: self.text@,
            start: self.start,
            end: self.end,
            total_chars: self.total_chars,
            note: text_view(self.note),
            path: text_view(self.path),
        }
    }
}

/// An answer to a preview read; without a result where nothing could be read.
#[derive(Debug, PartialEq, Eq)]
pub struct AcpReadPreviewResponseRequest {
    pub version: String,
    pub request_id: String,
    pub session_id: String,
    pub result: Option<AcpReadPreviewResult>,
}

/// What an answer to a preview read says.
pub struct PreviewResponseModel {
    pub version: Seq<char>,
    pub request_id: Seq<char>,
    pub session_id: Seq<char>,
    pub result: Option<PreviewModel>,
}

impl View for AcpReadPreviewResponseRequest {
    type V = PreviewResponseModel;

    open spec fn view(&self) -> PreviewResponseModel {
        PreviewResponseModel {
            version: self.version@,
            request_id: self.request_id@,
            session_id: self.session_id@,
            result: match self.result {
                Some(result) => Some(result@),
                None => None,
            },
        }
    }
}

/// An error as the library's operations report it: its kind and its message.
pub type Fault = (AgentErrorKind, Seq<char>);

/// What is wrong with the envelope of an answer, if anything.
pub open spec fn preview_envelope_fault(response: PreviewResponseModel) -> Option<Fault> {
    if response.version != COMMAND_EVE_READ_PREVIEW_VERSION@ {
        Some((AgentErrorKind::BadRequest, "Unsupported ACP read_preview response version"@))
    } else if !is_identifier(response.request_id) {
        Some((AgentErrorKind::BadRequest, "Invalid ACP read_preview request_id"@))
    } else if !is_identifier(response.session_id) {
        Some((AgentErrorKind::BadRequest, "Invalid ACP read_preview session_id"@))
    } else {
        None
    }
}

/// Where the answer to a read has to start, in a document of that size.
pub open spec fn expected_start(start: Option<u32>, total: u32) -> u32 {
    match start {
        Some(start) => if start < total {
            start
        } else {
            total
        },
        None => 0,
    }
}

/// What is wrong with the size of a field, if anything.
pub open spec fn preview_field_fault(result: PreviewModel) -> Option<Fault> {
    if byte_len(result.url) > MAX_URL_BYTES {
        Some((AgentErrorKind::BadRequest, "ACP read_preview url exceeds the payload cap"@))
    } else if byte_len(result.title) > MAX_TITLE_BYTES {
        Some((AgentErrorKind::BadRequest, "ACP read_preview title exceeds the payload cap"@))
    } else if result.text.len() > MAX_TEXT_CHARS {
        Some((AgentErrorKind::BadRequest, "ACP read_preview text exceeds the character cap"@))
    } else if result.note matches Some(note) && byte_len(note) > MAX_NOTE_BYTES {
        Some((AgentErrorKind::BadRequest, "ACP read_preview note exceeds the payload cap"@))
    } else if result.path matches Some(path) && byte_len(path) > MAX_PATH_BYTES {
        Some((AgentErrorKind::BadRequest, "ACP read_preview path exceeds the payload cap"@))
    } else {
        None
    }
}

/// What is wrong with an answer to a waiting read, if anything.
pub open spec fn preview_result_fault(result: PreviewModel, pending: PendingModel) -> Option<Fault> {
    let requested: u32 = match pending.count {
        Some(count) => count,
        None => MAX_COUNT,
    };
    if preview_field_fault(result) is Some {
        preview_field_fault(result)
    } else if !(result.start <= result.end <= result.total_chars <= MAX_TOTAL_CHARS) {
        Some((AgentErrorKind::BadRequest, "ACP read_preview result offsets are out of range"@))
    } else if result.start != expected_start(pending.start, result.total_chars) {
        Some((AgentErrorKind::Conflict, "ACP read_preview result start does not match the request"@))
    } else if result.end - result.start > requested || result.text.len() > requested {
        Some((AgentErrorKind::BadRequest, "ACP read_preview result exceeds the requested window"@))
    } else {
        None
    }
}

/// What is wrong with an answer, if anything.
pub open spec fn preview_fault(
    model: ExtensionModel,
    bound: Option<Seq<char>>,
    response: PreviewResponseModel,
) -> Option<Fault> {
    if preview_envelope_fault(response) is Some {
        preview_envelope_fault(response)
    } else if !model.previews.dom().contains(response.request_id) {
        Some(
            (
                AgentErrorKind::Conflict,
                "ACP read_preview request is unknown, expired, or already answered"@,
            ),
        )
    } else if bound != Some(response.session_id) || !model.waits(
        ReadKind::Preview,
        response.request_id,
        response.session_id,
    ) {
        Some((AgentErrorKind::Conflict, "ACP read_preview session binding mismatch"@))
    } else {
        match response.result {
            Some(result) => preview_result_fault(result, model.previews[response.request_id]),
            None => None,
        }
    }
}

/// A result with the secrets taken out; nothing where that cannot be done.
pub open spec fn preview_redacted(result: PreviewModel) -> Option<PreviewModel> {
    match (secrets_redacted(result.title), secrets_redacted(result.text)) {
        (Some(title), Some(text)) => match result.note {
            Some(note) => match secrets_redacted(note) {
                Some(note) => Some(
                    PreviewModel {
                        url: result.url.subrange(0, address_len(result.url) as int),
                        title,
                        text,
                        note: Some(note),
                        ..result
                    },
                ),
                None => None,
            },
            None => Some(
                PreviewModel {
                    url: result.url.subrange(0, address_len(result.url) as int),
                    title,
                    text,
                    note: None,
                    ..result
                },
            ),
        },
        _ => None,
    }
}

/// An answer with the secrets taken out; nothing where that cannot be done.
pub open spec fn preview_response_redacted(response: PreviewResponseModel) -> Option<
    PreviewResponseModel,
> {
    match response.result {
        Some(result) => match preview_redacted(result) {
            Some(result) => Some(PreviewResponseModel { result: Some(result), ..response }),
            None => None,
        },
        None => Some(response),
    }
}

/// The fault of a failed result.
pub open spec fn fault_of<T>(r: Result<T, AgentError>) -> Option<Fault> {
    match r {
        Ok(_) => None,
        Err(error) => Some(error@),
    }
}

fn validate_response_envelope(response: &AcpReadPreviewResponseRequest) -> (r: Result<
    (),
    AgentError,
>)
    ensures
        fault_of(r) == preview_envelope_fault(response@),
{
    if !same_text(response.version.as_str(), COMMAND_EVE_READ_PREVIEW_VERSION) {
        return Err(AgentError::bad_request("Unsupported ACP read_preview response version"));
    }
    if !validate_identifier(response.request_id.as_str()) {
        return Err(AgentError::bad_request("Invalid ACP read_preview request_id"));
    }
    if !validate_identifier(response.session_id.as_str()) {
        return Err(AgentError::bad_request("Invalid ACP read_preview session_id"));
    }
    Ok(())
}

fn validate_fields(result: &AcpReadPreviewResult) -> (r: Result<(), AgentError>)
    ensures
        fault_of(r) == preview_field_fault(result@),
{
    if utf8_len(result.url.as_str()) > MAX_URL_BYTES {
        return Err(AgentError::bad_request("ACP read_preview url exceeds the payload cap"));
    }
    if utf8_len(result.title.as_str()) > MAX_TITLE_BYTES {
        return Err(AgentError::bad_request("ACP read_preview title exceeds the payload cap"));
    }
    if chars_of(result.text.as_str()).len() > MAX_TEXT_CHARS {
        return Err(AgentError::bad_request("ACP read_preview text exceeds the character cap"));
    }
    if let Some(note) = &result.note {
        if utf8_len(note.as_str()) > MAX_NOTE_BYTES {
            return Err(AgentError::bad_request("ACP read_preview note exceeds the payload cap"));
        }
    }
    if let Some(path) = &result.path {
        if utf8_len(path.as_str()) > MAX_PATH_BYTES {
            return Err(AgentError::bad_request("ACP read_preview path exceeds the payload cap"));
        }
    }
    Ok(())
}

/// Checks a result against the read that waits for it.
pub fn validate_result(result: &AcpReadPreviewResult, pending: &PendingRead) -> (r: Result<
    (),
    AgentError,
>)
    ensures
        fault_of(r) == preview_result_fault(result@, pending@),
{
    if let Err(error) = validate_fields(result) {
        return Err(error);
    }
    if result.total_chars > MAX_TOTAL_CHARS || result.end > result.total_chars || result.start
        > result.end {
        return Err(AgentError::bad_request("ACP read_preview result offsets are out of range"));
    }
    let start: u32 = match pending.start() {
        Some(start) => if start < result.total_chars {
            start
        } else {
            result.total_chars
        },
        None => 0,
    };
    if result.start != start {
        return Err(
            AgentError::conflict("ACP read_preview result start does not match the request"),
        );
    }
    let requested: u32 = match pending.count() {
        Some(count) => count,
        None => MAX_COUNT,
    };
    let span: u32 = result.end - result.start;
    if span > requested || chars_of(result.text.as_str()).len() > requested as usize {
        return Err(AgentError::bad_request("ACP read_preview result exceeds the requested window"));
    }
    Ok(())
}

/// Takes the secrets out of a result.
pub fn redact_result(result: &AcpReadPreviewResult) -> (r: Option<AcpReadPreviewResult>)
    ensures
        match r {
            Some(redacted) => preview_redacted(result@) == Some(redacted@),
            None => preview_redacted(result@) is None,
        },
{
    let url = strip_url_secret_parts(result.url.as_str());
    let title = match redact_secret_text(result.title.as_str()) {
        Some(title) => title,
        None => {
            return None;
        },
    };
    let text = match redact_secret_text(result.text.as_str()) {
        Some(text) => text,
        None => {
            return None;
        },
    };
    let note = match &result.note {
        Some(note) => match redact_secret_text(note.as_str()) {
            Some(note) => Some(note),
            None => {
                return None;
            },
        },
        None => None,
    };
    let path = match &result.path {
        Some(path) => Some(path.clone()),
        None => None,
    };
    Some(
        AcpReadPreviewResult {
            kind: result.kind.clone(),
            url,
            title,
            text,
            start: result.start,
            end: result.end,
            total_chars: result.total_chars,
            note,
            path,
        },
    )
}

/// Why an answer to a read cannot be taken off the waiting ones, if it cannot.
pub open spec fn preview_consumption_fault(
    model: ExtensionModel,
    request_id: Seq<char>,
    payload_bytes: usize,
) -> Option<Fault> {
    if payload_bytes > MAX_RESPONSE_PAYLOAD_BYTES {
        Some(
            (AgentErrorKind::BadRequest, "ACP read_preview response exceeds the payload cap"@),
        )
    } else if !model.previews.dom().contains(request_id) {
        Some(
            (
                AgentErrorKind::Conflict,
                "ACP read_preview request is unknown, expired, or already answered"@,
            ),
        )
    } else {
        None
    }
}

impl AcpClientExtensionRouter {
    /// Checks an answer against the read that waits for it, and returns it as it goes to the agent.
    /// The read goes on waiting until the answer is consumed.
    pub fn check_read_preview_response(
        &self,
        bound_session_id: Option<&str>,
        response: &AcpReadPreviewResponseRequest,
    ) -> (r: Result<AcpReadPreviewResponseRequest, AgentError>)
        requires
            self.wf(),
        ensures
            match preview_fault(self@, str_view(bound_session_id), response@) {
                Some(fault) => r matches Err(error) && error@ == fault,
                None => match preview_response_redacted(response@) {
                    Some(redacted) => r matches Ok(answer) && answer@ == redacted,
                    None => r matches Err(error) && error@ == (
                        AgentErrorKind::Internal,
                        "ACP read_preview redaction unavailable"@,
                    ),
                },
            },
    {
        if let Err(error) = validate_response_envelope(response) {
            return Err(error);
        }
        let pending = match self.pending_read(ReadKind::Preview, response.request_id.as_str()) {
            Some(pending) => pending,
            None => {
                return Err(
                    AgentError::conflict(
                        "ACP read_preview request is unknown, expired, or already answered",
                    ),
                );
            },
        };
        let bound = match bound_session_id {
            Some(bound) => same_text(bound, response.session_id.as_str()),
            None => false,
        };
        if !bound || !same_text(pending.session_id(), response.session_id.as_str()) {
            return Err(AgentError::conflict("ACP read_preview session binding mismatch"));
        }
        let result = match &response.result {
            Some(result) => {
                if let Err(error) = validate_result(result, pending) {
                    return Err(error);
                }
                match redact_result(result) {
                    Some(redacted) => Some(redacted),
                    None => {
                        return Err(AgentError::internal("ACP read_preview redaction unavailable"));
                    },
                }
            },
            None => None,
        };
        Ok(
            AcpReadPreviewResponseRequest {
                version: response.version.clone(),
                request_id: response.request_id.clone(),
                session_id: response.session_id.clone(),
                result,
            },
        )
    }

    /// Consumes an answer that was checked and takes `payload_bytes` on the wire: its read stops
    /// waiting.
    pub fn consume_read_preview_response(&mut self, request_id: &str, payload_bytes: usize) -> (r:
        Result<(), AgentError>)
        requires
            old(self).wf(),
        ensures
            final(self).wf(),
            fault_of(r) == preview_consumption_fault(old(self)@, request_id@, payload_bytes),
            final(self)@ == if r is Ok {
                old(self)@.without(ReadKind::Preview, request_id@)
            } else {
                old(self)@
            },
    {
        if payload_bytes > MAX_RESPONSE_PAYLOAD_BYTES {
            return Err(AgentError::bad_request("ACP read_preview response exceeds the payload cap"));
        }
        if self.pending_read(ReadKind::Preview, request_id).is_none() {
            return Err(
                AgentError::conflict(
                    "ACP read_preview request is unknown, expired, or already answered",
                ),
            );
        }
        let _ = self.reject_pending(ReadKind::Preview, request_id);
        Ok(())
    }
}

/// An answer is consumed at most once: after it was, the same answer is refused as unknown.
pub proof fn preview_answer_is_consumed_once(
    model: ExtensionModel,
    bound: Option<Seq<char>>,
    response: PreviewResponseModel,
)
    requires
        preview_fault(model, bound, response) is None,
    ensures
        preview_fault(
            model.without(ReadKind::Preview, response.request_id),
            bound,
            response,
        ) == Some(
            (
                AgentErrorKind::Conflict,
                "ACP read_preview request is unknown, expired, or already answered"@,
            ),
        ),
{
}

/// An accepted answer keeps within the window that its read asked for.
pub proof fn preview_answer_stays_in_the_window(
    model: ExtensionModel,
    bound: Option<Seq<char>>,
    response: PreviewResponseModel,
)
    requires
        preview_fault(model, bound, response) is None,
        response.result is Some,
        model.previews[response.request_id].count is Some,
    ensures
        response.result->0.text.len() <= model.previews[response.request_id].count->0,
        response.result->0.end - response.result->0.start
            <= model.previews[response.request_id].count->0,
        response.result->0.end <= response.result->0.total_chars,
{
}

/// An answer goes only to the session that is bound and that asked.
pub proof fn preview_answer_goes_to_its_session(
    model: ExtensionModel,
    bound: Option<Seq<char>>,
    response: PreviewResponseModel,
)
    requires
        preview_fault(model, bound, response) is None,
    ensures
        bound == Some(response.session_id),
        model.waits(ReadKind::Preview, response.request_id, response.session_id),
{
}

/// What goes to the agent of a preview: its title, its text and its note with the secrets taken out,
/// each of them; its address without query and fragment; and everything else as it was. There is an
/// answer exactly where each of these can be redacted.
pub proof fn every_text_of_a_preview_is_redacted(result: PreviewModel)
    ensures
        preview_redacted(result) is Some <==> secrets_redacted(result.title) is Some
            && secrets_redacted(result.text) is Some && (result.note is Some ==> secrets_redacted(
            result.note->0,
        ) is Some),
        preview_redacted(result) matches Some(delivered) ==> {
            &&& secrets_redacted(result.title) == Some(delivered.title)
            &&& secrets_redacted(result.text) == Some(delivered.text)
            &&& result.note is None <==> delivered.note is None
            &&& result.note is Some ==> secrets_redacted(result.note->0) == delivered.note
            &&& delivered.url.len() <= result.url.len()
            &&& delivered.url == result.url.subrange(0, delivered.url.len() as int)
            &&& delivered.url.len() < result.url.len() ==> result.url[delivered.url.len() as int]
                == '?' || result.url[delivered.url.len() as int] == '#'
            &&& forall|i: int|
                0 <= i < delivered.url.len() ==> #[trigger] delivered.url[i] != '?'
                    && delivered.url[i] != '#'
            &&& delivered.kind == result.kind
            &&& delivered.path == result.path
            &&& delivered.start == result.start
            &&& delivered.end == result.end
            &&& delivered.total_chars == result.total_chars
        },
{
    lemma_address_place(result.url);
}

proof fn lemma_address_place(url: Seq<char>)
    ensures
        address_len(url) <= url.len(),
        address_len(url) < url.len() ==> url[address_len(url) as int] == '?' || url[address_len(
            url,
        ) as int] == '#',
        forall|i: int| 0 <= i < address_len(url) ==> #[trigger] url[i] != '?' && url[i] != '#',
    decreases url.len(),
{
    if url.len() > 0 && url[0] != '?' && url[0] != '#' {
        let rest = url.drop_first();
        lemma_address_place(rest);
        assert forall|i: int| 0 <= i < address_len(url) implies #[trigger] url[i] != '?' && url[i]
            != '#' by {
            if i > 0 {
                assert(url[i] == rest[i - 1]);
            }
        }
    }
}

/// Two previews whose texts differ only in what is taken out of them are delivered alike.
pub proof fn secrets_of_a_preview_have_no_influence(first: PreviewModel, second: PreviewModel)
    requires
        secrets_redacted(first.title) == secrets_redacted(second.title),
        secrets_redacted(first.text) == secrets_redacted(second.text),
        first.note is Some && second.note is Some && secrets_redacted(first.note->0)
            == secrets_redacted(second.note->0) || first.note is None && second.note is None,
        first == (PreviewModel {
            title: first.title,
            text: first.text,
            note: first.note,
            ..second
        }),
    ensures
        preview_redacted(first) == preview_redacted(second),
{
}

/// An answer keeps its envelope; one without a result stays without one.
pub proof fn redaction_keeps_the_envelope(response: PreviewResponseModel)
    ensures
        preview_response_redacted(response) matches Some(delivered) ==> {
            &&& delivered.version == response.version
            &&& delivered.request_id == response.request_id
            &&& delivered.session_id == response.session_id
            &&& response.result is None <==> delivered.result is None
            &&& response.result is Some ==> preview_redacted(response.result->0)
                == delivered.result
        },
        response.result is None ==> preview_response_redacted(response) is Some,
{
}

/// A preview fits its read exactly where no field is too long, its offsets are in order within a
/// document of bounded size, it starts where the read asked or at the end of a shorter document, and
/// it holds no more than the read asked for.
pub proof fn preview_fits_its_read(result: PreviewModel, pending: PendingModel)
    ensures
        preview_result_fault(result, pending) is None <==> {
            let asked: u32 = match pending.count {
                Some(count) => count,
                None => 24_000,
            };
            &&& byte_len(result.url) <= 4096
            &&& byte_len(result.title) <= 512
            &&& result.text.len() <= 24_000
            &&& (result.note is Some ==> byte_len(result.note->0) <= 2048)
            &&& (result.path is Some ==> byte_len(result.path->0) <= 4096)
            &&& result.start <= result.end <= result.total_chars <= 10_000_000
            &&& (pending.start is None ==> result.start == 0)
            &&& (pending.start is Some && pending.start->0 <= result.total_chars ==> result.start
                == pending.start->0)
            &&& (pending.start is Some && pending.start->0 > result.total_chars ==> result.start
                == result.total_chars)
            &&& result.end - result.start <= asked
            &&& result.text.len() <= asked
        },
        preview_result_fault(result, pending) matches Some(fault) ==> fault.0
            == AgentErrorKind::BadRequest || fault.0 == AgentErrorKind::Conflict,
{
}

/// An answer is taken exactly where its envelope is right, its read waits, its session is the bound
/// one and the one that asked, and its result, if any, fits the read.
pub proof fn preview_answer_is_taken(
    model: ExtensionModel,
    bound: Option<Seq<char>>,
    response: PreviewResponseModel,
)
    ensures
        preview_fault(model, bound, response) is None <==> {
            &&& response.version == "command-eve-read-preview/v1"@
            &&& is_identifier(response.request_id)
            &&& is_identifier(response.session_id)
            &&& model.previews.dom().contains(response.request_id)
            &&& model.previews[response.request_id].session_id == response.session_id
            &&& bound == Some(response.session_id)
            &&& (response.result is Some ==> preview_result_fault(
                response.result->0,
                model.previews[response.request_id],
            ) is None)
        },
{
}

/// A preview that is not taken is told the first thing that is wrong with it, as a bad request where
/// it could never be taken, and as a conflict where it does not fit the read that waits.
pub proof fn refused_preview_is_told_the_first_fault(
    model: ExtensionModel,
    bound: Option<Seq<char>>,
    response: PreviewResponseModel,
)
    ensures
        ({
            let fault = preview_fault(model, bound, response);
            let bad = |text: Seq<char>| fault == Some((AgentErrorKind::BadRequest, text));
            let conflict = |text: Seq<char>| fault == Some((AgentErrorKind::Conflict, text));
            let current = response.version == "command-eve-read-preview/v1"@;
            let named = current && is_identifier(response.request_id);
            let placed = named && is_identifier(response.session_id);
            let known = placed && model.previews.dom().contains(response.request_id);
            let own = known && bound == Some(response.session_id)
                && model.previews[response.request_id].session_id == response.session_id;
            &&& !current ==> bad("Unsupported ACP read_preview response version"@)
            &&& current && !named ==> bad("Invalid ACP read_preview request_id"@)
            &&& named && !placed ==> bad("Invalid ACP read_preview session_id"@)
            &&& placed && !known ==> conflict(
                "ACP read_preview request is unknown, expired, or already answered"@,
            )
            &&& known && !own ==> conflict("ACP read_preview session binding mismatch"@)
            &&& own && response.result is Some ==> fault == preview_result_fault(
                response.result->0,
                model.previews[response.request_id],
            )
            &&& own && response.result is None ==> fault is None
        }),
{
}

/// What is wrong with the contents of a preview is told in the order of its fields, then of its
/// offsets, then of how it fits the read.
pub proof fn faulty_preview_is_told_the_first_fault(result: PreviewModel, pending: PendingModel)
    ensures
        ({
            let fault = preview_result_fault(result, pending);
            let bad = |text: Seq<char>| fault == Some((AgentErrorKind::BadRequest, text));
            let url = byte_len(result.url) <= 4096;
            let title = url && byte_len(result.title) <= 512;
            let text = title && result.text.len() <= 24_000;
            let note = text && (result.note is None || byte_len(result.note->0) <= 2048);
            let path = note && (result.path is None || byte_len(result.path->0) <= 4096);
            let ordered = path && result.start <= result.end <= result.total_chars <= 10_000_000;
            let first = match pending.start {
                Some(start) => if start <= result.total_chars {
                    start
                } else {
                    result.total_chars
                },
                None => 0,
            };
            let placed = ordered && result.start == first;
            let asked = if pending.count is Some {
                pending.count->0
            } else {
                24_000
            };
            &&& !url ==> bad("ACP read_preview url exceeds the payload cap"@)
            &&& url && !title ==> bad("ACP read_preview title exceeds the payload cap"@)
            &&& title && !text ==> bad("ACP read_preview text exceeds the character cap"@)
            &&& text && !note ==> bad("ACP read_preview note exceeds the payload cap"@)
            &&& note && !path ==> bad("ACP read_preview path exceeds the payload cap"@)
            &&& path && !ordered ==> bad("ACP read_preview result offsets are out of range"@)
            &&& ordered && !placed ==> fault == Some(
                (
                    AgentErrorKind::Conflict,
                    "ACP read_preview result start does not match the request"@,
                ),
            )
            &&& placed && (result.end - result.start > asked || result.text.len() > asked) ==> bad(
                "ACP read_preview result exceeds the requested window"@,
            )
        }),
{
}

/// An answer is taken off the waiting reads exactly where it is small enough and its read waits, of
/// these in this order.
pub proof fn waiting_preview_is_taken_off(
    model: ExtensionModel,
    request_id: Seq<char>,
    payload_bytes: usize,
)
    ensures
        ({
            let fault = preview_consumption_fault(model, request_id, payload_bytes);
            let waits = model.previews.dom().contains(request_id);
            &&& fault is None <==> payload_bytes <= 32768 && waits
            &&& payload_bytes > 32768 ==> fault == Some(
                (AgentErrorKind::BadRequest, "ACP read_preview response exceeds the payload cap"@),
            )
            &&& payload_bytes <= 32768 && !waits ==> fault == Some(
                (
                    AgentErrorKind::Conflict,
                    "ACP read_preview request is unknown, expired, or already answered"@,
                ),
            )
        }),
{
}

} // verus!
