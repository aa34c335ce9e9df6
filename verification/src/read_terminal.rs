//! The answer to a terminal read: its bounds against the request, and what is taken out of it.
use vstd::prelude::*;

use crate::client_extensions::{
    is_identifier, validate_identifier, AcpClientExtensionRouter, ExtensionModel, PendingModel,
    PendingRead, ReadKind, COMMAND_EVE_READ_TERMINAL_VERSION, MAX_COUNT,
    MAX_RESPONSE_PAYLOAD_BYTES,
};
use crate::error::{AgentError, AgentErrorKind};
use crate::read_preview::{expected_start, fault_of, Fault, MAX_TEXT_CHARS};
use crate::redaction::{redact_secret_text, secrets_redacted};
use crate::text::{chars_of, is_control, is_control_char, same_text, str_view};

verus! {

/// The longest terminal history of which a part is read.
pub const MAX_TOTAL_LINES: u32 = 10_000_000;

/// What was read of a terminal.
#[derive(Debug, PartialEq, Eq)]
pub struct AcpReadTerminalResult {
    pub total_lines: u32,
    pub start: u32,
    pub end: u32,
    pub viewport_rows: u32,
    pub cursor_row: u32,
    pub text: String,
}

/// What a terminal's answer says.
pub struct TerminalModel {
    pub total_lines: u32,
    pub start: u32,
    pub end: u32,
    pub viewport_rows: u32,
    pub cursor_row: u32,
    pub text: Seq<char>,
}

impl View for AcpReadTerminalResult {
    type V = TerminalModel;

    open spec fn view(&self) -> TerminalModel {
        TerminalModel {
            total_lines: self.total_lines,
            start: self.start,
            end: self.end,
            viewport_rows: self.viewport_rows,
            cursor_row: self.cursor_row,
            text: self.text@,
        }
    }
}

/// An answer to a terminal read; without a result where nothing could be read.
#[derive(Debug, PartialEq, Eq)]
pub struct AcpReadTerminalResponseRequest {
    pub version: String,
    pub request_id: String,
    pub session_id: String,
    pub result: Option<AcpReadTerminalResult>,
}

/// What an answer to a terminal read says.
pub struct TerminalResponseModel {
    pub version: Seq<char>,
    pub request_id: Seq<char>,
    pub session_id: Seq<char>,
    pub result: Option<TerminalModel>,
}

impl View for AcpReadTerminalResponseRequest {
    type V = TerminalResponseModel;

    open spec fn view(&self) -> TerminalResponseModel {
        TerminalResponseModel {
            version: self.version@,
            request_id: self.request_id@,
            session_id: self.session_id@,
            result: match self.result {
                Some(result) => Some(result@),
                None => None,
            },
        }
    }
}

/// How many line feeds a text holds.
pub open spec fn line_feeds(text: Seq<char>) -> nat
    decreases text.len(),
{
    if text.len() == 0 {
        0
    } else {
        line_feeds(text.drop_last()) + if text.last() == '\n' {
            1nat
        } else {
            0nat
        }
    }
}

/// How many lines a text has: one for every line feed, and one for what follows the last.
pub open spec fn line_count(text: Seq<char>) -> nat {
    line_feeds(text) + if text.len() > 0 && text.last() != '\n' {
        1nat
    } else {
        0nat
    }
}

fn count_lines(text: &[char]) -> (r: usize)
    ensures
        r == line_count(text@),
{
    let mut lines: usize = 0;
    let mut i: usize = 0;
    while i < text.len()
        invariant
            i <= text@.len(),
            lines <= i,
            lines == line_feeds(text@.subrange(0, i as int)),
        decreases text@.len() - i,
    {
        proof {
            let next = text@.subrange(0, i + 1);
            assert(next.drop_last() =~= text@.subrange(0, i as int));
            assert(next.last() == text@[i as int]);
        }
        if text[i] == '\n' {
            lines = lines + 1;
        }
        i = i + 1;
    }
    assert(text@.subrange(0, text@.len() as int) =~= text@);
    if text.len() > 0 && text[text.len() - 1] != '\n' {
        proof {
            assert(text@.drop_last() =~= text@.subrange(0, text@.len() - 1));
            lemma_line_feeds(text@.drop_last());
        }
        lines + 1
    } else {
        lines
    }
}

proof fn lemma_line_feeds(text: Seq<char>)
    ensures
        line_feeds(text) <= text.len(),
    decreases text.len(),
{
    if text.len() > 0 {
        lemma_line_feeds(text.drop_last());
    }
}

/// A control character that no terminal text may hold.
pub open spec fn is_unsupported(c: char) -> bool {
    is_control(c) && c != '\n' && c != '\r' && c != '\t'
}

fn holds_unsupported(text: &[char]) -> (r: bool)
    ensures
        r == exists|i: int| 0 <= i < text@.len() && is_unsupported(#[trigger] text@[i]),
{
    let mut i: usize = 0;
    while i < text.len()
        invariant
            i <= text@.len(),
            forall|j: int| 0 <= j < i ==> !is_unsupported(#[trigger] text@[j]),
        decreases text@.len() - i,
    {
        let c = text[i];
        if is_control_char(c) && c != '\n' && c != '\r' && c != '\t' {
            assert(is_unsupported(text@[i as int]));
            return true;
        }
        i = i + 1;
    }
    false
}

/// What is wrong with the envelope of an answer, if anything.
pub open spec fn terminal_envelope_fault(response: TerminalResponseModel) -> Option<Fault> {
    if response.version != COMMAND_EVE_READ_TERMINAL_VERSION@ {
        Some((AgentErrorKind::BadRequest, "Unsupported ACP read_terminal response version"@))
    } else if !is_identifier(response.request_id) {
        Some((AgentErrorKind::BadRequest, "Invalid ACP read_terminal request_id"@))
    } else if !is_identifier(response.session_id) {
        Some((AgentErrorKind::BadRequest, "Invalid ACP read_terminal session_id"@))
    } else {
        None
    }
}

/// What is wrong with an answer to a waiting read, if anything. A read that names no start is
/// answered from wherever the terminal stands, one that names no count with as many lines as the
/// terminal shows.
pub open spec fn terminal_result_fault(result: TerminalModel, pending: PendingModel) -> Option<
    Fault,
> {
    let requested: u32 = match pending.count {
        Some(count) => count,
        None => result.viewport_rows,
    };
    if result.text.len() > MAX_TEXT_CHARS {
        Some((AgentErrorKind::BadRequest, "ACP read_terminal text exceeds the character cap"@))
    } else if exists|i: int| 0 <= i < result.text.len() && is_unsupported(#[trigger] result.text[i]) {
        Some(
            (
                AgentErrorKind::BadRequest,
                "ACP read_terminal text contains unsupported control characters"@,
            ),
        )
    } else if !(result.start <= result.end <= result.total_lines <= MAX_TOTAL_LINES)
        || result.cursor_row > result.total_lines || !(0 < result.viewport_rows <= MAX_COUNT) {
        Some((AgentErrorKind::BadRequest, "ACP read_terminal result offsets are out of range"@))
    } else if pending.start is Some && result.start != expected_start(
        pending.start,
        result.total_lines,
    ) {
        Some(
            (AgentErrorKind::Conflict, "ACP read_terminal result start does not match the request"@),
        )
    } else if result.end - result.start > requested || line_count(result.text) > result.end
        - result.start {
        Some((AgentErrorKind::BadRequest, "ACP read_terminal result exceeds the requested window"@))
    } else {
        None
    }
}

/// What is wrong with an answer, if anything.
pub open spec fn terminal_fault(
    model: ExtensionModel,
    bound: Option<Seq<char>>,
    response: TerminalResponseModel,
) -> Option<Fault> {
    if terminal_envelope_fault(response) is Some {
        terminal_envelope_fault(response)
    } else if !model.terminals.dom().contains(response.request_id) {
        Some(
            (
                AgentErrorKind::Conflict,
                "ACP read_terminal request is unknown, expired, or already answered"@,
            ),
        )
    } else if bound != Some(response.session_id) || !model.waits(
        ReadKind::Terminal,
        response.request_id,
        response.session_id,
    ) {
        Some((AgentErrorKind::Conflict, "ACP read_terminal session binding mismatch"@))
    } else {
        match response.result {
            Some(result) => terminal_result_fault(result, model.terminals[response.request_id]),
            None => None,
        }
    }
}

/// An answer with the secrets taken out; nothing where that cannot be done.
pub open spec fn terminal_response_redacted(response: TerminalResponseModel) -> Option<
    TerminalResponseModel,
> {
    match response.result {
        Some(result) => match secrets_redacted(result.text) {
            Some(text) => Some(
                TerminalResponseModel {
                    result: Some(TerminalModel { text, ..result }),
                    ..response
                },
            ),
            None => None,
        },
        None => Some(response),
    }
}

fn validate_terminal_response_envelope(response: &AcpReadTerminalResponseRequest) -> (r: Result<
    (),
    AgentError,
>)
    ensures
        fault_of(r) == terminal_envelope_fault(response@),
{
    if !same_text(response.version.as_str(), COMMAND_EVE_READ_TERMINAL_VERSION) {
        return Err(AgentError::bad_request("Unsupported ACP read_terminal response version"));
    }
    if !validate_identifier(response.request_id.as_str()) {
        return Err(AgentError::bad_request("Invalid ACP read_terminal request_id"));
    }
    if !validate_identifier(response.session_id.as_str()) {
        return Err(AgentError::bad_request("Invalid ACP read_terminal session_id"));
    }
    Ok(())
}

/// Checks a result against the read that waits for it.
pub fn validate_terminal_result(result: &AcpReadTerminalResult, pending: &PendingRead) -> (r:
    Result<(), AgentError>)
    ensures
        fault_of(r) == terminal_result_fault(result@, pending@),
{
    let text = chars_of(result.text.as_str());
    if text.len() > MAX_TEXT_CHARS {
        return Err(AgentError::bad_request("ACP read_terminal text exceeds the character cap"));
    }
    if holds_unsupported(text.as_slice()) {
        return Err(
            AgentError::bad_request(
                "ACP read_terminal text contains unsupported control characters",
            ),
        );
    }
    if result.total_lines > MAX_TOTAL_LINES || result.start > result.end || result.end
        > result.total_lines || result.cursor_row > result.total_lines || result.viewport_rows == 0
        || result.viewport_rows > MAX_COUNT {
        return Err(AgentError::bad_request("ACP read_terminal result offsets are out of range"));
    }
    if let Some(start) = pending.start() {
        let expected: u32 = if start < result.total_lines {
            start
        } else {
            result.total_lines
        };
        if result.start != expected {
            return Err(
                AgentError::conflict("ACP read_terminal result start does not match the request"),
            );
        }
    }
    let requested: u32 = match pending.count() {
        Some(count) => count,
        None => result.viewport_rows,
    };
    let span: u32 = result.end - result.start;
    if span > requested || count_lines(text.as_slice()) > span as usize {
        return Err(AgentError::bad_request("ACP read_terminal result exceeds the requested window"));
    }
    Ok(())
}

/// Why an answer to a read cannot be taken off the waiting ones, if it cannot.
pub open spec fn terminal_consumption_fault(
    model: ExtensionModel,
    request_id: Seq<char>,
    payload_bytes: usize,
) -> Option<Fault> {
    if payload_bytes > MAX_RESPONSE_PAYLOAD_BYTES {
        Some(
            (AgentErrorKind::BadRequest, "ACP read_terminal response exceeds the payload cap"@),
        )
    } else if !model.terminals.dom().contains(request_id) {
        Some(
            (
                AgentErrorKind::Conflict,
                "ACP read_terminal request is unknown, expired, or already answered"@,
            ),
        )
    } else {
        None
    }
}

impl AcpClientExtensionRouter {
    /// Checks an answer against the read that waits for it, and returns it as it goes to the agent.
    /// The read goes on waiting until the answer is consumed.
    pub fn check_read_terminal_response(
        &self,
        bound_session_id: Option<&str>,
        response: &AcpReadTerminalResponseRequest,
    ) -> (r: Result<AcpReadTerminalResponseRequest, AgentError>)
        requires
            self.wf(),
        ensures
            match terminal_fault(self@, str_view(bound_session_id), response@) {
                Some(fault) => r matches Err(error) && error@ == fault,
                None => match terminal_response_redacted(response@) {
                    Some(redacted) => r matches Ok(answer) && answer@ == redacted,
                    None => r matches Err(error) && error@ == (
                        AgentErrorKind::Internal,
                        "ACP read_terminal redaction unavailable"@,
                    ),
                },
            },
    {
        if let Err(error) = validate_terminal_response_envelope(response) {
            return Err(error);
        }
        let pending = match self.pending_read(ReadKind::Terminal, response.request_id.as_str()) {
            Some(pending) => pending,
            None => {
                return Err(
                    AgentError::conflict(
                        "ACP read_terminal request is unknown, expired, or already answered",
                    ),
                );
            },
        };
        let bound = match bound_session_id {
            Some(bound) => same_text(bound, response.session_id.as_str()),
            None => false,
        };
        if !bound || !same_text(pending.session_id(), response.session_id.as_str()) {
            return Err(AgentError::conflict("ACP read_terminal session binding mismatch"));
        }
        let result = match &response.result {
            Some(result) => {
                if let Err(error) = validate_terminal_result(result, pending) {
                    return Err(error);
                }
                match redact_secret_text(result.text.as_str()) {
                    Some(text) => Some(
                        AcpReadTerminalResult {
                            total_lines: result.total_lines,
                            start: result.start,
                            end: result.end,
                            viewport_rows: result.viewport_rows,
                            cursor_row: result.cursor_row,
                            text,
                        },
                    ),
                    None => {
                        return Err(AgentError::internal("ACP read_terminal redaction unavailable"));
                    },
                }
            },
            None => None,
        };
        Ok(
            AcpReadTerminalResponseRequest {
                version: response.version.clone(),
                request_id: response.request_id.clone(),
                session_id: response.session_id.clone(),
                result,
            },
        )
    }

    /// Consumes an answer that was checked and takes `payload_bytes` on the wire: its read stops
    /// waiting.
    pub fn consume_read_terminal_response(&mut self, request_id: &str, payload_bytes: usize) -> (r:
        Result<(), AgentError>)
        requires
            old(self).wf(),
        ensures
            final(self).wf(),
            fault_of(r) == terminal_consumption_fault(old(self)@, request_id@, payload_bytes),
            final(self)@ == if r is Ok {
                old(self)@.without(ReadKind::Terminal, request_id@)
            } else {
                old(self)@
            },
    {
        if payload_bytes > MAX_RESPONSE_PAYLOAD_BYTES {
            return Err(
                AgentError::bad_request("ACP read_terminal response exceeds the payload cap"),
            );
        }
        if self.pending_read(ReadKind::Terminal, request_id).is_none() {
            return Err(
                AgentError::conflict(
                    "ACP read_terminal request is unknown, expired, or already answered",
                ),
            );
        }
        let _ = self.reject_pending(ReadKind::Terminal, request_id);
        Ok(())
    }
}

/// An answer is consumed at most once: after it was, the same answer is refused as unknown.
pub proof fn terminal_answer_is_consumed_once(
    model: ExtensionModel,
    bound: Option<Seq<char>>,
    response: TerminalResponseModel,
)
    requires
        terminal_fault(model, bound, response) is None,
    ensures
        terminal_fault(
            model.without(ReadKind::Terminal, response.request_id),
            bound,
            response,
        ) == Some(
            (
                AgentErrorKind::Conflict,
                "ACP read_terminal request is unknown, expired, or already answered"@,
            ),
        ),
{
}

/// An accepted answer holds no more lines than it says it spans, and spans no more than its read
/// asked for.
pub proof fn terminal_answer_stays_in_the_window(
    model: ExtensionModel,
    bound: Option<Seq<char>>,
    response: TerminalResponseModel,
)
    requires
        terminal_fault(model, bound, response) is None,
        response.result is Some,
        model.terminals[response.request_id].count is Some,
    ensures
        line_count(response.result->0.text) <= response.result->0.end - response.result->0.start,
        response.result->0.end - response.result->0.start
            <= model.terminals[response.request_id].count->0,
        response.result->0.end <= response.result->0.total_lines,
{
}

/// An answer goes only to the session that is bound and that asked.
pub proof fn terminal_answer_goes_to_its_session(
    model: ExtensionModel,
    bound: Option<Seq<char>>,
    response: TerminalResponseModel,
)
    requires
        terminal_fault(model, bound, response) is None,
    ensures
        bound == Some(response.session_id),
        model.waits(ReadKind::Terminal, response.request_id, response.session_id),
{
}

/// What goes to the agent of a terminal: its text with the secrets taken out, and everything else as
/// it was.
pub proof fn text_of_a_terminal_is_redacted(response: TerminalResponseModel)
    ensures
        response.result is None ==> terminal_response_redacted(response) == Some(response),
        response.result is Some ==> (terminal_response_redacted(response) is Some
            <==> secrets_redacted(response.result->0.text) is Some),
        response.result is Some && terminal_response_redacted(response) is Some ==> {
            let delivered = terminal_response_redacted(response)->0;
            &&& delivered.version == response.version
            &&& delivered.request_id == response.request_id
            &&& delivered.session_id == response.session_id
            &&& delivered.result is Some
            &&& Some(delivered.result->0.text) == secrets_redacted(response.result->0.text)
            &&& delivered.result->0.total_lines == response.result->0.total_lines
            &&& delivered.result->0.start == response.result->0.start
            &&& delivered.result->0.end == response.result->0.end
            &&& delivered.result->0.viewport_rows == response.result->0.viewport_rows
            &&& delivered.result->0.cursor_row == response.result->0.cursor_row
        },
{
}

/// A terminal's answer fits its read exactly where its text is of bounded length and free of control
/// characters but line feeds, carriage returns and tabs, its rows are in order within bounds, it
/// starts where the read asked or at the end of a shorter terminal, and it holds no more lines than
/// its rows say and the read asked for, which are those of the viewport where it asked for none.
pub proof fn terminal_fits_its_read(result: TerminalModel, pending: PendingModel)
    ensures
        terminal_result_fault(result, pending) is None <==> {
            let asked: u32 = match pending.count {
                Some(count) => count,
                None => result.viewport_rows,
            };
            &&& result.text.len() <= 24_000
            &&& forall|i: int|
                0 <= i < result.text.len() ==> {
                    ||| ' ' <= #[trigger] result.text[i] <= '~'
                    ||| '\u{a0}' <= result.text[i]
                    ||| result.text[i] == '\n'
                    ||| result.text[i] == '\r'
                    ||| result.text[i] == '\t'
                }
            &&& result.start <= result.end <= result.total_lines <= 10_000_000
            &&& result.cursor_row <= result.total_lines
            &&& 1 <= result.viewport_rows <= 24_000
            &&& (pending.start is Some && pending.start->0 <= result.total_lines ==> result.start
                == pending.start->0)
            &&& (pending.start is Some && pending.start->0 > result.total_lines ==> result.start
                == result.total_lines)
            &&& result.end - result.start <= asked
            &&& line_count(result.text) <= result.end - result.start
        },
{
}

/// How many lines a text has: none where it is empty, one where it holds no line feed, and one more
/// for every line that follows a line feed.
pub proof fn lines_are_counted(first: Seq<char>, second: Seq<char>)
    requires
        forall|i: int| 0 <= i < first.len() ==> #[trigger] first[i] != '\n',
    ensures
        line_count(Seq::<char>::empty()) == 0,
        first.len() > 0 ==> line_count(first) == 1,
        line_count(first.push('\n') + second) == 1 + line_count(second),
    decreases second.len(),
{
    lemma_no_line_feeds(first);
    let whole = first.push('\n') + second;
    if second.len() == 0 {
        assert(whole =~= first.push('\n'));
        assert(whole.drop_last() =~= first);
    } else {
        lines_are_counted(first, second.drop_last());
        lemma_line_feeds_add(first.push('\n'), second);
        assert(first.push('\n').drop_last() =~= first);
        assert(whole.last() == second.last());
    }
}

proof fn lemma_no_line_feeds(text: Seq<char>)
    requires
        forall|i: int| 0 <= i < text.len() ==> #[trigger] text[i] != '\n',
    ensures
        line_feeds(text) == 0,
    decreases text.len(),
{
    if text.len() > 0 {
        let front = text.drop_last();
        assert forall|i: int| 0 <= i < front.len() implies #[trigger] front[i] != '\n' by {
            assert(front[i] == text[i]);
        }
        lemma_no_line_feeds(front);
        assert(text[text.len() - 1] != '\n');
    }
}

proof fn lemma_line_feeds_add(first: Seq<char>, second: Seq<char>)
    ensures
        line_feeds(first + second) == line_feeds(first) + line_feeds(second),
    decreases second.len(),
{
    let whole = first + second;
    if second.len() == 0 {
        assert(whole =~= first);
    } else {
        lemma_line_feeds_add(first, second.drop_last());
        assert(whole.drop_last() =~= first + second.drop_last());
        assert(whole.last() == second.last());
    }
}

/// An answer is taken exactly where its envelope is right, its read waits, its session is the bound
/// one and the one that asked, and its result, if any, fits the read.
pub proof fn terminal_answer_is_taken(
    model: ExtensionModel,
    bound: Option<Seq<char>>,
    response: TerminalResponseModel,
)
    ensures
        terminal_fault(model, bound, response) is None <==> {
            &&& response.version == "command-eve-read-terminal/v1"@
            &&& is_identifier(response.request_id)
            &&& is_identifier(response.session_id)
            &&& model.terminals.dom().contains(response.request_id)
            &&& model.terminals[response.request_id].session_id == response.session_id
            &&& bound == Some(response.session_id)
            &&& (response.result is Some ==> terminal_result_fault(
                response.result->0,
                model.terminals[response.request_id],
            ) is None)
        },
{
}

/// A terminal's answer that is not taken is told the first thing that is wrong with it, as a bad
/// request where it could never be taken, and as a conflict where it does not fit the read that
/// waits.
pub proof fn refused_terminal_is_told_the_first_fault(
    model: ExtensionModel,
    bound: Option<Seq<char>>,
    response: TerminalResponseModel,
)
    ensures
        ({
            let fault = terminal_fault(model, bound, response);
            let bad = |text: Seq<char>| fault == Some((AgentErrorKind::BadRequest, text));
            let conflict = |text: Seq<char>| fault == Some((AgentErrorKind::Conflict, text));
            let current = response.version == "command-eve-read-terminal/v1"@;
            let named = current && is_identifier(response.request_id);
            let placed = named && is_identifier(response.session_id);
            let known = placed && model.terminals.dom().contains(response.request_id);
            let own = known && bound == Some(response.session_id)
                && model.terminals[response.request_id].session_id == response.session_id;
            &&& !current ==> bad("Unsupported ACP read_terminal response version"@)
            &&& current && !named ==> bad("Invalid ACP read_terminal request_id"@)
            &&& named && !placed ==> bad("Invalid ACP read_terminal session_id"@)
            &&& placed && !known ==> conflict(
                "ACP read_terminal request is unknown, expired, or already answered"@,
            )
            &&& known && !own ==> conflict("ACP read_terminal session binding mismatch"@)
            &&& own && response.result is Some ==> fault == terminal_result_fault(
                response.result->0,
                model.terminals[response.request_id],
            )
            &&& own && response.result is None ==> fault is None
        }),
{
}

/// What is wrong with the contents of a terminal is told of its text first, then of its offsets,
/// then of how it fits the read.
pub proof fn faulty_terminal_is_told_the_first_fault(result: TerminalModel, pending: PendingModel)
    ensures
        ({
            let fault = terminal_result_fault(result, pending);
            let bad = |text: Seq<char>| fault == Some((AgentErrorKind::BadRequest, text));
            let short = result.text.len() <= 24_000;
            let plain = short && !(exists|i: int|
                0 <= i < result.text.len() && is_unsupported(#[trigger] result.text[i]));
            let ordered = plain && result.start <= result.end <= result.total_lines <= 10_000_000
                && result.cursor_row <= result.total_lines && 1 <= result.viewport_rows <= 24_000;
            let placed = ordered && (pending.start is None || result.start == if pending.start->0
                <= result.total_lines {
                pending.start->0
            } else {
                result.total_lines
            });
            let asked = if pending.count is Some {
                pending.count->0
            } else {
                result.viewport_rows
            };
            &&& !short ==> bad("ACP read_terminal text exceeds the character cap"@)
            &&& short && !plain ==> bad(
                "ACP read_terminal text contains unsupported control characters"@,
            )
            &&& plain && !ordered ==> bad("ACP read_terminal result offsets are out of range"@)
            &&& ordered && !placed ==> fault == Some(
                (
                    AgentErrorKind::Conflict,
                    "ACP read_terminal result start does not match the request"@,
                ),
            )
            &&& placed && (result.end - result.start > asked || line_count(result.text) > result.end
                - result.start) ==> bad("ACP read_terminal result exceeds the requested window"@)
        }),
{
}

/// A character of a terminal's text is not supported exactly where it is a control character other
/// than those that end a line or set a column.
pub proof fn unsupported_characters(c: char)
    ensures
        is_unsupported(c) <==> (c as u32 <= 31 || 127 <= c as u32 <= 159) && c as u32 != 10 && c as u32
            != 13 && c as u32 != 9,
{
}

/// An answer is taken off the waiting reads exactly where it is small enough and its read waits, of
/// these in this order.
pub proof fn waiting_terminal_is_taken_off(
    model: ExtensionModel,
    request_id: Seq<char>,
    payload_bytes: usize,
)
    ensures
        ({
            let fault = terminal_consumption_fault(model, request_id, payload_bytes);
            let waits = model.terminals.dom().contains(request_id);
            &&& fault is None <==> payload_bytes <= 32768 && waits
            &&& payload_bytes > 32768 ==> fault == Some(
                (AgentErrorKind::BadRequest, "ACP read_terminal response exceeds the payload cap"@),
            )
            &&& payload_bytes <= 32768 && !waits ==> fault == Some(
                (
                    AgentErrorKind::Conflict,
                    "ACP read_terminal request is unknown, expired, or already answered"@,
                ),
            )
        }),
{
}

} // verus!
