//! The requests of an agent as they stand on the wire. A request is a record: an object that holds
//! its fields and nothing else, each once, or a list of all its fields in order.
use vstd::prelude::*;

use crate::client_extensions::{ReadModel, ReadRequest};
use crate::completion_route::{AcpAsyncCompletionRequest, CompletionModel};
use crate::correction_boundary::{BoundaryModel, BoundaryRequest};
use crate::json::{
    entry_value, json_entries, json_items, json_ref_view, lemma_json_entries, lemma_json_items, Json,
    JsonValue,
};
use crate::prompt_route::{
    CommandEvePromptAdmissionPhase, CommandEvePromptAdmissionWireRequest, WireModel,
};
use crate::text::{chars_of, number_of, parse_number, same_text};

verus! {

/// The shapes of the requests.
#[derive(Clone, Copy, Debug, PartialEq, Eq, Structural)]
pub enum WireShape {
    PromptAdmission,
    Read,
    AsyncCompletion,
    CorrectionBoundary,
}

impl WireShape {
    /// How many fields a request of this shape has.
    pub open spec fn field_count(self) -> nat {
        match self {
            WireShape::PromptAdmission => 6,
            WireShape::Read => 5,
            WireShape::AsyncCompletion => 4,
            WireShape::CorrectionBoundary => 3,
        }
    }

    /// The name of a field, by its position.
    pub open spec fn field_name(self, at: int) -> Seq<char> {
        match self {
            WireShape::PromptAdmission => if at == 0 {
                "version"@
            } else if at == 1 {
                "request_id"@
            } else if at == 2 {
                "turn_id"@
            } else if at == 3 {
                "receipt_sha256"@
            } else if at == 4 {
                "session_id"@
            } else {
                "phase"@
            },
            WireShape::Read => if at == 0 {
                "version"@
            } else if at == 1 {
                "request_id"@
            } else if at == 2 {
                "session_id"@
            } else if at == 3 {
                "start"@
            } else {
                "count"@
            },
            WireShape::AsyncCompletion => if at == 0 {
                "version"@
            } else if at == 1 {
                "completion_id"@
            } else if at == 2 {
                "session_id"@
            } else {
                "content"@
            },
            WireShape::CorrectionBoundary => if at == 0 {
                "version"@
            } else if at == 1 {
                "request_id"@
            } else {
                "session_id"@
            },
        }
    }

    /// Whether a request of this shape has a field of that name.
    pub open spec fn knows(self, name: Seq<char>) -> bool {
        exists|at: int| 0 <= at < self.field_count() && name == #[trigger] self.field_name(at)
    }

    fn count(self) -> (r: usize)
        ensures
            r == self.field_count(),
    {
        match self {
            WireShape::PromptAdmission => 6,
            WireShape::Read => 5,
            WireShape::AsyncCompletion => 4,
            WireShape::CorrectionBoundary => 3,
        }
    }

    fn name(self, at: usize) -> (r: &'static str)
        ensures
            r@ == self.field_name(at as int),
    {
        match self {
            WireShape::PromptAdmission => if at == 0 {
                "version"
            } else if at == 1 {
                "request_id"
            } else if at == 2 {
                "turn_id"
            } else if at == 3 {
                "receipt_sha256"
            } else if at == 4 {
                "session_id"
            } else {
                "phase"
            },
            WireShape::Read => if at == 0 {
                "version"
            } else if at == 1 {
                "request_id"
            } else if at == 2 {
                "session_id"
            } else if at == 3 {
                "start"
            } else {
                "count"
            },
            WireShape::AsyncCompletion => if at == 0 {
                "version"
            } else if at == 1 {
                "completion_id"
            } else if at == 2 {
                "session_id"
            } else {
                "content"
            },
            WireShape::CorrectionBoundary => if at == 0 {
                "version"
            } else if at == 1 {
                "request_id"
            } else {
                "session_id"
            },
        }
    }

    fn has_field(self, name: &str) -> (r: bool)
        ensures
            r == self.knows(name@),
    {
        let mut at: usize = 0;
        while at < self.count()
            invariant
                at <= self.field_count(),
                forall|i: int| 0 <= i < at ==> name@ != #[trigger] self.field_name(i),
            decreases self.field_count() - at,
        {
            if same_text(name, self.name(at)) {
                return true;
            }
            at = at + 1;
        }
        false
    }
}

/// Whether a value is a record of a shape.
pub open spec fn is_record(json: Json, shape: WireShape) -> bool {
    match json {
        Json::Object(entries) => are_fields(entries, shape),
        Json::Array(items) => items.len() == shape.field_count(),
        _ => false,
    }
}

/// Whether entries are fields of a shape, each once.
pub open spec fn are_fields(entries: Seq<(Seq<char>, Json)>, shape: WireShape) -> bool {
    &&& forall|i: int| 0 <= i < entries.len() ==> shape.knows((#[trigger] entries[i]).0)
    &&& forall|i: int, j: int|
        0 <= i < j < entries.len() ==> (#[trigger] entries[i]).0 != (#[trigger] entries[j]).0
}

/// The field of a record, by its position.
pub open spec fn record_field(json: Json, shape: WireShape, at: int) -> Option<Json> {
    match json {
        Json::Object(entries) => entry_value(entries, shape.field_name(at)),
        Json::Array(items) => if 0 <= at < items.len() {
            Some(items[at])
        } else {
            None
        },
        _ => None,
    }
}

/// The text of a field of a record.
pub open spec fn record_text(json: Json, shape: WireShape, at: int) -> Option<Seq<char>> {
    match record_field(json, shape, at) {
        Some(field) => field.text(),
        None => None,
    }
}

/// The number in a field of a record that may be left out; nothing where it holds something else.
pub open spec fn record_number(json: Json, shape: WireShape, at: int) -> Option<Option<u32>> {
    match record_field(json, shape, at) {
        None => Some(None),
        Some(Json::Null) => Some(None),
        Some(Json::Number(text)) => match number_of(text, 4_294_967_295) {
            Some(n) => Some(Some(n as u32)),
            None => None,
        },
        _ => None,
    }
}

fn check_record(value: &JsonValue, shape: WireShape) -> (r: bool)
    ensures
        r == is_record(value@, shape),
{
    match value {
        JsonValue::Object(entries) => {
            proof {
                lemma_json_entries(entries@);
            }
            let ghost model = json_entries(entries@);
            let mut i: usize = 0;
            while i < entries.len()
                invariant
                    value@ == Json::Object(model),
                    model.len() == entries@.len(),
                    forall|k: int|
                        0 <= k < entries@.len() ==> (#[trigger] model[k]).0 == entries@[k].0@,
                    i <= entries@.len(),
                    forall|k: int| 0 <= k < i ==> shape.knows((#[trigger] model[k]).0),
                    forall|k: int, l: int|
                        0 <= k < l < i ==> (#[trigger] model[k]).0 != (#[trigger] model[l]).0,
                decreases entries@.len() - i,
            {
                if !shape.has_field(entries[i].0.as_str()) {
                    assert(!shape.knows(model[i as int].0));
                    assert(!are_fields(model, shape));
                    return false;
                }
                let mut j: usize = 0;
                while j < i
                    invariant
                        value@ == Json::Object(model),
                        model.len() == entries@.len(),
                        forall|k: int|
                            0 <= k < entries@.len() ==> (#[trigger] model[k]).0 == entries@[k].0@,
                        j <= i < entries@.len(),
                        forall|k: int|
                            0 <= k < j ==> (#[trigger] model[k]).0 != model[i as int].0,
                    decreases i - j,
                {
                    if same_text(entries[j].0.as_str(), entries[i].0.as_str()) {
                        assert(model[j as int].0 == model[i as int].0);
                        assert(!are_fields(model, shape));
                        return false;
                    }
                    j = j + 1;
                }
                i = i + 1;
            }
            true
        },
        JsonValue::Array(items) => {
            proof {
                lemma_json_items(items@);
            }
            items.len() == shape.count()
        },
        _ => false,
    }
}

fn find_field(value: &JsonValue, shape: WireShape, at: usize) -> (r: Option<&JsonValue>)
    ensures
        json_ref_view(r) == record_field(value@, shape, at as int),
{
    match value {
        JsonValue::Object(_) => value.get(shape.name(at)),
        JsonValue::Array(items) => {
            proof {
                lemma_json_items(items@);
            }
            if at < items.len() {
                assert(json_items(items@)[at as int] == items@[at as int]@);
                Some(&items[at])
            } else {
                None
            }
        },
        _ => None,
    }
}

fn find_text(value: &JsonValue, shape: WireShape, at: usize) -> (r: Option<String>)
    ensures
        crate::text::text_view(r) == record_text(value@, shape, at as int),
{
    match find_field(value, shape, at) {
        Some(JsonValue::Text(text)) => Some(text.clone()),
        _ => None,
    }
}

fn find_number(value: &JsonValue, shape: WireShape, at: usize) -> (r: Option<Option<u32>>)
    ensures
        r == record_number(value@, shape, at as int),
{
    match find_field(value, shape, at) {
        None => Some(None),
        Some(JsonValue::Null) => Some(None),
        Some(JsonValue::Number(text)) => {
            let digits = chars_of(text.as_str());
            match parse_number(digits.as_slice(), 4_294_967_295) {
                Some(n) => Some(Some(n as u32)),
                None => None,
            }
        },
        _ => None,
    }
}

/// The read request that a value holds, if it holds one.
pub open spec fn read_request_of(json: Json) -> Option<ReadModel> {
    let shape = WireShape::Read;
    match (
        record_text(json, shape, 0),
        record_text(json, shape, 1),
        record_text(json, shape, 2),
        record_number(json, shape, 3),
        record_number(json, shape, 4),
    ) {
        (Some(version), Some(request_id), Some(session_id), Some(start), Some(count)) =>
            if is_record(json, shape) {
                Some(ReadModel { version, request_id, session_id, start, count })
            } else {
                None
            },
        _ => None,
    }
}

/// Reads a read request.
pub fn parse_read_request(value: &JsonValue) -> (r: Option<ReadRequest>)
    ensures
        match r {
            Some(request) => read_request_of(value@) == Some(request@),
            None => read_request_of(value@) is None,
        },
{
    let shape = WireShape::Read;
    if !check_record(value, shape) {
        return None;
    }
    match (
        find_text(value, shape, 0),
        find_text(value, shape, 1),
        find_text(value, shape, 2),
        find_number(value, shape, 3),
        find_number(value, shape, 4),
    ) {
        (Some(version), Some(request_id), Some(session_id), Some(start), Some(count)) => Some(
            ReadRequest { version, request_id, session_id, start, count },
        ),
        _ => None,
    }
}

/// The completion that a value holds, if it holds one.
pub open spec fn completion_of(json: Json) -> Option<CompletionModel> {
    let shape = WireShape::AsyncCompletion;
    match (
        record_text(json, shape, 0),
        record_text(json, shape, 1),
        record_text(json, shape, 2),
        record_text(json, shape, 3),
    ) {
        (Some(version), Some(completion_id), Some(session_id), Some(content)) => if is_record(
            json,
            shape,
        ) {
            Some(CompletionModel { version, completion_id, session_id, content })
        } else {
            None
        },
        _ => None,
    }
}

/// Reads a completion.
pub fn parse_completion(value: &JsonValue) -> (r: Option<AcpAsyncCompletionRequest>)
    ensures
        match r {
            Some(request) => completion_of(value@) == Some(request@),
            None => completion_of(value@) is None,
        },
{
    let shape = WireShape::AsyncCompletion;
    if !check_record(value, shape) {
        return None;
    }
    match (
        find_text(value, shape, 0),
        find_text(value, shape, 1),
        find_text(value, shape, 2),
        find_text(value, shape, 3),
    ) {
        (Some(version), Some(completion_id), Some(session_id), Some(content)) => Some(
            AcpAsyncCompletionRequest { version, completion_id, session_id, content },
        ),
        _ => None,
    }
}

/// The correction boundary request that a value holds, if it holds one.
pub open spec fn boundary_request_of(json: Json) -> Option<BoundaryModel> {
    let shape = WireShape::CorrectionBoundary;
    match (
        record_text(json, shape, 0),
        record_text(json, shape, 1),
        record_text(json, shape, 2),
    ) {
        (Some(version), Some(request_id), Some(session_id)) => if is_record(json, shape) {
            Some(BoundaryModel { version, request_id, session_id })
        } else {
            None
        },
        _ => None,
    }
}

/// Reads a correction boundary request.
pub fn parse_boundary_request(value: &JsonValue) -> (r: Option<BoundaryRequest>)
    ensures
        match r {
            Some(request) => boundary_request_of(value@) == Some(request@),
            None => boundary_request_of(value@) is None,
        },
{
    let shape = WireShape::CorrectionBoundary;
    if !check_record(value, shape) {
        return None;
    }
    match (
        find_text(value, shape, 0),
        find_text(value, shape, 1),
        find_text(value, shape, 2),
    ) {
        (Some(version), Some(request_id), Some(session_id)) => Some(
            BoundaryRequest { version, request_id, session_id },
        ),
        _ => None,
    }
}

/// The phase of a name.
pub open spec fn phase_named(name: Seq<char>) -> Option<CommandEvePromptAdmissionPhase> {
    if name == "accept"@ {
        Some(CommandEvePromptAdmissionPhase::Accept)
    } else if name == "commit"@ {
        Some(CommandEvePromptAdmissionPhase::Commit)
    } else if name == "finalize"@ {
        Some(CommandEvePromptAdmissionPhase::Finalize)
    } else if name == "ack"@ {
        Some(CommandEvePromptAdmissionPhase::Ack)
    } else {
        None
    }
}

/// The phase that a value names: by itself, or as the one key of an object that holds null.
pub open spec fn phase_of(json: Json) -> Option<CommandEvePromptAdmissionPhase> {
    match json {
        Json::Text(name) => phase_named(name),
        Json::Object(entries) => if entries.len() == 1 && entries[0].1 is Null {
            phase_named(entries[0].0)
        } else {
            None
        },
        _ => None,
    }
}

fn parse_phase_name(name: &str) -> (r: Option<CommandEvePromptAdmissionPhase>)
    ensures
        r == phase_named(name@),
{
    if same_text(name, "accept") {
        Some(CommandEvePromptAdmissionPhase::Accept)
    } else if same_text(name, "commit") {
        Some(CommandEvePromptAdmissionPhase::Commit)
    } else if same_text(name, "finalize") {
        Some(CommandEvePromptAdmissionPhase::Finalize)
    } else if same_text(name, "ack") {
        Some(CommandEvePromptAdmissionPhase::Ack)
    } else {
        None
    }
}

fn parse_phase(value: &JsonValue) -> (r: Option<CommandEvePromptAdmissionPhase>)
    ensures
        r == phase_of(value@),
{
    match value {
        JsonValue::Text(name) => parse_phase_name(name.as_str()),
        JsonValue::Object(entries) => {
            proof {
                lemma_json_entries(entries@);
            }
            if entries.len() != 1 {
                return None;
            }
            assert(json_entries(entries@)[0] == (entries@[0].0@, entries@[0].1@));
            match &entries[0].1 {
                JsonValue::Null => parse_phase_name(entries[0].0.as_str()),
                _ => None,
            }
        },
        _ => None,
    }
}

/// The prompt admission request that a value holds, if it holds one.
pub open spec fn wire_request_of(json: Json) -> Option<WireModel> {
    let shape = WireShape::PromptAdmission;
    match (
        record_text(json, shape, 0),
        record_text(json, shape, 1),
        record_text(json, shape, 2),
        record_text(json, shape, 3),
        record_text(json, shape, 4),
        record_field(json, shape, 5),
    ) {
        (
            Some(version),
            Some(request_id),
            Some(turn_id),
            Some(receipt_sha256),
            Some(session_id),
            Some(phase),
        ) => if is_record(json, shape) {
            match phase_of(phase) {
                Some(phase) => Some(
                    WireModel { version, request_id, turn_id, receipt_sha256, session_id, phase },
                ),
                None => None,
            }
        } else {
            None
        },
        _ => None,
    }
}

/// Reads a prompt admission request.
pub fn parse_wire_request(value: &JsonValue) -> (r: Option<CommandEvePromptAdmissionWireRequest>)
    ensures
        match r {
            Some(request) => wire_request_of(value@) == Some(request@),
            None => wire_request_of(value@) is None,
        },
{
    let shape = WireShape::PromptAdmission;
    if !check_record(value, shape) {
        return None;
    }
    match (
        find_text(value, shape, 0),
        find_text(value, shape, 1),
        find_text(value, shape, 2),
        find_text(value, shape, 3),
        find_text(value, shape, 4),
        find_field(value, shape, 5),
    ) {
        (
            Some(version),
            Some(request_id),
            Some(turn_id),
            Some(receipt_sha256),
            Some(session_id),
            Some(phase),
        ) => match parse_phase(phase) {
            Some(phase) => Some(
                CommandEvePromptAdmissionWireRequest {
                    version,
                    request_id,
                    turn_id,
                    receipt_sha256,
                    session_id,
                    phase,
                },
            ),
            None => None,
        },
        _ => None,
    }
}

/// A request with a field that its shape does not know, or with the same field twice, is refused.
pub proof fn inexact_record_is_refused(entries: Seq<(Seq<char>, Json)>, shape: WireShape, i: int, j: int)
    requires
        0 <= i < entries.len(),
        0 <= j < entries.len(),
        !shape.knows(entries[i].0) || (i < j && entries[i].0 == entries[j].0),
    ensures
        shape == WireShape::PromptAdmission ==> wire_request_of(Json::Object(entries)) is None,
        shape == WireShape::Read ==> read_request_of(Json::Object(entries)) is None,
        shape == WireShape::AsyncCompletion ==> completion_of(Json::Object(entries)) is None,
        shape == WireShape::CorrectionBoundary ==> boundary_request_of(
            Json::Object(entries),
        ) is None,
{
    assert(!are_fields(entries, shape));
}

/// The fields of each record have these names, and no others are known.
pub proof fn names_of_the_fields(name: Seq<char>)
    ensures
        WireShape::PromptAdmission.knows(name) <==> name == "version"@ || name == "request_id"@
            || name == "turn_id"@ || name == "receipt_sha256"@ || name == "session_id"@ || name
            == "phase"@,
        WireShape::Read.knows(name) <==> name == "version"@ || name == "request_id"@ || name
            == "session_id"@ || name == "start"@ || name == "count"@,
        WireShape::AsyncCompletion.knows(name) <==> name == "version"@ || name == "completion_id"@
            || name == "session_id"@ || name == "content"@,
        WireShape::CorrectionBoundary.knows(name) <==> name == "version"@ || name == "request_id"@
            || name == "session_id"@,
{
    let admission = WireShape::PromptAdmission;
    assert(admission.field_name(0) == "version"@ && admission.field_name(1) == "request_id"@
        && admission.field_name(2) == "turn_id"@ && admission.field_name(3) == "receipt_sha256"@
        && admission.field_name(4) == "session_id"@ && admission.field_name(5) == "phase"@);
    let read = WireShape::Read;
    assert(read.field_name(0) == "version"@ && read.field_name(1) == "request_id"@
        && read.field_name(2) == "session_id"@ && read.field_name(3) == "start"@
        && read.field_name(4) == "count"@);
    let completion = WireShape::AsyncCompletion;
    assert(completion.field_name(0) == "version"@ && completion.field_name(1) == "completion_id"@
        && completion.field_name(2) == "session_id"@ && completion.field_name(3) == "content"@);
    let boundary = WireShape::CorrectionBoundary;
    assert(boundary.field_name(0) == "version"@ && boundary.field_name(1) == "request_id"@
        && boundary.field_name(2) == "session_id"@);
}

/// A record in an object is taken exactly where it has only fields that are known, each once.
pub proof fn known_fields_come_once(entries: Seq<(Seq<char>, Json)>, shape: WireShape)
    ensures
        is_record(Json::Object(entries), shape) <==> (forall|i: int|
            0 <= i < entries.len() ==> shape.knows((#[trigger] entries[i]).0)) && (forall|
            i: int,
            j: int,
        |
            0 <= i < entries.len() && 0 <= j < entries.len() && (#[trigger] entries[i]).0 == (
            #[trigger] entries[j]).0 ==> i == j),
        forall|text: Seq<char>| !#[trigger] is_record(Json::Text(text), shape),
        !is_record(Json::Null, shape),
{
    if forall|i: int, j: int|
        0 <= i < entries.len() && 0 <= j < entries.len() && (#[trigger] entries[i]).0 == (
        #[trigger] entries[j]).0 ==> i == j {
        assert forall|i: int, j: int| 0 <= i < j < entries.len() implies (#[trigger] entries[i]).0
            != (#[trigger] entries[j]).0 by {}
    }
}

/// A record may also come as the list of its fields in their order, each of them there.
pub proof fn records_may_come_as_lists(items: Seq<Json>)
    ensures
        is_record(Json::Array(items), WireShape::PromptAdmission) <==> items.len() == 6,
        is_record(Json::Array(items), WireShape::Read) <==> items.len() == 5,
        is_record(Json::Array(items), WireShape::AsyncCompletion) <==> items.len() == 4,
        is_record(Json::Array(items), WireShape::CorrectionBoundary) <==> items.len() == 3,
        completion_of(Json::Array(items)) matches Some(completion) ==> items == seq![
            Json::Text(completion.version),
            Json::Text(completion.completion_id),
            Json::Text(completion.session_id),
            Json::Text(completion.content),
        ],
        boundary_request_of(Json::Array(items)) matches Some(boundary) ==> items == seq![
            Json::Text(boundary.version),
            Json::Text(boundary.request_id),
            Json::Text(boundary.session_id),
        ],
        read_request_of(Json::Array(items)) matches Some(read) ==> items.len() == 5 && items[0]
            == Json::Text(read.version) && items[1] == Json::Text(read.request_id) && items[2]
            == Json::Text(read.session_id) && number_in(items[3]) == Some(read.start) && number_in(
            items[4],
        ) == Some(read.count),
        wire_request_of(Json::Array(items)) matches Some(wire) ==> items.len() == 6 && items[0]
            == Json::Text(wire.version) && items[1] == Json::Text(wire.request_id) && items[2]
            == Json::Text(wire.turn_id) && items[3] == Json::Text(wire.receipt_sha256) && items[4]
            == Json::Text(wire.session_id) && phase_of(items[5]) == Some(wire.phase),
{
    if completion_of(Json::Array(items)) is Some {
        let completion = completion_of(Json::Array(items))->0;
        assert(items =~= seq![
            Json::Text(completion.version),
            Json::Text(completion.completion_id),
            Json::Text(completion.session_id),
            Json::Text(completion.content),
        ]);
    }
    if boundary_request_of(Json::Array(items)) is Some {
        let boundary = boundary_request_of(Json::Array(items))->0;
        assert(items =~= seq![
            Json::Text(boundary.version),
            Json::Text(boundary.request_id),
            Json::Text(boundary.session_id),
        ]);
    }
}

/// The number that a field holds, where it holds one or nothing.
pub open spec fn number_in(field: Json) -> Option<Option<u32>> {
    if field is Null {
        Some(None)
    } else if field is Number && number_of(field->Number_0, 4_294_967_295) is Some {
        Some(Some(number_of(field->Number_0, 4_294_967_295)->0 as u32))
    } else {
        None
    }
}

/// A completion and a boundary request in an object are read by the names of their fields, each of
/// which has to hold a string.
pub proof fn completion_and_boundary_are_read_by_name(entries: Seq<(Seq<char>, Json)>)
    ensures
        ({
            let json = Json::Object(entries);
            let shape = WireShape::AsyncCompletion;
            let whole = is_record(json, shape) && json.field_text("version"@) is Some
                && json.field_text("completion_id"@) is Some && json.field_text("session_id"@)
                is Some && json.field_text("content"@) is Some;
            &&& completion_of(json) is Some <==> whole
            &&& whole ==> completion_of(json)->0 == (CompletionModel {
                version: json.field_text("version"@)->0,
                completion_id: json.field_text("completion_id"@)->0,
                session_id: json.field_text("session_id"@)->0,
                content: json.field_text("content"@)->0,
            })
        }),
        ({
            let json = Json::Object(entries);
            let shape = WireShape::CorrectionBoundary;
            let whole = is_record(json, shape) && json.field_text("version"@) is Some
                && json.field_text("request_id"@) is Some && json.field_text("session_id"@) is Some;
            &&& boundary_request_of(json) is Some <==> whole
            &&& whole ==> boundary_request_of(json)->0 == (BoundaryModel {
                version: json.field_text("version"@)->0,
                request_id: json.field_text("request_id"@)->0,
                session_id: json.field_text("session_id"@)->0,
            })
        }),
{
}

/// A request to read and a request for a phase in an object are read by the names of their fields.
/// The bounds of a read may be left out, and are numbers where they are there.
pub proof fn read_and_phase_are_read_by_name(entries: Seq<(Seq<char>, Json)>)
    ensures
        ({
            let json = Json::Object(entries);
            let start = match json.field("start"@) {
                Some(field) => number_in(field),
                None => Some(None),
            };
            let count = match json.field("count"@) {
                Some(field) => number_in(field),
                None => Some(None),
            };
            let whole = is_record(json, WireShape::Read) && json.field_text("version"@) is Some
                && json.field_text("request_id"@) is Some && json.field_text("session_id"@) is Some
                && start is Some && count is Some;
            &&& read_request_of(json) is Some <==> whole
            &&& whole ==> read_request_of(json)->0 == (ReadModel {
                version: json.field_text("version"@)->0,
                request_id: json.field_text("request_id"@)->0,
                session_id: json.field_text("session_id"@)->0,
                start: start->0,
                count: count->0,
            })
        }),
        ({
            let json = Json::Object(entries);
            let whole = is_record(json, WireShape::PromptAdmission) && json.field_text("version"@)
                is Some && json.field_text("request_id"@) is Some && json.field_text("turn_id"@)
                is Some && json.field_text("receipt_sha256"@) is Some && json.field_text(
                "session_id"@,
            ) is Some && json.field("phase"@) is Some && phase_of(json.field("phase"@)->0) is Some;
            &&& wire_request_of(json) is Some <==> whole
            &&& whole ==> wire_request_of(json)->0 == (WireModel {
                version: json.field_text("version"@)->0,
                request_id: json.field_text("request_id"@)->0,
                turn_id: json.field_text("turn_id"@)->0,
                receipt_sha256: json.field_text("receipt_sha256"@)->0,
                session_id: json.field_text("session_id"@)->0,
                phase: phase_of(json.field("phase"@)->0)->0,
            })
        }),
{
}

/// The phases have these names, and no other name is one. A phase may also come as an object with
/// its name alone, that holds nothing.
pub proof fn names_of_the_phases(name: Seq<char>, value: Json)
    ensures
        phase_of(Json::Text(name)) == Some(CommandEvePromptAdmissionPhase::Accept) <==> name
            == "accept"@,
        phase_of(Json::Text(name)) == Some(CommandEvePromptAdmissionPhase::Commit) <==> name
            == "commit"@,
        phase_of(Json::Text(name)) == Some(CommandEvePromptAdmissionPhase::Finalize) <==> name
            == "finalize"@,
        phase_of(Json::Text(name)) == Some(CommandEvePromptAdmissionPhase::Ack) <==> name == "ack"@,
        phase_of(Json::Text(name)) is Some ==> name == "accept"@ || name == "commit"@ || name
            == "finalize"@ || name == "ack"@,
        phase_of(Json::Object(seq![(name, value)])) == if value is Null {
            phase_of(Json::Text(name))
        } else {
            None
        },
        forall|entries: Seq<(Seq<char>, Json)>|
            entries.len() != 1 ==> #[trigger] phase_of(Json::Object(entries)) is None,
{
    reveal_strlit("accept");
    reveal_strlit("commit");
    reveal_strlit("finalize");
    reveal_strlit("ack");
    assert("accept"@.len() == 6 && "commit"@.len() == 6 && "finalize"@.len() == 8 && "ack"@.len()
        == 3);
    assert("accept"@[0] == 'a' && "commit"@[0] == 'c');
}

} // verus!
