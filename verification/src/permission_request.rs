//! A request of an agent for permission to run a tool.
use vstd::prelude::*;

use crate::json::{json_view, Json, JsonValue};
use crate::text::text_view;

verus! {

/// What a tool does.
#[derive(Debug, Clone, Copy, PartialEq, Eq, Structural)]
pub enum ToolKind {
    Read,
    Edit,
    Delete,
    Move,
    Search,
    Execute,
    Think,
    Fetch,
    SwitchMode,
    Other,
}

/// How far an answer reaches.
#[derive(Debug, Clone, Copy, PartialEq, Eq, Structural)]
pub enum PermissionOptionKind {
    AllowOnce,
    AllowAlways,
    RejectOnce,
    RejectAlways,
}

/// One of the answers that a request offers.
#[derive(Debug)]
pub struct PermissionOption {
    pub option_id: String,
    pub name: String,
    pub kind: PermissionOptionKind,
}

/// An answer, as text.
pub struct OptionModel {
    pub option_id: Seq<char>,
    pub name: Seq<char>,
    pub kind: PermissionOptionKind,
}

impl View for PermissionOption {
    type V = OptionModel;

    open spec fn view(&self) -> OptionModel {
        OptionModel { option_id: self.option_id@, name: self.name@, kind: self.kind }
    }
}

impl PermissionOption {
    pub fn new(option_id: &str, name: &str, kind: PermissionOptionKind) -> (r: Self)
        ensures
            r@ == (OptionModel { option_id: option_id@, name: name@, kind }),
    {
        PermissionOption { option_id: option_id.to_owned(), name: name.to_owned(), kind }
    }
}

impl Clone for PermissionOption {
    fn clone(&self) -> (r: Self)
        ensures
            r@ == self@,
    {
        PermissionOption {
            option_id: self.option_id.clone(),
            name: self.name.clone(),
            kind: self.kind,
        }
    }
}

/// The tool call that a request is about.
#[derive(Debug)]
pub struct ToolCallUpdate {
    pub tool_call_id: String,
    pub kind: Option<ToolKind>,
    pub title: Option<String>,
    pub raw_input: Option<JsonValue>,
}

/// A request for permission.
#[derive(Debug)]
pub struct RequestPermissionRequest {
    pub session_id: String,
    pub tool_call: ToolCallUpdate,
    pub options: Vec<PermissionOption>,
}

/// What a request says.
pub struct PermissionRequestModel {
    pub session_id: Seq<char>,
    pub call_id: Seq<char>,
    pub kind: Option<ToolKind>,
    pub title: Option<Seq<char>>,
    pub raw_input: Option<Json>,
    pub options: Seq<OptionModel>,
}

/// The answers of a list, as text.
pub open spec fn options_view(options: Seq<PermissionOption>) -> Seq<OptionModel> {
    options.map_values(|option: PermissionOption| option@)
}

impl View for RequestPermissionRequest {
    type V = PermissionRequestModel;

    open spec fn view(&self) -> PermissionRequestModel {
        PermissionRequestModel {
            session_id: self.session_id@,
            call_id: self.tool_call.tool_call_id@,
            kind: self.tool_call.kind,
            title: text_view(self.tool_call.title),
            raw_input: json_view(self.tool_call.raw_input),
            options: options_view(self.options@),
        }
    }
}

} // verus!
