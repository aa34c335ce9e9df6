//! The error that the library's operations report.
use vstd::prelude::*;

verus! {

/// What kind of failure an error is.
#[derive(Clone, Copy, Debug, PartialEq, Eq, Structural)]
pub enum AgentErrorKind {
    BadRequest,
    Conflict,
    BadGateway,
    Internal,
    Timeout,
}

/// A failure, with its message.
#[derive(Debug)]
pub struct AgentError {
    kind: AgentErrorKind,
    message: String,
}

impl View for AgentError {
    type V = (AgentErrorKind, Seq<char>);

    closed spec fn view(&self) -> (AgentErrorKind, Seq<char>) {
        (self.kind, self.message@)
    }
}

impl AgentError {
    pub fn new(kind: AgentErrorKind, message: &str) -> (r: Self)
        ensures
            r@ == (kind, message@),
    {
        AgentError { kind, message: message.to_owned() }
    }

    pub fn bad_request(message: &str) -> (r: Self)
        ensures
            r@ == (AgentErrorKind::BadRequest, message@),
    {
        AgentError::new(AgentErrorKind::BadRequest, message)
    }

    pub fn conflict(message: &str) -> (r: Self)
        ensures
            r@ == (AgentErrorKind::Conflict, message@),
    {
        AgentError::new(AgentErrorKind::Conflict, message)
    }

    pub fn bad_gateway(message: &str) -> (r: Self)
        ensures
            r@ == (AgentErrorKind::BadGateway, message@),
    {
        AgentError::new(AgentErrorKind::BadGateway, message)
    }

    pub fn internal(message: &str) -> (r: Self)
        ensures
            r@ == (AgentErrorKind::Internal, message@),
    {
        AgentError::new(AgentErrorKind::Internal, message)
    }

    pub fn timeout(message: &str) -> (r: Self)
        ensures
            r@ == (AgentErrorKind::Timeout, message@),
    {
        AgentError::new(AgentErrorKind::Timeout, message)
    }

    pub fn kind(&self) -> (r: AgentErrorKind)
        ensures
            r == self@.0,
    {
        self.kind
    }

    pub fn message(&self) -> (r: &str)
        ensures
            r@ == self@.1,
    {
        self.message.as_str()
    }
}

} // verus!
