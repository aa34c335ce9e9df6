//! The agent runtime's rules, as verified state machines and functions.
pub mod acp;
pub mod agent_reconcile;
pub mod async_completion;
pub mod classifier;
pub mod client_extensions;
pub mod completion_route;
pub mod correction_boundary;
pub mod error;
pub mod identifiers;
pub mod json;
pub mod outside;
pub mod permission_authority;
pub mod permission_event;
pub mod permission_operation;
pub mod permission_request;
pub mod permission_router;
pub mod process_registry;
pub mod project_runtime_fence;
pub mod prompt_admission;
pub mod prompt_route;
pub mod read_preview;
pub mod read_terminal;
pub mod redaction;
pub mod session;
pub mod session_context;
pub mod text;
pub mod text_map;
pub mod wire;
