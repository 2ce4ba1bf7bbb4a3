//! Core of a conversational agent that drives a turn loop against a model
//! provider and a set of registered tools.
//!
//! The crate holds the verified logic only: the message history with its
//! token-budgeted view, the translation of provider payloads into decisions,
//! the reconciliation of a tool-call batch into per-call results, and the
//! turn-handling state machine. Network transport and asynchronous plumbing
//! live with the caller, which drives the state machine with the events it
//! observes.

pub mod agent;
pub mod history;
pub mod memory;
pub mod protocol;
pub mod tools;
pub mod types;

pub use agent::Agent;
pub use agent::TurnPhase;
pub use agent::TurnStep;
pub use history::History;
pub use memory::MemoryEntry;
pub use memory::MemoryMetadata;
pub use memory::MemoryQuery;
pub use memory::ShortTermMemory;
pub use tools::ToolSpec;

pub use types::AgentConfig;
pub use types::AgentError;
pub use types::AgentState;
pub use types::Decision;
pub use types::Message;
pub use types::RetryConfig;
pub use types::ToolCall;
pub use types::ToolCallArgs;
pub use types::ToolCalls;
pub use types::ToolExecutionResult;
