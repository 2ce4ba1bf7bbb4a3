//! The memory boundary: the short-term memory that the turn loop reads
//! and appends, and the data carried to a long-term store.
//!
//! Long-term storage itself — persistence, semantic search — suspends on
//! I/O and lives with the caller; the core only fixes the shapes handed
//! across. Timestamps are plain milliseconds so that the core stays
//! within integer arithmetic.

use vstd::prelude::*;

use crate::history::History;
use crate::history::context_ok;
use crate::types::Message;
use crate::types::MessageView;
use crate::types::messages_view;

verus! {

/// A question put to a long-term store: by meaning, by time, or by tag.
#[derive(Debug, Clone, PartialEq, Eq)]
pub enum MemoryQuery {
    Semantic { description: String, limit: usize },
    TimeRange { start_ms: u64, end_ms: u64 },
    ByTags(Vec<String>),
}

/// Where and when a remembered result came from.
#[derive(Debug, Clone, PartialEq, Eq)]
pub struct MemoryMetadata {
    pub timestamp_ms: u64,
    pub tags: Vec<String>,
    pub source: String,
}

/// One remembered result with its metadata.
#[derive(Debug, Clone, PartialEq, Eq)]
pub struct MemoryEntry {
    pub result: String,
    pub metadata: MemoryMetadata,
}

/// The conversation memory the turn loop works against: an ordered,
/// append-only history that can hand out a token-budgeted context view.
pub trait ShortTermMemory {
    /// The messages held, in insertion order.
    spec fn spec_messages(&self) -> Seq<MessageView>;

    /// Appends one message; nothing else changes.
    fn add_message(&mut self, message: Message)
        ensures
            final(self).spec_messages() == old(self).spec_messages().push(message@),
    ;

    /// The messages for one request, trimmed to the budget if one is
    /// given; the underlying history is untouched.
    fn get_context_messages(&self, max_tokens: Option<usize>) -> (r: Vec<Message>)
        ensures
            context_ok(self.spec_messages(), max_tokens, messages_view(r@)),
    ;
}

impl ShortTermMemory for History {
    open spec fn spec_messages(&self) -> Seq<MessageView> {
        self@
    }

    fn add_message(&mut self, message: Message) {
        History::add_message(self, message)
    }

    fn get_context_messages(&self, max_tokens: Option<usize>) -> (r: Vec<Message>) {
        History::get_context_messages(self, max_tokens)
    }
}

} // verus!
