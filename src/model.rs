//! Conversation entries as handed to the view-state engine.
use vstd::prelude::*;

verus! {

/// Stable unique identifier of a well-formed entry.
#[derive(Debug, Clone)]
pub struct EntryUuid {
    pub value: String,
}

impl EntryUuid {
    /// Builds an identifier; an empty string is refused.
    pub fn new(value: &str) -> (r: Option<Self>)
        ensures
            r.is_some() <==> value@.len() > 0,
            r.is_some() ==> r.unwrap().value@ == value@,
    {
        if value.unicode_len() == 0 {
            None
        } else {
            Some(EntryUuid { value: value.to_owned() })
        }
    }

    pub fn as_str(&self) -> (r: &str)
        ensures
            r@ == self.value@,
    {
        self.value.as_str()
    }

    /// Compares two identifiers by their text.
    pub fn same_as(&self, other: &EntryUuid) -> (r: bool)
        ensures
            r == (self.value@ == other.value@),
    {
        self.value == other.value
    }
}

/// One unit of content inside a well-formed entry.
#[derive(Debug, Clone)]
pub enum ContentBlock {
    /// Plain message text.
    Text { text: String },
    /// A tool invocation: the tool's name and its input as JSON text.
    ToolUse { name: String, input: String },
    /// The output of a tool invocation.
    ToolResult { content: String, is_error: bool },
    /// Model reasoning.
    Thinking { thinking: String },
}

/// A parsed entry that carries an identifier and content.
#[derive(Debug, Clone)]
pub struct LogEntry {
    pub uuid: EntryUuid,
    pub blocks: Vec<ContentBlock>,
}

/// A source line that could not be parsed.
#[derive(Debug, Clone)]
pub struct MalformedEntry {
    pub line_number: usize,
    pub message: String,
}

/// An entry of a conversation, well-formed or not.
#[derive(Debug, Clone)]
pub enum ConversationEntry {
    Valid(LogEntry),
    Malformed(MalformedEntry),
}

impl ConversationEntry {
    pub fn is_valid(&self) -> (r: bool)
        ensures
            r == (self is Valid),
    {
        match self {
            ConversationEntry::Valid(_) => true,
            ConversationEntry::Malformed(_) => false,
        }
    }

    /// The identifier of a well-formed entry.
    pub fn uuid(&self) -> (r: Option<&EntryUuid>)
        ensures
            self is Valid ==> r == Some(&self->Valid_0.uuid),
            self is Malformed ==> r.is_none(),
    {
        match self {
            ConversationEntry::Valid(e) => Some(&e.uuid),
            ConversationEntry::Malformed(_) => None,
        }
    }
}

} // verus!
