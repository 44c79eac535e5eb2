//! Conversations and their messages as they are kept.

use crate::text::chars_of;
use crate::vocabulary::reads;
use vstd::prelude::*;

verus! {

#[derive(Debug, Clone)]
pub struct Conversation {
    pub id: String,
    pub title: String,
    pub subject: String,
    pub grade: String,
    pub created_at: String,
    pub updated_at: String,
}

#[derive(Debug, Clone)]
pub struct ChatMessage {
    pub id: String,
    pub conversation_id: String,
    pub role: MessageRole,
    pub content: String,
    pub choices: Option<Vec<ChoiceOption>>,
    pub metadata: Option<serde_json::Value>,
    pub created_at: String,
}

/// Who speaks in a message.
#[derive(Debug, Clone, Copy)]
pub enum MessageRole {
    User,
    Assistant,
    System,
}

#[derive(Debug, Clone)]
pub struct ChoiceOption {
    pub id: String,
    pub label: String,
    pub description: Option<String>,
    pub icon: Option<String>,
    pub action: Option<String>,
}

#[derive(Debug, Clone)]
pub struct MessageMetadata {
    pub message_type: Option<String>,
    pub requires_follow_up: bool,
    pub context_data: Option<serde_json::Value>,
}

/// The name under which a role is written down: the role in lower case.
pub open spec fn role_name(role: MessageRole) -> Seq<char> {
    match role {
        MessageRole::User => "user"@,
        MessageRole::Assistant => "assistant"@,
        MessageRole::System => "system"@,
    }
}

/// The role that is written down as `name`, if there is one.
pub open spec fn role_named(name: Seq<char>) -> Option<MessageRole> {
    if name == "user"@ {
        Some(MessageRole::User)
    } else if name == "assistant"@ {
        Some(MessageRole::Assistant)
    } else if name == "system"@ {
        Some(MessageRole::System)
    } else {
        None
    }
}

/// A role is read back from its name.
pub proof fn lemma_role_is_read_back(role: MessageRole)
    ensures
        role_named(role_name(role)) == Some(role),
{
    reveal_strlit("user");
    reveal_strlit("assistant");
    reveal_strlit("system");
    assert("user"@.len() != "assistant"@.len());
    assert("user"@.len() != "system"@.len());
    assert("assistant"@.len() != "system"@.len());
}

impl MessageRole {
    /// The name under which the role is written down.
    pub fn name(&self) -> (out: String)
        ensures
            out@ == role_name(*self),
    {
        match self {
            MessageRole::User => String::from_str("user"),
            MessageRole::Assistant => String::from_str("assistant"),
            MessageRole::System => String::from_str("system"),
        }
    }

    /// The role that is written down as `name`; none for any other text.
    pub fn from_name(name: &str) -> (out: Option<MessageRole>)
        ensures
            out == role_named(name@),
    {
        let text = chars_of(name);
        if reads(&text, "user") {
            Some(MessageRole::User)
        } else if reads(&text, "assistant") {
            Some(MessageRole::Assistant)
        } else if reads(&text, "system") {
            Some(MessageRole::System)
        } else {
            None
        }
    }
}

} // verus!
