//! Chat rows, command arguments and UI event payloads.

use vstd::prelude::*;

verus! {

/// One message as the conversation builder consumes it.
pub struct ChatMsg {
    pub role: String,
    pub content: String,
    pub images: Vec<String>,
}

/// One chat in the chat list, with a content preview.
pub struct ChatListItem {
    pub id: String,
    pub title: String,
    pub updated_at: i64,
    pub preview: String,
}

/// One persisted message row.
pub struct ChatMessageRow {
    pub id: String,
    pub role: String,
    pub content: String,
    pub thinking: String,
    pub images: Vec<String>,
    pub created_at: i64,
    pub duration_ms: Option<i64>,
}

/// Arguments of a chat turn.
pub struct ChatStreamArgs {
    pub chat_id: String,
    pub prompt: String,
    pub images: Vec<String>,
}

/// Arguments of a chat rename.
pub struct RenameChatArgs {
    pub chat_id: String,
    pub title: String,
}

/// Arguments of a chat deletion.
pub struct DeleteChatArgs {
    pub chat_id: String,
}

/// Arguments of a title generation request.
pub struct GenerateTitleArgs {
    pub chat_id: String,
}

/// Emitted when a turn's stream opens.
pub struct ChatBeginPayload {
    pub chat_id: String,
}

/// Emitted for every incremental piece of visible or reasoning text.
pub struct ChatDeltaPayload {
    pub chat_id: String,
    pub delta: String,
    pub reasoning_delta: String,
}

/// Emitted when a turn ends, with its wall-clock duration.
pub struct ChatEndPayload {
    pub chat_id: String,
    pub duration_ms: i64,
}

/// Emitted when a tool call starts, with its argument text.
pub struct ToolCallingPayload {
    pub chat_id: String,
    pub tool_id: String,
    pub tool_name: String,
    pub call_id: String,
    pub arguments: String,
}

/// Emitted when a tool call finishes, with its outcome.
pub struct ToolResultPayload {
    pub chat_id: String,
    pub call_id: String,
    pub tool_id: String,
    pub success: bool,
    pub output: String,
    pub error: Option<String>,
}

} // verus!
