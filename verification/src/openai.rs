//! The wire messages of the completion protocol, as plain values.
//!
//! The shell that talks HTTP converts these to and from the provider's
//! JSON; the library's logic only ever sees the values themselves.

use vstd::prelude::*;

verus! {

/// One completion request.
pub struct OpenAIRequest {
    pub model: String,
    pub messages: Vec<crate::conversation::ConversationMessage>,
    pub stream: bool,
    pub max_tokens: u32,
    pub tools: Option<Vec<String>>,
}

/// One plain chat message of the request.
pub struct OpenAIMessage {
    pub role: String,
    pub content: OpenAIContent,
}

/// Message content: one text, or a list of multimodal parts.
pub enum OpenAIContent {
    Text(String),
    Parts(Vec<OpenAIContentPart>),
}

/// One multimodal content part.
pub enum OpenAIContentPart {
    Text { text: String },
    ImageUrl { image_url: ImageUrlData },
}

/// An inline image, as a data URL.
pub struct ImageUrlData {
    pub url: String,
}

/// One parsed streaming event body.
pub struct OpenAIStreamResponse {
    pub choices: Vec<OpenAIStreamChoice>,
}

/// One choice of a streaming event.
pub struct OpenAIStreamChoice {
    pub delta: OpenAIDelta,
}

/// The incremental fields one streaming event may carry.
pub struct OpenAIDelta {
    pub content: Option<String>,
    pub reasoning_content: Option<String>,
    pub tool_calls: Option<Vec<ToolCallDelta>>,
}

/// One non-streaming response body.
pub struct OpenAINonStreamResponse {
    pub choices: Vec<OpenAINonStreamChoice>,
}

/// One choice of a non-streaming response.
pub struct OpenAINonStreamChoice {
    pub message: OpenAINonStreamMessage,
}

/// The message of a non-streaming choice.
pub struct OpenAINonStreamMessage {
    pub content: Option<String>,
    pub reasoning_content: Option<String>,
}

/// One partial tool-call fragment as the completion stream delivers it:
/// any subset of the fields may be present, addressed by `index`.
pub struct ToolCallDelta {
    pub index: usize,
    pub id: Option<String>,
    pub function: Option<FunctionCallDelta>,
}

/// The function-call part of a tool-call delta.
pub struct FunctionCallDelta {
    pub name: Option<String>,
    pub arguments: Option<String>,
}

/// One complete tool call of an assistant message.
pub struct ToolCall {
    pub id: String,
    pub kind: String,
    pub function: FunctionCall,
}

/// The function invocation of a complete tool call.
pub struct FunctionCall {
    pub name: String,
    pub arguments: String,
}

/// An assistant message that requests tool calls.
pub struct AssistantMessageWithToolCalls {
    pub role: String,
    pub content: Option<String>,
    pub tool_calls: Vec<ToolCall>,
}

/// A tool's result fed back into the conversation.
pub struct ToolResultMessage {
    pub role: String,
    pub tool_call_id: String,
    pub content: String,
}

} // verus!
