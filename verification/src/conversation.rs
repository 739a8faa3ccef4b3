//! Building the conversation a completion request carries.
//!
//! Each turn rebuilds the conversation from persisted history: a system
//! message from the settings, then at most the last twenty history
//! messages, with image attachments turned into inline data-URL parts.

use vstd::prelude::*;

verus! {

use crate::chat::ChatMsg;
use crate::openai::{
    AssistantMessageWithToolCalls,
    ImageUrlData,
    OpenAIContent,
    OpenAIContentPart,
    OpenAIMessage,
    ToolResultMessage,
};

/// How many history messages a request keeps, counted from the end.
pub const MAX_HISTORY_MESSAGES: usize = 20;

/// One message of the conversation: a plain chat message, an assistant
/// message that requests tool calls, or a tool's result.
pub enum ConversationMessage {
    Standard(OpenAIMessage),
    AssistantWithTools(AssistantMessageWithToolCalls),
    ToolResult(ToolResultMessage),
}

/// The data URL of one base64 image attachment.
pub open spec fn spec_data_url(img: Seq<char>) -> Seq<char> {
    "data:image/jpeg;base64,"@ + img
}

/// Whether `m` is a plain text message with this role and content.
pub open spec fn is_text_message(m: ConversationMessage, role: Seq<char>, content: Seq<char>) -> bool {
    match m {
        ConversationMessage::Standard(om) => {
            &&& om.role@ == role
            &&& match om.content {
                OpenAIContent::Text(t) => t@ == content,
                _ => false,
            }
        },
        _ => false,
    }
}

/// Whether `m` is a multimodal message with this role, a leading text
/// part with this content, and one data-URL image part per attachment.
pub open spec fn is_image_message(
    m: ConversationMessage,
    role: Seq<char>,
    content: Seq<char>,
    images: Seq<Seq<char>>,
) -> bool {
    match m {
        ConversationMessage::Standard(om) => {
            &&& om.role@ == role
            &&& match om.content {
                OpenAIContent::Parts(parts) => {
                    &&& parts@.len() == 1 + images.len()
                    &&& match parts@[0] {
                        OpenAIContentPart::Text { text } => text@ == content,
                        _ => false,
                    }
                    &&& forall|j: int|
                        0 <= j < images.len() ==> match #[trigger] parts@[j + 1] {
                            OpenAIContentPart::ImageUrl { image_url } => image_url.url@
                                == spec_data_url(images[j]),
                            _ => false,
                        }
                },
                _ => false,
            }
        },
        _ => false,
    }
}

/// Whether the built message at position `i + 1` renders history message `m`.
pub open spec fn renders_history_message(out: ConversationMessage, m: ChatMsg) -> bool {
    if m.images@.len() == 0 {
        is_text_message(out, m.role@, m.content@)
    } else {
        is_image_message(out, m.role@, m.content@, m.images@.map_values(|s: String| s@))
    }
}

/// How many leading history messages the builder drops.
pub open spec fn spec_history_skip(len: int) -> int {
    if len > MAX_HISTORY_MESSAGES as int {
        len - MAX_HISTORY_MESSAGES as int
    } else {
        0
    }
}

/// The data URL of one base64 image attachment.
pub fn data_url(img: &str) -> (r: String)
    ensures
        r@ == spec_data_url(img@),
{
    let mut u = "data:image/jpeg;base64,".to_owned();
    u.append(img);
    u
}

/// Builds the conversation a turn starts from: one system message from
/// the prompt, then the last twenty (or fewer) history messages in order,
/// each a plain text message, or a multimodal one when it has images.
pub fn build_conversation(history: &Vec<ChatMsg>, system_prompt: &str) -> (out: Vec<
    ConversationMessage,
>)
    ensures
        out@.len() == 1 + (history@.len() as int - spec_history_skip(history@.len() as int)),
        is_text_message(out@[0], "system"@, system_prompt@),
        forall|i: int|
            0 <= i < out@.len() - 1 ==> renders_history_message(
                #[trigger] out@[i + 1],
                history@[spec_history_skip(history@.len() as int) + i],
            ),
{
    let mut out: Vec<ConversationMessage> = Vec::new();
    out.push(ConversationMessage::Standard(OpenAIMessage {
        role: "system".to_owned(),
        content: OpenAIContent::Text(system_prompt.to_owned()),
    }));
    let skip: usize = if history.len() > MAX_HISTORY_MESSAGES {
        history.len() - MAX_HISTORY_MESSAGES
    } else {
        0
    };
    let mut i: usize = skip;
    while i < history.len()
        invariant
            skip == spec_history_skip(history@.len() as int),
            skip <= i <= history@.len(),
            out@.len() == 1 + i - skip,
            is_text_message(out@[0], "system"@, system_prompt@),
            forall|k: int|
                0 <= k < out@.len() - 1 ==> renders_history_message(
                    #[trigger] out@[k + 1],
                    history@[skip + k],
                ),
        decreases history@.len() - i,
    {
        let m = &history[i];
        let msg = if m.images.len() == 0 {
            OpenAIMessage { role: m.role.clone(), content: OpenAIContent::Text(m.content.clone()) }
        } else {
            let mut parts: Vec<OpenAIContentPart> = Vec::new();
            parts.push(OpenAIContentPart::Text { text: m.content.clone() });
            let mut j: usize = 0;
            while j < m.images.len()
                invariant
                    0 <= j <= m.images@.len(),
                    parts@.len() == 1 + j,
                    match parts@[0] {
                        OpenAIContentPart::Text { text } => text@ == m.content@,
                        _ => false,
                    },
                    forall|t: int|
                        0 <= t < j ==> match #[trigger] parts@[t + 1] {
                            OpenAIContentPart::ImageUrl { image_url } => image_url.url@
                                == spec_data_url(m.images@.map_values(|s: String| s@)[t]),
                            _ => false,
                        },
                decreases m.images@.len() - j,
            {
                parts.push(OpenAIContentPart::ImageUrl {
                    image_url: ImageUrlData { url: data_url(m.images[j].as_str()) },
                });
                j += 1;
            }
            OpenAIMessage { role: m.role.clone(), content: OpenAIContent::Parts(parts) }
        };
        out.push(ConversationMessage::Standard(msg));
        i += 1;
    }
    out
}

} // verus!
