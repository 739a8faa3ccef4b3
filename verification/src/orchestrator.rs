//! The chat-completion turn: accumulating streamed deltas, reconstructing
//! tool calls, and driving the bounded tool-calling loop.
//!
//! The shell opens the streams, parses the wire events into plain values
//! and runs the tools; every decision — what to append where, when to
//! emit, when to run tools, and when the turn is over — is taken here.

use vstd::prelude::*;

verus! {

use crate::chat::{ChatDeltaPayload, ToolResultPayload};
use crate::conversation::ConversationMessage;
use crate::openai::{
    AssistantMessageWithToolCalls,
    FunctionCall,
    OpenAIStreamResponse,
    ToolCall,
    ToolResultMessage,
};
use crate::text::concat_str;
use crate::toolcall::{
    accumulated,
    AccumulatedToolCall,
    apply_tool_call_delta,
    ToolCallModel,
};
use crate::tools::ToolCallResult;

/// The hard ceiling on completion streams per turn: a runaway tool cycle
/// stops silently after this many rounds, keeping the text gathered so
/// far as the best answer.
pub const MAX_TOOL_ITERATIONS: usize = 10;

/// What the turn does next after a decision point.
#[derive(PartialEq, Eq, Structural, Clone, Copy, Debug)]
pub enum NextStep {
    OpenStream,
    FinishTurn,
}

/// One chat turn in flight: the conversation sent with each request, the
/// text accumulators, the tool calls reconstructed from the current
/// stream, and the flags that end the turn.
pub struct TurnState {
    pub chat_id: String,
    pub conversation: Vec<ConversationMessage>,
    pub requests_sent: usize,
    pub full_content: String,
    pub full_thinking: String,
    pub iter_content: String,
    pub iter_thinking: String,
    pub tool_calls: Vec<AccumulatedToolCall>,
    pub cancelled: bool,
    pub finished: bool,
}

/// The model of the reconstructed tool calls of the current stream.
pub open spec fn calls_model(calls: Seq<AccumulatedToolCall>) -> Seq<ToolCallModel> {
    calls.map_values(|c: AccumulatedToolCall| c@)
}

/// Whether `m` is the assistant message that carries the given free text
/// (absent when empty) and exactly these tool calls, in order.
pub open spec fn is_assistant_tools_message(
    m: ConversationMessage,
    text: Seq<char>,
    calls: Seq<ToolCallModel>,
) -> bool {
    match m {
        ConversationMessage::AssistantWithTools(am) => {
            &&& am.role@ == "assistant"@
            &&& if text.len() == 0 {
                am.content is None
            } else {
                am.content matches Some(t) && t@ == text
            }
            &&& am.tool_calls@.len() == calls.len()
            &&& forall|j: int|
                0 <= j < calls.len() ==> {
                    &&& (#[trigger] am.tool_calls@[j]).id@ == calls[j].id
                    &&& am.tool_calls@[j].kind@ == "function"@
                    &&& am.tool_calls@[j].function.name@ == calls[j].name
                    &&& am.tool_calls@[j].function.arguments@ == calls[j].arguments
                }
        },
        _ => false,
    }
}

/// Whether `m` is the tool-result message for this call id and content.
pub open spec fn is_tool_result_message(
    m: ConversationMessage,
    call_id: Seq<char>,
    content: Seq<char>,
) -> bool {
    match m {
        ConversationMessage::ToolResult(tm) => {
            &&& tm.role@ == "tool"@
            &&& tm.tool_call_id@ == call_id
            &&& tm.content@ == content
        },
        _ => false,
    }
}

/// The conversation text a tool's outcome feeds back: its output on
/// success, an error line otherwise.
pub open spec fn spec_tool_result_content(result: ToolCallResult) -> Seq<char> {
    if result.success {
        result.output@
    } else {
        "Error: "@ + match result.error {
            Some(e) => e@,
            None => Seq::<char>::empty(),
        }
    }
}

impl TurnState {
    /// The turn never opens more than the bounded number of streams.
    pub open spec fn wf(self) -> bool {
        self.requests_sent <= MAX_TOOL_ITERATIONS
    }

    /// A fresh turn over an already built conversation: nothing sent,
    /// nothing accumulated, not cancelled.
    pub fn begin_turn(chat_id: String, conversation: Vec<ConversationMessage>) -> (st: TurnState)
        ensures
            st.wf(),
            st.chat_id == chat_id,
            st.conversation == conversation,
            st.requests_sent == 0,
            st.full_content@ == Seq::<char>::empty(),
            st.full_thinking@ == Seq::<char>::empty(),
            st.iter_content@ == Seq::<char>::empty(),
            st.iter_thinking@ == Seq::<char>::empty(),
            st.tool_calls@ == Seq::<AccumulatedToolCall>::empty(),
            !st.cancelled,
            !st.finished,
    {
        let st = TurnState {
            chat_id,
            conversation,
            requests_sent: 0,
            full_content: String::new(),
            full_thinking: String::new(),
            iter_content: String::new(),
            iter_thinking: String::new(),
            tool_calls: Vec::new(),
            cancelled: false,
            finished: false,
        };
        proof {
            assert(st.tool_calls@ =~= Seq::<AccumulatedToolCall>::empty());
        }
        st
    }

    /// Records an external cancellation request: it ends the whole turn,
    /// pending tool calls included, at the next decision point.
    pub fn cancel(&mut self)
        ensures
            *final(self) == (TurnState { cancelled: true, ..*old(self) }),
    {
        self.cancelled = true;
    }

    /// Decides whether to open another completion stream. A cancelled or
    /// finished turn, or one that already opened the bounded number of
    /// streams, finishes instead — without an error. Opening a stream
    /// clears the per-stream accumulators and counts the request.
    pub fn start_iteration(&mut self) -> (r: NextStep)
        requires
            old(self).wf(),
        ensures
            final(self).wf(),
            final(self).chat_id == old(self).chat_id,
            final(self).conversation == old(self).conversation,
            final(self).full_content == old(self).full_content,
            final(self).full_thinking == old(self).full_thinking,
            final(self).cancelled == old(self).cancelled,
            (old(self).cancelled || old(self).finished || old(self).requests_sent
                >= MAX_TOOL_ITERATIONS) <==> r == NextStep::FinishTurn,
            r == NextStep::FinishTurn ==> *final(self) == (TurnState {
                finished: true,
                ..*old(self)
            }),
            r == NextStep::OpenStream ==> {
                &&& final(self).requests_sent == old(self).requests_sent + 1
                &&& final(self).iter_content@ == Seq::<char>::empty()
                &&& final(self).iter_thinking@ == Seq::<char>::empty()
                &&& final(self).tool_calls@ == Seq::<AccumulatedToolCall>::empty()
                &&& !final(self).finished
            },
    {
        if self.cancelled || self.finished || self.requests_sent >= MAX_TOOL_ITERATIONS {
            self.finished = true;
            NextStep::FinishTurn
        } else {
            self.requests_sent = self.requests_sent + 1;
            self.iter_content = String::new();
            self.iter_thinking = String::new();
            self.tool_calls = Vec::new();
            proof {
                assert(self.tool_calls@ =~= Seq::<AccumulatedToolCall>::empty());
            }
            NextStep::OpenStream
        }
    }

    /// Folds one parsed stream event into the turn. Text and reasoning
    /// deltas go onto both the per-stream and whole-turn accumulators and
    /// come back as one UI delta exactly when either is non-empty;
    /// tool-call deltas are folded into the index-addressed list in
    /// arrival order. An event without choices changes nothing. A
    /// malformed event never reaches this point: the shell skips it, by
    /// design, so garbled provider output degrades, not the whole turn.
    pub fn on_stream_event(&mut self, response: &OpenAIStreamResponse) -> (emit: Option<
        ChatDeltaPayload,
    >)
        ensures
            final(self).chat_id == old(self).chat_id,
            final(self).conversation == old(self).conversation,
            final(self).requests_sent == old(self).requests_sent,
            final(self).cancelled == old(self).cancelled,
            final(self).finished == old(self).finished,
            final(self).wf() == old(self).wf(),
            response.choices@.len() == 0 ==> *final(self) == *old(self) && emit is None,
            response.choices@.len() > 0 ==> {
                let delta = response.choices@[0].delta;
                let content = match delta.content {
                    Some(c) => c@,
                    None => Seq::<char>::empty(),
                };
                let reasoning = match delta.reasoning_content {
                    Some(t) => t@,
                    None => Seq::<char>::empty(),
                };
                let ds = match delta.tool_calls {
                    Some(v) => v@.map_values(|d: crate::openai::ToolCallDelta| d@),
                    None => Seq::empty(),
                };
                &&& final(self).iter_content@ == old(self).iter_content@ + content
                &&& final(self).full_content@ == old(self).full_content@ + content
                &&& final(self).iter_thinking@ == old(self).iter_thinking@ + reasoning
                &&& final(self).full_thinking@ == old(self).full_thinking@ + reasoning
                &&& calls_model(final(self).tool_calls@) == accumulated(
                    calls_model(old(self).tool_calls@),
                    ds,
                )
                &&& if content.len() > 0 || reasoning.len() > 0 {
                    emit matches Some(p) && p.chat_id@ == old(self).chat_id@ && p.delta@ == content
                        && p.reasoning_delta@ == reasoning
                } else {
                    emit is None
                }
            },
    {
        if response.choices.len() == 0 {
            return None;
        }
        let choice = &response.choices[0];
        let content: &str = match &choice.delta.content {
            Some(c) => c.as_str(),
            None => "",
        };
        let reasoning: &str = match &choice.delta.reasoning_content {
            Some(t) => t.as_str(),
            None => "",
        };
        proof {
            reveal_strlit("");
        }
        if !content.is_empty() {
            self.iter_content.append(content);
            self.full_content.append(content);
        } else {
            proof {
                assert(self.iter_content@ =~= self.iter_content@ + content@);
                assert(self.full_content@ =~= self.full_content@ + content@);
            }
        }
        if !reasoning.is_empty() {
            self.iter_thinking.append(reasoning);
            self.full_thinking.append(reasoning);
        } else {
            proof {
                assert(self.iter_thinking@ =~= self.iter_thinking@ + reasoning@);
                assert(self.full_thinking@ =~= self.full_thinking@ + reasoning@);
            }
        }
        if let Some(tc_deltas) = &choice.delta.tool_calls {
            let ghost calls0 = calls_model(self.tool_calls@);
            let ghost pre_self = *self;
            let ghost dms = tc_deltas@.map_values(|d: crate::openai::ToolCallDelta| d@);
            let mut k: usize = 0;
            proof {
                assert(accumulated(calls0, dms.subrange(0, 0int)) == calls0) by {
                    assert(dms.subrange(0, 0int) =~= Seq::<crate::toolcall::DeltaModel>::empty());
                }
            }
            while k < tc_deltas.len()
                invariant
                    0 <= k <= tc_deltas@.len(),
                    dms == tc_deltas@.map_values(|d: crate::openai::ToolCallDelta| d@),
                    *self == (TurnState { tool_calls: self.tool_calls, ..pre_self }),
                    calls_model(self.tool_calls@) == accumulated(calls0, dms.subrange(0, k as int)),
                decreases tc_deltas@.len() - k,
            {
                let ghost pre = dms.subrange(0, k as int);
                apply_tool_call_delta(&mut self.tool_calls, &tc_deltas[k]);
                proof {
                    crate::toolcall::lemma_accumulated_snoc(calls0, pre, dms[k as int]);
                    assert(pre.push(dms[k as int]) =~= dms.subrange(0, k as int + 1));
                }
                k += 1;
            }
            proof {
                assert(dms.subrange(0, dms.len() as int) =~= dms);
            }
        } else {
            proof {
                let ghost calls0 = calls_model(self.tool_calls@);
                assert(accumulated(calls0, Seq::<crate::toolcall::DeltaModel>::empty()) == calls0);
            }
        }
        if !content.is_empty() || !reasoning.is_empty() {
            Some(ChatDeltaPayload {
                chat_id: self.chat_id.clone(),
                delta: content.to_owned(),
                reasoning_delta: reasoning.to_owned(),
            })
        } else {
            None
        }
    }

    /// Decides what follows a closed stream. A cancelled turn, or one
    /// whose stream produced no tool calls, is over — the text gathered
    /// so far is the answer. Otherwise the assistant message carrying the
    /// stream's free text and its reconstructed tool calls joins the
    /// conversation, and the shell runs the calls.
    pub fn on_stream_end(&mut self) -> (r: NextStep)
        ensures
            final(self).chat_id == old(self).chat_id,
            final(self).requests_sent == old(self).requests_sent,
            final(self).full_content == old(self).full_content,
            final(self).full_thinking == old(self).full_thinking,
            final(self).cancelled == old(self).cancelled,
            final(self).tool_calls == old(self).tool_calls,
            final(self).wf() == old(self).wf(),
            (old(self).cancelled || old(self).tool_calls@.len() == 0) <==> r
                == NextStep::FinishTurn,
            r == NextStep::FinishTurn ==> final(self).finished && final(self).conversation == old(
                self,
            ).conversation,
            r == NextStep::OpenStream ==> {
                &&& final(self).finished == old(self).finished
                &&& final(self).conversation@.len() == old(self).conversation@.len() + 1
                &&& final(self).conversation@.drop_last() == old(self).conversation@
                &&& is_assistant_tools_message(
                    final(self).conversation@.last(),
                    old(self).iter_content@,
                    calls_model(old(self).tool_calls@),
                )
            },
    {
        if self.cancelled || self.tool_calls.len() == 0 {
            self.finished = true;
            return NextStep::FinishTurn;
        }
        let mut assistant_calls: Vec<ToolCall> = Vec::new();
        let mut j: usize = 0;
        while j < self.tool_calls.len()
            invariant
                0 <= j <= self.tool_calls@.len(),
                assistant_calls@.len() == j,
                forall|t: int|
                    0 <= t < j ==> {
                        &&& (#[trigger] assistant_calls@[t]).id@ == self.tool_calls@[t].id@
                        &&& assistant_calls@[t].kind@ == "function"@
                        &&& assistant_calls@[t].function.name@ == self.tool_calls@[t].name@
                        &&& assistant_calls@[t].function.arguments@
                            == self.tool_calls@[t].arguments@
                    },
            decreases self.tool_calls@.len() - j,
        {
            let tc = &self.tool_calls[j];
            assistant_calls.push(ToolCall {
                id: tc.id.clone(),
                kind: "function".to_owned(),
                function: FunctionCall { name: tc.name.clone(), arguments: tc.arguments.clone() },
            });
            j += 1;
        }
        let content: Option<String> = if self.iter_content.as_str().is_empty() {
            None
        } else {
            Some(self.iter_content.clone())
        };
        let msg = ConversationMessage::AssistantWithTools(AssistantMessageWithToolCalls {
            role: "assistant".to_owned(),
            content,
            tool_calls: assistant_calls,
        });
        self.conversation.push(msg);
        proof {
            assert(self.conversation@.drop_last() =~= old(self).conversation@);
            assert(calls_model(self.tool_calls@).len() == self.tool_calls@.len());
            assert forall|t: int| 0 <= t < self.tool_calls@.len() implies calls_model(
                self.tool_calls@,
            )[t] == self.tool_calls@[t]@ by {}
        }
        NextStep::OpenStream
    }

    /// Feeds one tool's outcome back: the matching tool-result message —
    /// the output on success, an error line otherwise — joins the
    /// conversation, and the result event to emit comes back.
    pub fn on_tool_result(&mut self, call_index: usize, result: &ToolCallResult) -> (payload:
        ToolResultPayload)
        requires
            call_index < old(self).tool_calls@.len(),
        ensures
            *final(self) == (TurnState { conversation: final(self).conversation, ..*old(self) }),
            final(self).conversation@.len() == old(self).conversation@.len() + 1,
            final(self).conversation@.drop_last() == old(self).conversation@,
            is_tool_result_message(
                final(self).conversation@.last(),
                old(self).tool_calls@[call_index as int].id@,
                spec_tool_result_content(*result),
            ),
            payload.chat_id@ == old(self).chat_id@,
            payload.call_id@ == old(self).tool_calls@[call_index as int].id@,
            payload.tool_id@ == old(self).tool_calls@[call_index as int].name@,
            payload.success == result.success,
            payload.output@ == result.output@,
            match (payload.error, result.error) {
                (Some(a), Some(b)) => a@ == b@,
                (None, None) => true,
                _ => false,
            },
    {
        let tc_id = self.tool_calls[call_index].id.clone();
        let tc_name = self.tool_calls[call_index].name.clone();
        let content: String = if result.success {
            result.output.clone()
        } else {
            let e: &str = match &result.error {
                Some(e) => e.as_str(),
                None => "",
            };
            proof {
                reveal_strlit("");
            }
            concat_str("Error: ", e)
        };
        let msg = ConversationMessage::ToolResult(ToolResultMessage {
            role: "tool".to_owned(),
            tool_call_id: tc_id.clone(),
            content,
        });
        self.conversation.push(msg);
        proof {
            assert(self.conversation@.drop_last() =~= old(self).conversation@);
        }
        ToolResultPayload {
            chat_id: self.chat_id.clone(),
            call_id: tc_id,
            tool_id: tc_name,
            success: result.success,
            output: result.output.clone(),
            error: match &result.error {
                Some(e) => Some(e.clone()),
                None => None,
            },
        }
    }
}

/// The loop bound holds in every reachable turn state: a turn never opens
/// more than the bounded number of completion streams, so a model that
/// requests tool calls forever is cut off at the bound with whatever text
/// accumulated, not with an error.
pub proof fn lemma_tool_loop_bounded(st: TurnState)
    requires
        st.wf(),
    ensures
        st.requests_sent <= MAX_TOOL_ITERATIONS,
{
}

} // verus!
