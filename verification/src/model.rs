//! Value types for a conversation turn and for the request and response
//! envelopes exchanged with the remote completion API, plus the request
//! builder.
use vstd::prelude::*;

verus! {

/// One part of a structured, multi-part message content (multimodal
/// input). The gateway never interprets a part; it only carries it.
#[derive(Debug)]
pub struct ContentPart {
    pub part_type: String,
    pub text: String,
}

/// The content of a conversation turn: either plain text or an ordered
/// sequence of structured parts.
#[derive(Debug)]
pub enum MessageContent {
    Text(String),
    Parts(Vec<ContentPart>),
}

/// One conversation turn sent to the remote API.
#[derive(Debug)]
pub struct Message {
    pub role: String,
    pub content: MessageContent,
}

/// The reasoning-mode toggle carried by every outbound request.
#[derive(Debug)]
pub struct Thinking {
    pub thinking_type: String,
}

/// The outbound request envelope. `thinking` is optional in the type,
/// but the builder always sets it: the remote API expects an explicit
/// value.
#[derive(Debug)]
pub struct ChatRequest {
    pub model: String,
    pub messages: Vec<Message>,
    pub stream: bool,
    pub thinking: Option<Thinking>,
}

/// The decoded message inside one blocking-mode choice.
#[derive(Debug)]
pub struct ResponseMessage {
    pub role: String,
    pub content: String,
    pub reasoning_content: Option<String>,
}

/// One choice of a blocking-mode response.
#[derive(Debug)]
pub struct Choice {
    pub index: u32,
    pub message: ResponseMessage,
    pub finish_reason: Option<String>,
}

/// The blocking-mode response envelope.
#[derive(Debug)]
pub struct ChatResponse {
    pub id: String,
    pub object: String,
    pub created: u64,
    pub model: String,
    pub choices: Vec<Choice>,
}

/// The incremental change carried by one streaming choice.
#[derive(Debug)]
pub struct StreamDelta {
    pub role: Option<String>,
    pub content: Option<String>,
    pub reasoning_content: Option<String>,
}

/// One choice of a streaming event.
#[derive(Debug)]
pub struct StreamChoice {
    pub index: u32,
    pub delta: StreamDelta,
    pub finish_reason: Option<String>,
}

/// One decoded streaming event (the JSON payload of one `data:` line).
#[derive(Debug)]
pub struct StreamChunk {
    pub id: String,
    pub object: String,
    pub created: u64,
    pub model: String,
    pub choices: Vec<StreamChoice>,
}

/// One normalized incremental update handed to the subscriber. Exactly
/// one update per stream carries `done == true`, always last, with both
/// delta fields absent.
#[derive(Debug, Clone)]
pub struct StreamData {
    pub content: Option<String>,
    pub reasoning_content: Option<String>,
    pub done: bool,
}

/// The mathematical value of an optional string: its characters, when
/// it is present.
pub open spec fn view_opt_string(o: Option<String>) -> Option<Seq<char>> {
    match o {
        Some(s) => Some(s@),
        None => None,
    }
}

/// The mathematical value of a `StreamDelta`.
pub struct StreamDeltaView {
    pub role: Option<Seq<char>>,
    pub content: Option<Seq<char>>,
    pub reasoning_content: Option<Seq<char>>,
}

/// The mathematical value of a `StreamChoice`.
pub struct StreamChoiceView {
    pub index: u32,
    pub delta: StreamDeltaView,
    pub finish_reason: Option<Seq<char>>,
}

/// The mathematical value of a `StreamChunk`.
pub struct StreamChunkView {
    pub id: Seq<char>,
    pub object: Seq<char>,
    pub created: u64,
    pub model: Seq<char>,
    pub choices: Seq<StreamChoiceView>,
}

/// The mathematical value of a `StreamData`.
pub struct StreamDataView {
    pub content: Option<Seq<char>>,
    pub reasoning_content: Option<Seq<char>>,
    pub done: bool,
}

/// The mathematical value of a `ResponseMessage`.
pub struct ResponseMessageView {
    pub role: Seq<char>,
    pub content: Seq<char>,
    pub reasoning_content: Option<Seq<char>>,
}

/// The mathematical value of a `Choice`.
pub struct ChoiceView {
    pub index: u32,
    pub message: ResponseMessageView,
    pub finish_reason: Option<Seq<char>>,
}

/// The mathematical value of a `ChatResponse`.
pub struct ChatResponseView {
    pub id: Seq<char>,
    pub object: Seq<char>,
    pub created: u64,
    pub model: Seq<char>,
    pub choices: Seq<ChoiceView>,
}

impl View for StreamDelta {
    type V = StreamDeltaView;

    open spec fn view(&self) -> StreamDeltaView {
        StreamDeltaView {
            role: view_opt_string(self.role),
            content: view_opt_string(self.content),
            reasoning_content: view_opt_string(self.reasoning_content),
        }
    }
}

impl View for StreamChoice {
    type V = StreamChoiceView;

    open spec fn view(&self) -> StreamChoiceView {
        StreamChoiceView {
            index: self.index,
            delta: self.delta@,
            finish_reason: view_opt_string(self.finish_reason),
        }
    }
}

impl View for StreamChunk {
    type V = StreamChunkView;

    open spec fn view(&self) -> StreamChunkView {
        StreamChunkView {
            id: self.id@,
            object: self.object@,
            created: self.created,
            model: self.model@,
            choices: self.choices@.map_values(|c: StreamChoice| c@),
        }
    }
}

impl View for StreamData {
    type V = StreamDataView;

    open spec fn view(&self) -> StreamDataView {
        StreamDataView {
            content: view_opt_string(self.content),
            reasoning_content: view_opt_string(self.reasoning_content),
            done: self.done,
        }
    }
}

impl View for ResponseMessage {
    type V = ResponseMessageView;

    open spec fn view(&self) -> ResponseMessageView {
        ResponseMessageView {
            role: self.role@,
            content: self.content@,
            reasoning_content: view_opt_string(self.reasoning_content),
        }
    }
}

impl View for Choice {
    type V = ChoiceView;

    open spec fn view(&self) -> ChoiceView {
        ChoiceView {
            index: self.index,
            message: self.message@,
            finish_reason: view_opt_string(self.finish_reason),
        }
    }
}

impl View for ChatResponse {
    type V = ChatResponseView;

    open spec fn view(&self) -> ChatResponseView {
        ChatResponseView {
            id: self.id@,
            object: self.object@,
            created: self.created,
            model: self.model@,
            choices: self.choices@.map_values(|c: Choice| c@),
        }
    }
}

/// The `thinking.type` value a request carries for a given
/// reasoning-mode flag.
pub open spec fn spec_thinking_type(reasoning_enabled: bool) -> Seq<char> {
    if reasoning_enabled {
        "enabled"@
    } else {
        "disabled"@
    }
}

/// Builds the outbound request envelope. The `thinking` field is always
/// present and carries exactly one of `enabled` / `disabled`.
pub fn build_request(
    model: String,
    messages: Vec<Message>,
    stream: bool,
    reasoning_enabled: bool,
) -> (r: ChatRequest)
    ensures
        r.model == model,
        r.messages == messages,
        r.stream == stream,
        r.thinking matches Some(t) && t.thinking_type@ == spec_thinking_type(reasoning_enabled),
{
    let thinking_type = if reasoning_enabled {
        String::from_str("enabled")
    } else {
        String::from_str("disabled")
    };
    ChatRequest { model, messages, stream, thinking: Some(Thinking { thinking_type }) }
}

} // verus!
