//! A gateway core for relaying chat-completion calls to a remote
//! language-model API.
//!
//! The library covers the logic of the gateway: building the outbound
//! request body, classifying HTTP responses, decoding a chunked
//! Server-Sent-Events body that arrives as arbitrary-sized fragments,
//! and normalizing each decoded event into an incremental update.
//! The HTTP transport itself lives outside the library.
mod decoder;
mod errors;
mod json;
mod model;
mod sse;
mod transport;

pub use decoder::SseDecoder;
pub use decoder::line_is_done;
pub use decoder::normalize_chunk;
pub use decoder::sees_done;
pub use decoder::spec_normalize;
pub use decoder::lemma_spec_updates_shape;
pub use decoder::lemma_updates_concat;
pub use decoder::spec_terminal_view;
pub use decoder::spec_update_of_payload;
pub use decoder::spec_updates;
pub use errors::GatewayError;
pub use errors::check_status;
pub use errors::spec_api_error_detail;
pub use errors::spec_status_success;
pub use json::JsonValue;
pub use json::parse_chat_response;
pub use json::parse_stream_chunk;
pub use json::spec_chat_response;
pub use json::spec_json_doc;
pub use json::spec_stream_chunk;
pub use model::ChatRequest;
pub use model::ChatResponse;
pub use model::Choice;
pub use model::ContentPart;
pub use model::Message;
pub use model::MessageContent;
pub use model::ResponseMessage;
pub use model::StreamChoice;
pub use model::StreamChunk;
pub use model::StreamData;
pub use model::StreamDelta;
pub use model::Thinking;
pub use model::ChatResponseView;
pub use model::ChoiceView;
pub use model::ResponseMessageView;
pub use model::StreamChoiceView;
pub use model::StreamChunkView;
pub use model::StreamDataView;
pub use model::StreamDeltaView;
pub use model::view_opt_string;
pub use model::build_request;
pub use model::spec_thinking_type;
pub use sse::complete_lines;
pub use sse::concat_fragments;
pub use sse::extract_payload;
pub use sse::fold_fragments;
pub use sse::is_done_payload;
pub use sse::join_lines;
pub use sse::lemma_any_fragmentation;
pub use sse::lemma_fragmentation_independent;
pub use sse::lemma_join_lines_round_trip;
pub use sse::line_rest;
pub use sse::payload_of;
pub use sse::plain_line;
pub use sse::spec_data_prefix;
pub use sse::spec_done_payload;
pub use sse::take_lines;
pub use transport::bearer_token;
pub use transport::endpoint_url;
pub use transport::json_content_type;
