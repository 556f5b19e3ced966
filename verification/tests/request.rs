use chat_gateway::build_request;
use chat_gateway::bearer_token;
use chat_gateway::endpoint_url;
use chat_gateway::json_content_type;
use chat_gateway::Message;
use chat_gateway::MessageContent;

fn sample_messages() -> Vec<Message> {
    vec![Message { role: "user".to_string(), content: MessageContent::Text("hi".to_string()) }]
}

#[test]
fn thinking_enabled_when_reasoning_on() {
    let r = build_request("glm-4".to_string(), sample_messages(), false, true);
    let t = r.thinking.expect("thinking must always be present");
    assert_eq!(t.thinking_type, "enabled");
}

#[test]
fn thinking_disabled_when_reasoning_off() {
    let r = build_request("glm-4".to_string(), sample_messages(), true, false);
    let t = r.thinking.expect("thinking must always be present");
    assert_eq!(t.thinking_type, "disabled");
}

#[test]
fn request_carries_model_messages_and_stream_flag() {
    let r = build_request("glm-4".to_string(), sample_messages(), true, false);
    assert_eq!(r.model, "glm-4");
    assert_eq!(r.messages.len(), 1);
    assert_eq!(r.messages[0].role, "user");
    assert!(r.stream);
}

#[test]
fn endpoint_url_appends_completions_path() {
    let u = endpoint_url("https://api.example.com/v1");
    assert_eq!(u, "https://api.example.com/v1/chat/completions");
}

#[test]
fn bearer_token_prefixes_key() {
    let h = bearer_token("sk-123");
    assert_eq!(h, "Bearer sk-123");
}

#[test]
fn content_type_is_json() {
    assert_eq!(json_content_type(), "application/json");
}
