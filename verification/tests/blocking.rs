use chat_gateway::check_status;
use chat_gateway::parse_chat_response;
use chat_gateway::GatewayError;

fn response_body() -> String {
    "{\"id\":\"r1\",\"object\":\"chat.completion\",\"created\":42,\"model\":\"glm-4\",\
     \"choices\":[{\"index\":0,\"message\":{\"role\":\"assistant\",\"content\":\"Hi\",\
     \"reasoning_content\":\"why\"},\"finish_reason\":\"stop\"}]}"
        .to_string()
}

#[test]
fn blocking_body_decodes_into_response() {
    let r = parse_chat_response(&response_body().into_bytes()).expect("body matches the schema");
    assert_eq!(r.id, "r1");
    assert_eq!(r.object, "chat.completion");
    assert_eq!(r.created, 42);
    assert_eq!(r.model, "glm-4");
    assert_eq!(r.choices.len(), 1);
    assert_eq!(r.choices[0].index, 0);
    assert_eq!(r.choices[0].message.role, "assistant");
    assert_eq!(r.choices[0].message.content, "Hi");
    assert_eq!(r.choices[0].message.reasoning_content, Some("why".to_string()));
    assert_eq!(r.choices[0].finish_reason, Some("stop".to_string()));
}

#[test]
fn missing_required_field_is_a_decode_error() {
    // valid JSON, but `model` is missing: never a defaulted response
    let body = b"{\"id\":\"r1\",\"object\":\"c\",\"created\":1,\"choices\":[]}".to_vec();
    match parse_chat_response(&body) {
        Err(GatewayError::Decode(_)) => {}
        Err(_) => panic!("a schema mismatch must be a decode failure"),
        Ok(_) => panic!("a body missing a required field must not decode"),
    }
}

#[test]
fn non_json_body_is_a_decode_error() {
    let body = b"not json at all".to_vec();
    match parse_chat_response(&body) {
        Err(GatewayError::Decode(_)) => {}
        _ => panic!("a non-JSON body must be a decode failure"),
    }
}

#[test]
fn mistyped_field_is_a_decode_error() {
    let body = b"{\"id\":7,\"object\":\"c\",\"created\":1,\"model\":\"m\",\"choices\":[]}".to_vec();
    match parse_chat_response(&body) {
        Err(GatewayError::Decode(_)) => {}
        _ => panic!("a mistyped field must be a decode failure"),
    }
}

#[test]
fn non_success_status_is_an_api_error_carrying_the_body() {
    let r = check_status(429, Some("rate limited".to_string()));
    match r {
        Err(e) => {
            assert!(matches!(&e, GatewayError::Api(_)));
            let msg = e.message();
            assert!(msg.contains("rate limited"), "message was: {}", msg);
        }
        Ok(()) => panic!("status 429 must fail"),
    }
}

#[test]
fn unreadable_error_body_gets_a_placeholder() {
    match check_status(500, None) {
        Err(e) => assert_eq!(e.message(), "API Error: Unknown error"),
        Ok(()) => panic!("status 500 must fail"),
    }
}

#[test]
fn success_statuses_pass() {
    assert!(check_status(200, None).is_ok());
    assert!(check_status(201, None).is_ok());
    assert!(check_status(299, None).is_ok());
    assert!(check_status(199, None).is_err());
    assert!(check_status(300, None).is_err());
    assert!(check_status(404, None).is_err());
}

#[test]
fn error_messages_carry_their_kind_and_detail() {
    assert_eq!(
        GatewayError::Transport("connection refused".to_string()).message(),
        "Failed to send request: connection refused"
    );
    assert_eq!(
        GatewayError::Decode("bad schema".to_string()).message(),
        "Failed to parse response: bad schema"
    );
}
