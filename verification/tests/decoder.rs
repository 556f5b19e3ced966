use chat_gateway::normalize_chunk;
use chat_gateway::SseDecoder;
use chat_gateway::StreamChoice;
use chat_gateway::StreamChunk;
use chat_gateway::StreamData;
use chat_gateway::StreamDelta;

fn chunk_line(content: &str) -> String {
    format!(
        "data: {{\"id\":\"1\",\"object\":\"chat.completion.chunk\",\"created\":1,\"model\":\"m\",\"choices\":[{{\"index\":0,\"delta\":{{\"content\":\"{}\"}},\"finish_reason\":null}}]}}\n",
        content
    )
}

fn contents(updates: &[StreamData]) -> Vec<Option<String>> {
    updates.iter().map(|u| u.content.clone()).collect()
}

#[test]
fn one_fragment_one_update() {
    let mut d = SseDecoder::new();
    let updates = d.feed(chunk_line("Hello").as_bytes());
    assert_eq!(updates.len(), 1);
    assert_eq!(updates[0].content, Some("Hello".to_string()));
    assert_eq!(updates[0].reasoning_content, None);
    assert!(!updates[0].done);
}

#[test]
fn content_and_done_in_one_read_yield_two_updates_in_order() {
    let mut d = SseDecoder::new();
    let input = format!("{}data: [DONE]\n", chunk_line("Hi"));
    let updates = d.feed(input.as_bytes());
    assert_eq!(updates.len(), 2);
    assert_eq!(updates[0].content, Some("Hi".to_string()));
    assert!(!updates[0].done);
    assert_eq!(updates[1].content, None);
    assert_eq!(updates[1].reasoning_content, None);
    assert!(updates[1].done);
}

#[test]
fn line_split_across_fragments_is_reassembled() {
    let whole = chunk_line("Hello");
    let (a, b) = whole.split_at(whole.len() - 9);
    let mut d = SseDecoder::new();
    let first = d.feed(a.as_bytes());
    assert_eq!(first.len(), 0);
    let second = d.feed(b.as_bytes());
    assert_eq!(second.len(), 1);
    assert_eq!(second[0].content, Some("Hello".to_string()));
}

#[test]
fn split_anywhere_yields_same_updates_as_one_fragment() {
    let whole = format!("{}{}data: [DONE]\n", chunk_line("Hel"), chunk_line("lo"));
    let mut reference = SseDecoder::new();
    let expected = reference.feed(whole.as_bytes());
    assert_eq!(expected.len(), 3);
    for split in 0..whole.len() {
        let (a, b) = whole.split_at(split);
        let mut d = SseDecoder::new();
        let mut got = d.feed(a.as_bytes());
        got.extend(d.feed(b.as_bytes()));
        assert_eq!(contents(&got), contents(&expected), "split at {}", split);
        assert_eq!(got.len(), expected.len());
        assert!(got[2].done);
    }
}

#[test]
fn byte_by_byte_feeding_yields_same_updates() {
    let whole = format!("{}data: [DONE]\n", chunk_line("Hello"));
    let mut reference = SseDecoder::new();
    let expected = reference.feed(whole.as_bytes());
    let mut d = SseDecoder::new();
    let mut got = Vec::new();
    for byte in whole.as_bytes() {
        got.extend(d.feed(std::slice::from_ref(byte)));
    }
    assert_eq!(contents(&got), contents(&expected));
}

#[test]
fn nothing_follows_done_within_one_fragment() {
    let mut d = SseDecoder::new();
    let input = format!("data: [DONE]\n{}", chunk_line("late"));
    let updates = d.feed(input.as_bytes());
    assert_eq!(updates.len(), 1);
    assert!(updates[0].done);
}

#[test]
fn nothing_follows_done_across_fragments() {
    let mut d = SseDecoder::new();
    let first = d.feed(b"data: [DONE]\n");
    assert_eq!(first.len(), 1);
    assert!(first[0].done);
    let second = d.feed(chunk_line("late").as_bytes());
    assert_eq!(second.len(), 0);
}

#[test]
fn malformed_line_does_not_stop_the_stream() {
    let mut d = SseDecoder::new();
    let input = format!("data: {{not json\n{}", chunk_line("ok"));
    let updates = d.feed(input.as_bytes());
    assert_eq!(updates.len(), 1);
    assert_eq!(updates[0].content, Some("ok".to_string()));
}

#[test]
fn schema_mismatch_is_discarded() {
    let mut d = SseDecoder::new();
    // valid JSON, but the required `model` field is missing
    let input = "data: {\"id\":\"1\",\"object\":\"c\",\"created\":1,\"choices\":[]}\n";
    let updates = d.feed(input.as_bytes());
    assert_eq!(updates.len(), 0);
    let updates = d.feed(chunk_line("ok").as_bytes());
    assert_eq!(updates.len(), 1);
}

#[test]
fn lines_without_data_prefix_are_ignored() {
    let mut d = SseDecoder::new();
    let input = format!(": keep-alive\n\nevent: message\n{}", chunk_line("x"));
    let updates = d.feed(input.as_bytes());
    assert_eq!(updates.len(), 1);
    assert_eq!(updates[0].content, Some("x".to_string()));
}

#[test]
fn carriage_return_line_endings_are_accepted() {
    let mut d = SseDecoder::new();
    let updates = d.feed(b"data: [DONE]\r\n");
    assert_eq!(updates.len(), 1);
    assert!(updates[0].done);
}

#[test]
fn unterminated_tail_waits_for_its_newline() {
    let whole = chunk_line("wait");
    let body = &whole[..whole.len() - 1];
    let mut d = SseDecoder::new();
    assert_eq!(d.feed(body.as_bytes()).len(), 0);
    let updates = d.feed(b"\n");
    assert_eq!(updates.len(), 1);
    assert_eq!(updates[0].content, Some("wait".to_string()));
}

#[test]
fn event_without_choices_produces_no_update() {
    let mut d = SseDecoder::new();
    let input = "data: {\"id\":\"1\",\"object\":\"c\",\"created\":1,\"model\":\"m\",\"choices\":[]}\n";
    let updates = d.feed(input.as_bytes());
    assert_eq!(updates.len(), 0);
}

#[test]
fn reasoning_delta_is_forwarded() {
    let mut d = SseDecoder::new();
    let input = "data: {\"id\":\"1\",\"object\":\"c\",\"created\":1,\"model\":\"m\",\"choices\":[{\"index\":0,\"delta\":{\"reasoning_content\":\"think\"}}]}\n";
    let updates = d.feed(input.as_bytes());
    assert_eq!(updates.len(), 1);
    assert_eq!(updates[0].content, None);
    assert_eq!(updates[0].reasoning_content, Some("think".to_string()));
    assert!(!updates[0].done);
}

#[test]
fn normalize_takes_the_first_choice() {
    let chunk = StreamChunk {
        id: "1".to_string(),
        object: "c".to_string(),
        created: 7,
        model: "m".to_string(),
        choices: vec![
            StreamChoice {
                index: 0,
                delta: StreamDelta {
                    role: Some("assistant".to_string()),
                    content: Some("first".to_string()),
                    reasoning_content: None,
                },
                finish_reason: None,
            },
            StreamChoice {
                index: 1,
                delta: StreamDelta {
                    role: None,
                    content: Some("second".to_string()),
                    reasoning_content: None,
                },
                finish_reason: None,
            },
        ],
    };
    let u = normalize_chunk(&chunk).expect("a chunk with choices yields an update");
    assert_eq!(u.content, Some("first".to_string()));
    assert!(!u.done);
}

#[test]
fn normalize_without_choices_yields_nothing() {
    let chunk = StreamChunk {
        id: "1".to_string(),
        object: "c".to_string(),
        created: 7,
        model: "m".to_string(),
        choices: vec![],
    };
    assert!(normalize_chunk(&chunk).is_none());
}
