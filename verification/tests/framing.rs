use chat_gateway::extract_payload;
use chat_gateway::is_done_payload;
use chat_gateway::take_lines;

#[test]
fn take_lines_splits_at_line_feeds_and_keeps_the_tail() {
    let mut buf = b"first\nsecond\r\ntail".to_vec();
    let lines = take_lines(&mut buf);
    assert_eq!(lines.len(), 2);
    assert_eq!(lines[0], b"first".to_vec());
    assert_eq!(lines[1], b"second".to_vec());
    assert_eq!(buf, b"tail".to_vec());
}

#[test]
fn take_lines_on_an_unterminated_buffer_takes_nothing() {
    let mut buf = b"no newline yet".to_vec();
    let lines = take_lines(&mut buf);
    assert_eq!(lines.len(), 0);
    assert_eq!(buf, b"no newline yet".to_vec());
}

#[test]
fn take_lines_keeps_empty_lines() {
    let mut buf = b"\n\ndata: x\n".to_vec();
    let lines = take_lines(&mut buf);
    assert_eq!(lines.len(), 3);
    assert_eq!(lines[0], b"".to_vec());
    assert_eq!(lines[1], b"".to_vec());
    assert_eq!(lines[2], b"data: x".to_vec());
    assert!(buf.is_empty());
}

#[test]
fn payload_follows_the_data_prefix() {
    let p = extract_payload(&b"data: {\"id\":\"1\"}".to_vec()).expect("a data line has a payload");
    assert_eq!(p, b"{\"id\":\"1\"}".to_vec());
}

#[test]
fn lines_without_the_prefix_have_no_payload() {
    assert!(extract_payload(&b"event: message".to_vec()).is_none());
    assert!(extract_payload(&b"".to_vec()).is_none());
    assert!(extract_payload(&b"data:x".to_vec()).is_none());
    assert!(extract_payload(&b"data:".to_vec()).is_none());
}

#[test]
fn the_sentinel_is_matched_exactly() {
    assert!(is_done_payload(&b"[DONE]".to_vec()));
    assert!(!is_done_payload(&b"[DONE] ".to_vec()));
    assert!(!is_done_payload(&b"[done]".to_vec()));
    assert!(!is_done_payload(&b"".to_vec()));
}
