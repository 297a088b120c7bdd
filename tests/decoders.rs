use anyml::anthropic::process_delta;
use anyml::json::JsonField;
use anyml::ollama::process_message;
use anyml::openai::process_choice;
use anyml::{
    aggregate, AnthropicDecoder, ChatChunk, ChatStream, ChatStreamError, FrameDecoder,
    OllamaDecoder, OpenAiDecoder,
};

type Item = Result<ChatChunk, ChatStreamError>;

fn run<D: FrameDecoder>(dec: D, bufs: &[&[u8]]) -> Vec<Item> {
    let mut s = ChatStream::new(dec);
    let mut out = Vec::new();
    for b in bufs {
        out.extend(s.feed(b));
    }
    out.extend(s.finish());
    out
}

fn content(s: &str) -> Item {
    Ok(ChatChunk::Content(s.to_string()))
}

fn thinking(s: &str) -> Item {
    Ok(ChatChunk::Thinking(s.to_string()))
}

fn is_parse_error(i: &Item) -> bool {
    matches!(i, Err(ChatStreamError::ParseError(_)))
}

#[test]
fn anthropic_chat_success() {
    let body: &[u8] =
        b"event: content_block_delta\ndata: {\"delta\":{\"type\":\"text_delta\",\"text\":\"Hello!\"}}\n\n";
    assert_eq!(run(AnthropicDecoder, &[body]), vec![content("Hello!")]);
}

#[test]
fn anthropic_two_chunk_split() {
    let a: &[u8] = b"event: content_block_delta\ndata: {\"delta\":{\"typ";
    let b: &[u8] = b"e\":\"text_delta\",\"text\":\"Hi\"}}\n\n";
    let mut s = ChatStream::new(AnthropicDecoder);
    assert!(s.feed(a).is_empty());
    assert_eq!(s.feed(b), vec![content("Hi")]);
    assert!(s.finish().is_empty());
}

#[test]
fn test_chat_ignores_non_content_events() {
    let body: &[u8] = b"event: message_start\ndata: {\"type\":\"message_start\"}\n\n\
event: content_block_delta\ndata: {\"delta\":{\"type\":\"text_delta\",\"text\":\"Hello\"}}\n\n\
event: message_stop\ndata: {\"type\":\"message_stop\"}\n\n";
    assert_eq!(run(AnthropicDecoder, &[body]), vec![content("Hello")]);
}

#[test]
fn test_chat_with_thinking() {
    let body: &[u8] = b"event: content_block_delta\ndata: {\"delta\":{\"type\":\"thinking_delta\",\"thinking\":\"Let me reason...\"}}\n\n\
event: content_block_delta\ndata: {\"delta\":{\"type\":\"text_delta\",\"text\":\"The answer is 42.\"}}\n\n";
    let result = aggregate(&run(AnthropicDecoder, &[body])).unwrap();
    assert_eq!(result.thinking.as_deref(), Some("Let me reason..."));
    assert_eq!(result.content, "The answer is 42.");
}

#[test]
fn anthropic_missing_type_defaults_to_content() {
    let body: &[u8] = b"event: content_block_delta\ndata: {\"delta\":{\"text\":\"Hello\"}}\n\n";
    assert_eq!(run(AnthropicDecoder, &[body]), vec![content("Hello")]);
    let r = process_delta(
        JsonField::Object,
        JsonField::Absent,
        JsonField::Text("Hello".to_string()),
        JsonField::Absent,
    );
    assert_eq!(r, vec![content("Hello")]);
}

#[test]
fn anthropic_malformed_payload_is_one_error() {
    let body: &[u8] = b"event: content_block_delta\ndata: {not json\n\n\
event: content_block_delta\ndata: {\"delta\":{\"text\":\"ok\"}}\n\n";
    let r = run(AnthropicDecoder, &[body]);
    assert_eq!(r.len(), 2);
    assert!(is_parse_error(&r[0]));
    assert_eq!(r[1], content("ok"));
}

#[test]
fn anthropic_missing_data_line_is_one_error() {
    let body: &[u8] = b"event: content_block_delta\nid: 3\n\n";
    let r = run(AnthropicDecoder, &[body]);
    assert_eq!(r.len(), 1);
    assert!(is_parse_error(&r[0]));
}

#[test]
fn anthropic_empty_frames_give_nothing() {
    assert!(run(AnthropicDecoder, &[b"\n\n\n\n\n\n"]).is_empty());
    let mut d = AnthropicDecoder;
    assert!(d.decode(b"").is_empty());
}

#[test]
fn anthropic_thinking_delta_without_text_gives_nothing() {
    let r = process_delta(
        JsonField::Object,
        JsonField::Text("thinking_delta".to_string()),
        JsonField::Text("ignored".to_string()),
        JsonField::Null,
    );
    assert!(r.is_empty());
    let r = process_delta(JsonField::Null, JsonField::Absent, JsonField::Absent, JsonField::Absent);
    assert_eq!(r.len(), 1);
    assert!(is_parse_error(&r[0]));
}

#[test]
fn ollama_chat_success() {
    let body: &[u8] = br#"{"message":{"role":"assistant","content":"Hello!"}}"#;
    assert_eq!(run(OllamaDecoder::new(), &[body]), vec![content("Hello!")]);
}

#[test]
fn test_chat_aggregate() {
    let body: &[u8] = br#"{"message":{"role":"assistant","content":"Hello"}}"#;
    let aggregated = aggregate(&run(OllamaDecoder::new(), &[body])).unwrap();
    assert_eq!(aggregated.content, "Hello");
}

#[test]
fn test_chat_with_thinking_complete_block() {
    let body: &[u8] =
        br#"{"message":{"role":"assistant","content":"<think>I need to think</think>The answer."}}"#;
    let result = aggregate(&run(OllamaDecoder::new(), &[body])).unwrap();
    assert_eq!(result.thinking.as_deref(), Some("I need to think"));
    assert_eq!(result.content, "The answer.");
}

#[test]
fn test_chat_with_thinking_structured_field() {
    let body: &[u8] = br#"{"message":{"role":"assistant","content":"The answer.","thinking":"Let me reason about this."}}"#;
    let result = aggregate(&run(OllamaDecoder::new(), &[body])).unwrap();
    assert_eq!(result.thinking.as_deref(), Some("Let me reason about this."));
    assert_eq!(result.content, "The answer.");
}

#[test]
fn test_chat_with_thinking_structured_field_takes_priority() {
    let body: &[u8] = br#"{"message":{"role":"assistant","content":"<think>Inline thought</think>The answer.","thinking":"Structured thought"}}"#;
    let result = aggregate(&run(OllamaDecoder::new(), &[body])).unwrap();
    assert_eq!(result.thinking.as_deref(), Some("Structured thought"));
    assert_eq!(result.content, "<think>Inline thought</think>The answer.");
}

#[test]
fn test_chat_with_empty_thinking_field_falls_back_to_tags() {
    let body: &[u8] = br#"{"message":{"role":"assistant","content":"<think>Fallback thought</think>The answer.","thinking":""}}"#;
    let result = aggregate(&run(OllamaDecoder::new(), &[body])).unwrap();
    assert_eq!(result.thinking.as_deref(), Some("Fallback thought"));
    assert_eq!(result.content, "The answer.");
}

#[test]
fn test_chat_without_thinking_no_tags() {
    let body: &[u8] = br#"{"message":{"role":"assistant","content":"The answer."}}"#;
    let r = run(OllamaDecoder::new(), &[body]);
    assert!(matches!(&r[0], Ok(ChatChunk::Content(s)) if s == "The answer."));
}

#[test]
fn ollama_thinking_spanning_two_frames() {
    let body: &[u8] = b"{\"message\":{\"content\":\"<think>Step \"}}\n{\"message\":{\"content\":\"one</think>Answer\"}}\n";
    let r = run(OllamaDecoder::new(), &[body]);
    assert_eq!(r, vec![thinking("Step "), thinking("one"), content("Answer")]);
    let result = aggregate(&r).unwrap();
    assert_eq!(result.thinking.as_deref(), Some("Step one"));
    assert_eq!(result.content, "Answer");
}

#[test]
fn ollama_rechunking_gives_same_events() {
    let body: &[u8] = b"{\"message\":{\"content\":\"<think>A</think>B\"}}\n";
    let whole = run(OllamaDecoder::new(), &[body]);
    assert_eq!(whole, vec![thinking("A"), content("B")]);
    for i in 0..=body.len() {
        for j in i..=body.len() {
            let r = run(OllamaDecoder::new(), &[&body[..i], &body[i..j], &body[j..]]);
            assert_eq!(r, whole);
        }
    }
}

#[test]
fn ollama_blank_lines_and_bad_lines() {
    let body: &[u8] = b"\n\n{oops}\n{\"message\":{\"content\":\"x\"}}\n{\"other\":1}\n";
    let r = run(OllamaDecoder::new(), &[body]);
    assert_eq!(r.len(), 3);
    assert!(is_parse_error(&r[0]));
    assert_eq!(r[1], content("x"));
    assert!(is_parse_error(&r[2]));
}

#[test]
fn ollama_structured_priority_direct() {
    let mut inside = false;
    let r = process_message(
        JsonField::Object,
        JsonField::Text("<think>x</think>y".to_string()),
        JsonField::Text("s".to_string()),
        &mut inside,
    );
    assert_eq!(r, vec![thinking("s"), content("<think>x</think>y")]);
    assert!(!inside);
    let r = process_message(
        JsonField::Object,
        JsonField::Text("<think>x".to_string()),
        JsonField::Null,
        &mut inside,
    );
    assert_eq!(r, vec![thinking("x")]);
    assert!(inside);
}

#[test]
fn openai_chat_success() {
    let body: &[u8] = b"data:{\"choices\":[{\"delta\":{\"content\":\"Hello!\"}}]}\n\n";
    assert_eq!(run(OpenAiDecoder, &[body]), vec![content("Hello!")]);
}

#[test]
fn test_chat_with_reasoning_content() {
    let body: &[u8] = b"data:{\"choices\":[{\"delta\":{\"content\":\"\",\"reasoning_content\":\"Let me think...\"}}]}\n\ndata:{\"choices\":[{\"delta\":{\"content\":\"Hello!\",\"reasoning_content\":null}}]}\n\n";
    let result = aggregate(&run(OpenAiDecoder, &[body])).unwrap();
    assert_eq!(result.content, "Hello!");
    assert_eq!(result.thinking.as_deref(), Some("Let me think..."));
}

#[test]
fn openai_bad_line_does_not_abort_frame() {
    let body: &[u8] = b"data: {broken\ndata: {\"choices\":[{\"delta\":{\"content\":\"ok\"}}]}\n\n";
    let r = run(OpenAiDecoder, &[body]);
    assert_eq!(r.len(), 2);
    assert!(is_parse_error(&r[0]));
    assert_eq!(r[1], content("ok"));
}

#[test]
fn openai_event_lines_and_empty_choices() {
    let body: &[u8] = b"event: x\ndata: {\"choices\":[]}\n\n: comment\n\n";
    assert!(run(OpenAiDecoder, &[body]).is_empty());
    let r = process_choice(
        JsonField::Absent,
        JsonField::Absent,
        JsonField::Absent,
        JsonField::Absent,
        JsonField::Absent,
    );
    assert_eq!(r.len(), 1);
    assert!(is_parse_error(&r[0]));
}

#[test]
fn openai_missing_discriminant_defaults_to_content() {
    let r = process_choice(
        JsonField::Array,
        JsonField::Object,
        JsonField::Object,
        JsonField::Text("Hello".to_string()),
        JsonField::Absent,
    );
    assert_eq!(r, vec![content("Hello")]);
}

#[test]
fn transport_failure_ends_stream() {
    let mut s = ChatStream::new(OpenAiDecoder);
    let r = s.fail("connection reset".to_string());
    assert_eq!(r, vec![Err(ChatStreamError::TransportError("connection reset".to_string()))]);
    let body: &[u8] = b"data:{\"choices\":[{\"delta\":{\"content\":\"late\"}}]}\n\n";
    assert!(s.feed(body).is_empty());
    assert!(s.fail("again".to_string()).is_empty());
    assert!(s.finish().is_empty());
}

#[test]
fn finish_decodes_trailing_frame() {
    let mut s = ChatStream::new(OllamaDecoder::new());
    assert!(s.feed(br#"{"message":{"content":"tail"}}"#).is_empty());
    assert_eq!(s.finish(), vec![content("tail")]);
    assert!(s.finish().is_empty());
}
