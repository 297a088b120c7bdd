use anyml::{aggregate, aggregate_lossy, AggregatedChat, ChatChunk, ChatStreamError};

fn content(s: &str) -> Result<ChatChunk, ChatStreamError> {
    Ok(ChatChunk::Content(s.to_string()))
}

fn thinking(s: &str) -> Result<ChatChunk, ChatStreamError> {
    Ok(ChatChunk::Thinking(s.to_string()))
}

#[test]
fn strict_aggregation_returns_first_error() {
    let items = vec![
        content("Hi"),
        Err(ChatStreamError::ParseError("bad".to_string())),
        content("there"),
        Err(ChatStreamError::ParseError("later".to_string())),
    ];
    assert_eq!(
        aggregate(&items),
        Err(ChatStreamError::ParseError("bad".to_string()))
    );
}

#[test]
fn lossy_aggregation_skips_errors() {
    let items = vec![
        content("Hi"),
        Err(ChatStreamError::ParseError("bad".to_string())),
        content("there"),
    ];
    let r = aggregate_lossy(&items);
    assert_eq!(r.content, "Hithere");
    assert_eq!(r.thinking, None);
}

#[test]
fn strict_aggregation_without_errors_folds_in_order() {
    let items = vec![thinking("a"), content("x"), thinking("b"), content("y")];
    let r = aggregate(&items).unwrap();
    assert_eq!(r.content, "xy");
    assert_eq!(r.thinking.as_deref(), Some("ab"));
    assert_eq!(aggregate_lossy(&items), r);
}

#[test]
fn aggregation_of_nothing_is_empty() {
    let items: Vec<Result<ChatChunk, ChatStreamError>> = Vec::new();
    let r = aggregate(&items).unwrap();
    assert_eq!(r.content, "");
    assert_eq!(r.thinking, None);
}

#[test]
fn push_creates_reasoning_on_first_reasoning_event() {
    let mut a = AggregatedChat::new();
    a.push(&ChatChunk::Content("c".to_string()));
    assert_eq!(a.thinking, None);
    a.push(&ChatChunk::Thinking("".to_string()));
    assert_eq!(a.thinking.as_deref(), Some(""));
    a.push(&ChatChunk::Thinking("t".to_string()));
    assert_eq!(a.thinking.as_deref(), Some("t"));
    assert_eq!(a.content, "c");
}

#[test]
fn transport_error_is_kept_by_strict_aggregation() {
    let items = vec![content("a"), Err(ChatStreamError::TransportError("down".to_string()))];
    assert_eq!(
        aggregate(&items),
        Err(ChatStreamError::TransportError("down".to_string()))
    );
    assert_eq!(aggregate_lossy(&items).content, "a");
}

#[test]
fn default_aggregation_is_empty() {
    let a = AggregatedChat::default();
    assert_eq!(a, AggregatedChat::new());
    assert_eq!(a.content, "");
    assert_eq!(a.thinking, None);
}
