use anyml::split_thinking;

#[test]
fn split_complete_block() {
    let mut inside = false;
    let (content, thinking) = split_thinking("<think>A</think>B", &mut inside);
    assert_eq!(content, "B");
    assert_eq!(thinking.as_deref(), Some("A"));
    assert!(!inside);
}

#[test]
fn split_without_markers() {
    let mut inside = false;
    let (content, thinking) = split_thinking("plain text", &mut inside);
    assert_eq!(content, "plain text");
    assert_eq!(thinking, None);
    assert!(!inside);
}

#[test]
fn split_spanning_two_calls() {
    let mut inside = false;
    let (c1, t1) = split_thinking("<think>Step ", &mut inside);
    assert_eq!(c1, "");
    assert_eq!(t1.as_deref(), Some("Step "));
    assert!(inside);
    let (c2, t2) = split_thinking("one</think>Answer", &mut inside);
    assert_eq!(c2, "Answer");
    assert_eq!(t2.as_deref(), Some("one"));
    assert!(!inside);
}

#[test]
fn split_empty_span_gives_no_reasoning() {
    let mut inside = false;
    let (content, thinking) = split_thinking("a<think></think>b", &mut inside);
    assert_eq!(content, "ab");
    assert_eq!(thinking, None);
}

#[test]
fn split_several_spans_and_unclosed_tail() {
    let mut inside = false;
    let (content, thinking) = split_thinking("x<think>1</think>y<think>2</think>z<think>3", &mut inside);
    assert_eq!(content, "xyz");
    assert_eq!(thinking.as_deref(), Some("123"));
    assert!(inside);
}

#[test]
fn split_markers_are_case_sensitive() {
    let mut inside = false;
    let (content, thinking) = split_thinking("<THINK>a</THINK>", &mut inside);
    assert_eq!(content, "<THINK>a</THINK>");
    assert_eq!(thinking, None);
}

#[test]
fn split_empty_text_keeps_state() {
    let mut inside = true;
    let (content, thinking) = split_thinking("", &mut inside);
    assert_eq!(content, "");
    assert_eq!(thinking, None);
    assert!(inside);
}
