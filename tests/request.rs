use anyml::{ChatOptions, Message, Thinking};

#[test]
fn messages_json_layout() {
    let msgs = [Message::user("Hi \"there\""), Message::assistant("ok")];
    let o = ChatOptions::new("m").messages(&msgs);
    assert_eq!(
        o.messages.to_json(),
        "[{\"content\":\"Hi \\\"there\\\"\",\"role\":\"user\"},{\"content\":\"ok\",\"role\":\"assistant\"}]"
    );
    assert_eq!(ChatOptions::new("m").messages.to_json(), "[]");
}

#[test]
fn options_builders() {
    let o = ChatOptions::new("a").model("b").stream(false).max_tokens(0);
    assert_eq!(o.model, "b");
    assert!(!o.stream);
    assert_eq!(o.max_tokens, 1);
    assert!(o.thinking.is_none());
    let o = o.max_tokens(16384).thinking(Thinking::enabled());
    assert_eq!(o.max_tokens, 16384);
    assert_eq!(o.thinking, Some(Thinking::Enabled));
    let o = o.messages_serialized("[1]".to_string());
    assert_eq!(o.messages.to_json(), "[1]");
}

#[test]
fn anthropic_bodies() {
    let msgs = [Message::user("Hi")];
    let o = ChatOptions::new("haiku").messages(&msgs);
    let m = "[{\"content\":\"Hi\",\"role\":\"user\"}]";
    assert_eq!(
        o.anthropic_body(),
        format!("{{\"model\":\"haiku\",\"messages\":{m},\"stream\":true,\"max_tokens\":4096}}")
    );
    let o2 = o.clone().max_tokens(16384).thinking(Thinking::budget_tokens(10000));
    assert_eq!(
        o2.anthropic_body(),
        format!("{{\"model\":\"haiku\",\"messages\":{m},\"stream\":true,\"max_tokens\":16384,\"thinking\":{{\"type\":\"enabled\",\"budget_tokens\":10000}}}}")
    );
    let o3 = o.clone().thinking(Thinking::enabled());
    assert!(o3.anthropic_body().ends_with("\"budget_tokens\":10000}}"));
    let o4 = o.thinking(Thinking::effort("high"));
    assert!(o4
        .anthropic_body()
        .ends_with(",\"thinking\":{\"type\":\"adaptive\",\"effort\":\"high\"}}"));
}

#[test]
fn ollama_bodies() {
    let o = ChatOptions::new("llama2").stream(false);
    assert_eq!(o.ollama_body(), "{\"model\":\"llama2\",\"messages\":[],\"stream\":false}");
    let o = o.thinking(Thinking::enabled());
    assert_eq!(
        o.ollama_body(),
        "{\"model\":\"llama2\",\"messages\":[],\"stream\":false,\"think\":true}"
    );
}

#[test]
fn openai_bodies() {
    let o = ChatOptions::new("gpt-4");
    assert_eq!(
        o.openai_body(),
        "{\"model\":\"gpt-4\",\"messages\":[],\"stream\":true,\"max_tokens\":4096}"
    );
    assert_eq!(
        o.clone().thinking(Thinking::effort("high")).openai_body(),
        "{\"model\":\"gpt-4\",\"messages\":[],\"stream\":true,\"max_completion_tokens\":4096,\"reasoning_effort\":\"high\"}"
    );
    assert_eq!(
        o.thinking(Thinking::budget_tokens(5)).openai_body(),
        "{\"model\":\"gpt-4\",\"messages\":[],\"stream\":true,\"max_completion_tokens\":4096,\"reasoning_effort\":\"medium\"}"
    );
}
