use anyml::json_text::json_escape;
use anyml::{JsonValue, Message, MessageRole, ModelParams, ModelQuant, Thinking};

#[test]
fn message_constructors() {
    let m = Message::user("Hi");
    assert_eq!(m.content, "Hi");
    assert_eq!(m.role, MessageRole::User);
    assert_eq!(Message::assistant("a").role, MessageRole::Assistant);
    assert_eq!(Message::system("s").role, MessageRole::System);
    assert_eq!(Message::new("t", MessageRole::Tool).role, MessageRole::Tool);
}

#[test]
fn role_names_round_trip() {
    for name in ["user", "assistant", "system", "tool", "text", "moderator"] {
        let r = MessageRole::from_str(name);
        assert_eq!(r.as_str(), name);
    }
    assert_eq!(MessageRole::from_str("moderator"), MessageRole::Unknown("moderator".to_string()));
    assert_eq!(MessageRole::from_str("User"), MessageRole::Unknown("User".to_string()));
    assert_eq!(MessageRole::from_str("tool"), MessageRole::Tool);
}

#[test]
fn thinking_constructors() {
    assert_eq!(Thinking::budget_tokens(10000), Thinking::BudgetTokens(10000));
    assert_eq!(Thinking::effort("high"), Thinking::Effort("high".to_string()));
    assert_eq!(Thinking::enabled(), Thinking::Enabled);
}

#[test]
fn model_params_upper_cased() {
    assert_eq!(ModelParams::new("7b").as_str(), "7B");
    assert_eq!(ModelParams::new("ß").as_str(), "SS");
}

#[test]
fn model_quant_separators() {
    assert_eq!(ModelQuant::new("q4_k_m").as_str(), "Q4:KM");
    assert_eq!(ModelQuant::new("f16").as_str(), "F16");
    assert_eq!(ModelQuant::new("q8-0").as_str(), "Q8:0");
    assert_eq!(ModelQuant::from_uppercased("A__B-C").as_str(), "A:BC");
}

#[test]
fn json_escape_cases() {
    assert_eq!(json_escape("a\"b\\c\nd\re\tf"), "a\\\"b\\\\c\\nd\\re\\tf");
    assert_eq!(json_escape("\u{1}\u{1f}"), "\\u0001\\u001f");
    assert_eq!(json_escape("é ok"), "é ok");
}

#[test]
fn json_values_written() {
    let mut buf = String::new();
    "x\"y".write_json(&mut buf);
    buf.push(',');
    true.write_json(&mut buf);
    buf.push(',');
    false.write_json(&mut buf);
    buf.push(',');
    0usize.write_json(&mut buf);
    buf.push(',');
    4096u32.write_json(&mut buf);
    buf.push(',');
    u64::MAX.write_json(&mut buf);
    buf.push(',');
    (-17i32).write_json(&mut buf);
    buf.push(',');
    i64::MIN.write_json(&mut buf);
    buf.push(',');
    "s".to_string().write_json(&mut buf);
    assert_eq!(
        buf,
        "\"x\\\"y\",true,false,0,4096,18446744073709551615,-17,-9223372036854775808,\"s\""
    );
}

#[test]
fn role_from_any_case() {
    assert_eq!(MessageRole::from_any_case("ASSISTANT"), MessageRole::Assistant);
    assert_eq!(MessageRole::from_any_case("System"), MessageRole::System);
    assert_eq!(MessageRole::from_any_case("Bot"), MessageRole::Unknown("bot".to_string()));
}
