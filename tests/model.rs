use anyml::{Model, ModelParams, ModelQuant};

fn model(id: &str) -> Model {
    Model { id: id.to_string(), parameters: None, quantization: None, thinking: None }
}

#[test]
fn name_strips_tag_and_capitalises() {
    assert_eq!(model("llama2:7b").name(), "Llama2");
    assert_eq!(model("deepseek-r1:7b").name(), "Deepseek R1");
}

#[test]
fn name_dash_between_digits_becomes_dot() {
    assert_eq!(model("library/llama-3-1").name(), "Llama 3.1");
    assert_eq!(model("qwen2.5-coder").name(), "Qwen2.5 Coder");
}

#[test]
fn name_acronyms_and_paths() {
    assert_eq!(model("gpt-4o").name(), "GPT 4o");
    assert_eq!(model("mistral_ai\\Mixtral-8x7b-moe").name(), "Mixtral 8x7b MoE");
    assert_eq!(model("sdxl_turbo").name(), "SDXL Turbo");
    assert_eq!(model("Open_AI__api").name(), "Open AI API");
}

#[test]
fn name_collapses_whitespace_and_handles_empty() {
    assert_eq!(model("a__b  c").name(), "A B C");
    assert_eq!(model(":tag").name(), "");
    assert_eq!(model("élan").name(), "Élan");
}

#[test]
fn model_to_string_with_details() {
    let mut m = model("llama2:7b");
    assert_eq!(m.to_string(), "Llama2");
    m.parameters = Some(ModelParams::new("7b"));
    assert_eq!(m.to_string(), "Llama2 (7B)");
    m.quantization = Some(ModelQuant::new("q4_0"));
    assert_eq!(m.to_string(), "Llama2 (7B Q4:0)");
    m.parameters = None;
    assert_eq!(m.to_string(), "Llama2 (Q4:0)");
}
