use llm_gateway::model::anthropic::AnthropicModel;
use llm_gateway::model::LanguageModelPrompt;
use llm_gateway::LanguageModel;
use llm_gateway::Message;

#[test]
fn facade_builds_the_direct_backend() {
    let lm = LanguageModel::anthropic(
        String::from("k"),
        String::from("2023-06-01"),
        String::from("m-large"),
    );
    let LanguageModel::Anthropic(inner) = lm;
    match inner {
        AnthropicModel::Anthropic { api_key, api_version, model } => {
            assert_eq!(api_key, "k");
            assert_eq!(api_version, "2023-06-01");
            assert_eq!(model, "m-large");
        },
        AnthropicModel::Bedrock { .. } => panic!("expected the direct backend"),
    }
}

#[test]
fn facade_builds_the_managed_backend() {
    let lm = LanguageModel::anthropic_bedrock(String::from("v"), String::from("m"), None);
    let LanguageModel::Anthropic(inner) = lm;
    match inner {
        AnthropicModel::Bedrock { aws_config, api_version, model } => {
            assert!(aws_config.is_none());
            assert_eq!(api_version, "v");
            assert_eq!(model, "m");
        },
        AnthropicModel::Anthropic { .. } => panic!("expected the managed runtime"),
    }
}

#[test]
fn prompt_body_marshals_the_whole_prompt() {
    let LanguageModel::Anthropic(model) = LanguageModel::anthropic(
        String::from("k"),
        String::from("2023-06-01"),
        String::from("m-large"),
    );
    let prompt = LanguageModelPrompt::from_text(String::from("hi"))
        .add_message(Message::Text { text: String::from("there") });
    let body = model.prompt_body(&prompt);
    assert_eq!(
        body,
        "{\"model\":\"m-large\",\"max_tokens\":1024,\"messages\":[{\"role\":\"user\",\"content\":[{\"type\":\"text\",\"text\":\"hi\"},{\"type\":\"text\",\"text\":\"there\"}]}],\"temperature\":0.63}",
    );
}

#[test]
fn message_conversions_build_turns() {
    let m: Message = String::from("hello").into();
    assert_eq!(m.as_text(), "hello");
    let m: Message = llm_gateway::Image::new(String::from("image/gif"), vec![255]).into();
    match m {
        Message::Image(img) => assert_eq!(img.media_type(), "image/gif"),
        Message::Text { .. } => panic!("expected an image turn"),
    }
}

#[test]
fn decoded_config_marshals_requests() {
    let model = llm_gateway::model::anthropic::decode_model_config(
        "{\"aws_config\":{\"access_key\":\"a\",\"secret_key\":\"s\"},\"api_version\":\"v1\",\"model\":\"m\"}",
    )
    .expect("expected a managed-runtime configuration");
    let prompt = LanguageModelPrompt::from_text(String::from("hi"));
    let body = model.prompt_body(&prompt);
    assert_eq!(
        body,
        "{\"anthropic_version\":\"v1\",\"max_tokens\":1024,\"messages\":[{\"role\":\"user\",\"content\":{\"type\":\"text\",\"text\":\"hi\"}}],\"temperature\":0.63}",
    );
}
