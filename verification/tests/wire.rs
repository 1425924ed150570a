use llm_gateway::model::anthropic::AnthropicContent;
use llm_gateway::model::anthropic::AnthropicImageContent;
use llm_gateway::model::anthropic::AnthropicModel;
use llm_gateway::Image;

fn direct_model() -> AnthropicModel {
    AnthropicModel::new(
        String::from("k"),
        String::from("2023-06-01"),
        String::from("m-large"),
    )
}

fn text_block(s: &str) -> AnthropicContent {
    AnthropicContent::Text { text: String::from(s) }
}

#[test]
fn image_content_round_trips_bytes() {
    let image = Image::new(String::from("image/png"), vec![0, 1, 2]);
    let wire = AnthropicImageContent::of_image(&image);
    assert_eq!(wire.media_type(), "image/png");
    assert_eq!(wire.data, "AAEC");
    assert_eq!(wire.data(), Some(vec![0, 1, 2]));
}

#[test]
fn image_content_rejects_malformed_base64() {
    let wire = AnthropicImageContent::new(String::from("image/png"), String::from("!!"));
    assert_eq!(wire.data(), None);
}

#[test]
fn single_block_is_inlined() {
    let model = direct_model();
    let body = model.request_body(&vec![text_block("hi")], 1024, &vec![], &None, 630, &None);
    assert_eq!(
        body,
        "{\"model\":\"m-large\",\"max_tokens\":1024,\"messages\":[{\"role\":\"user\",\"content\":{\"type\":\"text\",\"text\":\"hi\"}}],\"temperature\":0.63}",
    );
}

#[test]
fn two_blocks_are_a_list() {
    let model = direct_model();
    let body = model.request_body(
        &vec![text_block("a"), text_block("b")],
        1024,
        &vec![],
        &None,
        630,
        &None,
    );
    assert_eq!(
        body,
        "{\"model\":\"m-large\",\"max_tokens\":1024,\"messages\":[{\"role\":\"user\",\"content\":[{\"type\":\"text\",\"text\":\"a\"},{\"type\":\"text\",\"text\":\"b\"}]}],\"temperature\":0.63}",
    );
}

#[test]
fn empty_content_adds_no_turn() {
    let model = direct_model();
    let body = model.request_body(&vec![], 1024, &vec![], &None, 630, &None);
    assert_eq!(
        body,
        "{\"model\":\"m-large\",\"max_tokens\":1024,\"messages\":[],\"temperature\":0.63}",
    );
}

#[test]
fn empty_stop_sequences_are_omitted() {
    let model = direct_model();
    let body = model.request_body(&vec![text_block("hi")], 1024, &vec![], &None, 630, &None);
    assert!(!body.contains("stop_sequences"));
}

#[test]
fn one_stop_sequence_is_carried() {
    let model = direct_model();
    let body = model.request_body(
        &vec![text_block("hi")],
        1024,
        &vec![String::from("END")],
        &None,
        630,
        &None,
    );
    assert_eq!(
        body,
        "{\"model\":\"m-large\",\"max_tokens\":1024,\"messages\":[{\"role\":\"user\",\"content\":{\"type\":\"text\",\"text\":\"hi\"}}],\"stop_sequences\":[\"END\"],\"temperature\":0.63}",
    );
}

#[test]
fn system_and_image_are_marshaled() {
    let model = direct_model();
    let image = Image::new(String::from("image/png"), vec![0, 1, 2]);
    let source = AnthropicImageContent::of_image(&image);
    let body = model.request_body(
        &vec![AnthropicContent::Image { source }],
        7,
        &vec![],
        &Some(String::from("look")),
        1000,
        &None,
    );
    assert_eq!(
        body,
        "{\"model\":\"m-large\",\"max_tokens\":7,\"messages\":[{\"role\":\"user\",\"content\":{\"type\":\"image\",\"source\":{\"type\":\"base64\",\"media_type\":\"image/png\",\"data\":\"AAEC\"}}}],\"system\":\"look\",\"temperature\":1.0}",
    );
}

#[test]
fn bedrock_body_carries_version_not_model() {
    let model = AnthropicModel::bedrock(
        String::from("bedrock-2023-05-31"),
        String::from("m-large"),
        None,
    );
    let body = model.request_body(&vec![text_block("hi")], 1024, &vec![], &None, 630, &None);
    assert_eq!(
        body,
        "{\"anthropic_version\":\"bedrock-2023-05-31\",\"max_tokens\":1024,\"messages\":[{\"role\":\"user\",\"content\":{\"type\":\"text\",\"text\":\"hi\"}}],\"temperature\":0.63}",
    );
}

#[test]
fn string_escapes_are_rendered() {
    let model = direct_model();
    let body = model.request_body(
        &vec![text_block("a\"b\\c\nd\te\u{1}")],
        1024,
        &vec![],
        &None,
        630,
        &None,
    );
    assert!(body.contains("a\\\"b\\\\c\\nd\\te\\u0001"));
}
