use llm_gateway::model::LanguageModelPrompt;
use llm_gateway::Image;
use llm_gateway::Message;

fn text_of(m: &Message) -> &str {
    match m {
        Message::Text { text } => text.as_str(),
        Message::Image(_) => panic!("expected a text turn"),
    }
}

#[test]
fn messages_keep_append_order() {
    let prompt = LanguageModelPrompt::from_text(String::from("first"))
        .add_message(Message::Text { text: String::from("second") })
        .add_message(Message::Text { text: String::from("third") });
    assert_eq!(prompt.messages.len(), 3);
    assert_eq!(text_of(&prompt.messages[0]), "first");
    assert_eq!(text_of(&prompt.messages[1]), "second");
    assert_eq!(text_of(&prompt.messages[2]), "third");
}

#[test]
fn defaults_match_the_documented_values() {
    let prompt = LanguageModelPrompt::from_text(String::from("hi"));
    assert_eq!(prompt.max_tokens, 1024);
    assert_eq!(prompt.temperature_milli, 630);
    assert!(prompt.stop_sequences.is_empty());
    assert!(prompt.system.is_none());
}

#[test]
fn setters_change_one_field_each() {
    let prompt = LanguageModelPrompt::from_text(String::from("hi"))
        .max_tokens(99)
        .temperature(500)
        .stop_sequence(String::from("END"))
        .system(String::from("be brief"));
    assert_eq!(prompt.max_tokens, 99);
    assert_eq!(prompt.temperature_milli, 500);
    assert_eq!(prompt.stop_sequences.len(), 1);
    assert_eq!(prompt.stop_sequences[0], "END");
    assert_eq!(prompt.system.as_deref(), Some("be brief"));
    assert_eq!(prompt.messages.len(), 1);
}

#[test]
fn image_prompt_holds_one_image_turn() {
    let prompt = LanguageModelPrompt::from_image(Image::new(
        String::from("image/png"),
        vec![1, 2, 3],
    ));
    assert_eq!(prompt.messages.len(), 1);
    match &prompt.messages[0] {
        Message::Image(img) => {
            assert_eq!(img.media_type(), "image/png");
            assert_eq!(img.data(), vec![1, 2, 3]);
        },
        Message::Text { .. } => panic!("expected an image turn"),
    }
}

#[test]
fn image_renders_as_data_uri() {
    let img = Image::new(String::from("image/png"), vec![0, 1, 2]);
    assert_eq!(img.as_text(), "data:image/png;base64,AAEC");
    let msg = Message::Image(img);
    assert_eq!(msg.as_text(), "data:image/png;base64,AAEC");
    let txt = Message::Text { text: String::from("hello") };
    assert_eq!(txt.as_text(), "hello");
}
