use llm_gateway::model::anthropic::classify_bedrock_response;
use llm_gateway::model::anthropic::classify_response;
use llm_gateway::model::anthropic::inference_result;
use llm_gateway::model::anthropic::wire_result;
use llm_gateway::model::anthropic::AnthropicContent;
use llm_gateway::model::anthropic::AnthropicMessageResponse;
use llm_gateway::model::anthropic::WireOutcome;
use llm_gateway::Error;
use llm_gateway::Message;

fn message_body(content: &str) -> String {
    format!(
        "{{\"type\":\"message\",\"id\":\"m1\",\"model\":\"m-large\",\"role\":\"assistant\",\"stop_reason\":\"end_turn\",\"stop_sequence\":null,\"usage\":{{\"input_tokens\":10,\"output_tokens\":25}},\"content\":{}}}",
        content,
    )
}

fn expect_message(outcome: WireOutcome) -> AnthropicMessageResponse {
    match outcome {
        WireOutcome::Message(msg) => msg,
        other => panic!("expected a message envelope, got {:?}", other),
    }
}

#[test]
fn message_envelope_is_decoded() {
    let body = message_body("[{\"type\":\"text\",\"text\":\"hello\"}]");
    let msg = expect_message(classify_response(200, &body));
    assert_eq!(msg.id(), "m1");
    assert_eq!(msg.model(), "m-large");
    assert_eq!(msg.role(), "assistant");
    assert_eq!(msg.stop_reason(), "end_turn");
    assert!(msg.stop_sequence().is_none());
    assert_eq!(msg.usage().input_tokens(), 10);
    assert_eq!(msg.usage().output_tokens(), 25);
    assert_eq!(msg.content().len(), 1);
    match &msg.content()[0] {
        AnthropicContent::Text { text } => assert_eq!(text, "hello"),
        AnthropicContent::Image { .. } => panic!("expected text content"),
    }
}

#[test]
fn error_envelope_keeps_message_verbatim() {
    let body = "{\"type\":\"error\",\"error\":{\"type\":\"overloaded_error\",\"message\":\"busy\"}}";
    match classify_response(200, body) {
        WireOutcome::ErrorEnvelope(e) => {
            assert_eq!(e.error_type(), "overloaded_error");
            assert_eq!(e.message(), "busy");
        },
        other => panic!("expected an error envelope, got {:?}", other),
    }
    match inference_result(Ok(classify_response(200, body))) {
        Err(Error::ModelResponse(m)) => assert_eq!(m, "busy"),
        _ => panic!("expected the model-rejected error"),
    }
}

#[test]
fn empty_content_is_the_no_content_failure() {
    let body = message_body("[]");
    match inference_result(Ok(classify_response(200, &body))) {
        Err(Error::Unexpected(m)) => assert_eq!(m, "no-content"),
        _ => panic!("expected the no-content failure"),
    }
}

#[test]
fn first_text_block_becomes_the_reply() {
    let body = message_body(
        "[{\"type\":\"text\",\"text\":\"first\"},{\"type\":\"text\",\"text\":\"second\"}]",
    );
    match inference_result(Ok(classify_response(200, &body))) {
        Ok(Message::Text { text }) => assert_eq!(text, "first"),
        _ => panic!("expected the first text block"),
    }
}

#[test]
fn image_reply_is_decoded() {
    let body = message_body(
        "[{\"type\":\"image\",\"source\":{\"type\":\"base64\",\"media_type\":\"image/png\",\"data\":\"AAEC\"}}]",
    );
    match inference_result(Ok(classify_response(200, &body))) {
        Ok(Message::Image(img)) => {
            assert_eq!(img.media_type(), "image/png");
            assert_eq!(img.data(), vec![0, 1, 2]);
        },
        _ => panic!("expected an image reply"),
    }
}

#[test]
fn bad_image_data_is_a_decode_failure() {
    let body = message_body(
        "[{\"type\":\"image\",\"source\":{\"type\":\"base64\",\"media_type\":\"image/png\",\"data\":\"!!\"}}]",
    );
    match inference_result(Ok(classify_response(200, &body))) {
        Err(Error::Decode(m)) => assert_eq!(m, "invalid base64 data"),
        _ => panic!("expected the decode failure"),
    }
}

#[test]
fn unparseable_body_is_a_decode_failure() {
    match classify_response(200, "not json") {
        WireOutcome::Malformed(d) => assert_eq!(d, "response body is not valid JSON"),
        other => panic!("expected a malformed outcome, got {:?}", other),
    }
    match inference_result(Ok(classify_response(200, "not json"))) {
        Err(Error::Decode(m)) => assert_eq!(m, "response body is not valid JSON"),
        _ => panic!("expected the decode failure"),
    }
}

#[test]
fn unrecognized_envelope_is_a_decode_failure() {
    match inference_result(Ok(classify_response(200, "{\"type\":\"bogus\"}"))) {
        Err(Error::Decode(m)) => {
            assert_eq!(m, "response body fits neither a message nor an error envelope");
        },
        _ => panic!("expected the decode failure"),
    }
}

#[test]
fn transport_failure_is_kept_apart_from_rejection() {
    match inference_result(Err(String::from("connection reset"))) {
        Err(Error::Transport(m)) => assert_eq!(m, "connection reset"),
        _ => panic!("expected the transport failure"),
    }
}

#[test]
fn failing_status_keeps_the_error_envelope() {
    let body = "{\"type\":\"error\",\"error\":{\"type\":\"rate_limit\",\"message\":\"slow down\"}}";
    match classify_response(429, body) {
        WireOutcome::ErrorEnvelope(e) => {
            assert_eq!(e.error_type(), "rate_limit");
            assert_eq!(e.message(), "slow down");
        },
        other => panic!("expected an error envelope, got {:?}", other),
    }
}

#[test]
fn message_envelope_under_failing_status_is_malformed() {
    let body = message_body("[{\"type\":\"text\",\"text\":\"hello\"}]");
    match classify_response(500, &body) {
        WireOutcome::Malformed(d) => {
            assert_eq!(d, "unexpected message envelope under a failing status");
        },
        other => panic!("expected a malformed outcome, got {:?}", other),
    }
}

#[test]
fn off_protocol_status_is_classified_by_code() {
    match classify_response(302, "") {
        WireOutcome::BadStatus(s) => assert_eq!(s, 302),
        other => panic!("expected a status outcome, got {:?}", other),
    }
    match inference_result(Ok(classify_response(302, ""))) {
        Err(Error::Unexpected(m)) => assert_eq!(m, "invalid status 302"),
        _ => panic!("expected the unexpected-status failure"),
    }
}

#[test]
fn wire_result_folds_outcomes_into_envelopes() {
    match wire_result(classify_response(200, "not json")) {
        Err(e) => {
            assert_eq!(e.error_type(), "invalid_response_error");
            assert_eq!(e.message(), "response body is not valid JSON");
        },
        Ok(_) => panic!("expected an envelope error"),
    }
    match wire_result(classify_response(302, "")) {
        Err(e) => {
            assert_eq!(e.error_type(), "invalid_status_error");
            assert_eq!(e.message(), "302");
        },
        Ok(_) => panic!("expected an envelope error"),
    }
}

#[test]
fn bedrock_reply_is_classified_by_payload_alone() {
    let body = message_body("[{\"type\":\"text\",\"text\":\"hello\"}]");
    let msg = expect_message(classify_bedrock_response(&body));
    assert_eq!(msg.id(), "m1");
}

#[test]
fn whitespace_and_escapes_are_read() {
    let body = "{ \"type\" : \"error\" ,\n \"error\" : { \"type\" : \"x\", \"message\" : \"a\\u0041\\n\\ud83d\\ude00\" } }";
    match classify_response(200, body) {
        WireOutcome::ErrorEnvelope(e) => assert_eq!(e.message(), "aA\n\u{1F600}"),
        other => panic!("expected an error envelope, got {:?}", other),
    }
}

#[test]
fn oversized_usage_is_malformed() {
    let body = "{\"type\":\"message\",\"id\":\"m\",\"model\":\"c\",\"role\":\"assistant\",\"stop_reason\":\"end_turn\",\"usage\":{\"input_tokens\":99999999999999999999999,\"output_tokens\":1},\"content\":[]}";
    match classify_response(200, body) {
        WireOutcome::Malformed(_) => {},
        other => panic!("expected a malformed outcome, got {:?}", other),
    }
}
