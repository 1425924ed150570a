use llm_gateway::json::dec_string;
use llm_gateway::json::parse::lexeme_u64;
use llm_gateway::json::parse::parse_json;
use llm_gateway::json::render_string;
use llm_gateway::json::Json;
use llm_gateway::model::anthropic::milli_string;

fn num(s: &str) -> Json {
    Json::Num(String::from(s))
}

fn st(s: &str) -> Json {
    Json::Str(String::from(s))
}

#[test]
fn decimal_renderings_are_exact() {
    assert_eq!(dec_string(0), "0");
    assert_eq!(dec_string(7), "7");
    assert_eq!(dec_string(1024), "1024");
    assert_eq!(dec_string(u64::MAX), "18446744073709551615");
}

#[test]
fn temperature_lexemes_are_exact() {
    assert_eq!(milli_string(630), "0.63");
    assert_eq!(milli_string(1000), "1.0");
    assert_eq!(milli_string(0), "0.0");
    assert_eq!(milli_string(500), "0.5");
    assert_eq!(milli_string(5), "0.005");
    assert_eq!(milli_string(1250), "1.25");
}

#[test]
fn rendering_is_compact_and_ordered() {
    let doc = Json::Obj(vec![
        (String::from("a"), Json::Null),
        (String::from("b"), Json::Bool(true)),
        (String::from("c"), num("42")),
        (String::from("d"), Json::Arr(vec![st("x"), Json::Bool(false)])),
    ]);
    assert_eq!(
        render_string(&doc),
        "{\"a\":null,\"b\":true,\"c\":42,\"d\":[\"x\",false]}",
    );
}

#[test]
fn rendering_escapes_string_bodies() {
    let doc = st("a\"b\\c\n\t\r\u{8}\u{c}\u{1f}");
    assert_eq!(render_string(&doc), "\"a\\\"b\\\\c\\n\\t\\r\\b\\f\\u001f\"");
}

#[test]
fn parsing_reads_every_value_kind() {
    let text = " { \"a\" : [ 1 , -2.5e3 , true , false , null ] , \"b\" : \"s\" } ";
    let doc = parse_json(text).expect("expected a parse");
    match doc {
        Json::Obj(members) => {
            assert_eq!(members.len(), 2);
            assert_eq!(members[0].0, "a");
            match &members[0].1 {
                Json::Arr(items) => {
                    assert_eq!(items.len(), 5);
                    assert!(matches!(&items[0], Json::Num(s) if s == "1"));
                    assert!(matches!(&items[1], Json::Num(s) if s == "-2.5e3"));
                    assert!(matches!(items[2], Json::Bool(true)));
                    assert!(matches!(items[3], Json::Bool(false)));
                    assert!(matches!(items[4], Json::Null));
                },
                _ => panic!("expected an array"),
            }
            assert_eq!(members[1].0, "b");
            assert!(matches!(&members[1].1, Json::Str(s) if s == "s"));
        },
        _ => panic!("expected an object"),
    }
}

#[test]
fn parsing_decodes_escapes() {
    let doc = parse_json("\"a\\u0041\\\"\\\\\\/\\b\\f\\n\\r\\t\\ud83d\\ude00\"")
        .expect("expected a parse");
    match doc {
        Json::Str(s) => assert_eq!(s, "aA\"\\/\u{8}\u{c}\n\r\t\u{1F600}"),
        _ => panic!("expected a string"),
    }
}

#[test]
fn parsing_rejects_malformed_text() {
    assert!(parse_json("").is_none());
    assert!(parse_json("{").is_none());
    assert!(parse_json("[1,]").is_none());
    assert!(parse_json("{\"a\":}").is_none());
    assert!(parse_json("\"\\q\"").is_none());
    assert!(parse_json("\"\\ud800\"").is_none());
    assert!(parse_json("01").is_none());
    assert!(parse_json("1.").is_none());
    assert!(parse_json("1e").is_none());
    assert!(parse_json("nul").is_none());
    assert!(parse_json("[1] [2]").is_none());
    assert!(parse_json("\"unterminated").is_none());
}

#[test]
fn round_trip_of_rendered_documents() {
    let doc = Json::Obj(vec![
        (String::from("k\ney"), Json::Arr(vec![num("0"), st("v")])),
        (String::from("z"), Json::Obj(vec![])),
    ]);
    let text = render_string(&doc);
    let back = parse_json(&text).expect("expected the rendering to parse");
    assert_eq!(render_string(&back), text);
}

#[test]
fn digit_lexemes_value_exactly() {
    assert_eq!(lexeme_u64("0"), Some(0));
    assert_eq!(lexeme_u64("1024"), Some(1024));
    assert_eq!(lexeme_u64("18446744073709551615"), Some(u64::MAX));
    assert_eq!(lexeme_u64("18446744073709551616"), None);
    assert_eq!(lexeme_u64(""), None);
    assert_eq!(lexeme_u64("12a"), None);
    assert_eq!(lexeme_u64("-3"), None);
}
