//! Every response body must be valid JSON and must decode back to the values
//! the pipeline produced; checked here with an independent JSON parser.

use greeting_handler::response::{handle_event, InvocationEnvelope, Template};

fn run(t: Template, body: Option<&str>) -> serde_json::Value {
    let r = handle_event(&t, InvocationEnvelope { body: body.map(|s| s.to_string()) });
    assert_eq!(r.status_code, 200);
    serde_json::from_str(&r.body).expect("the response body is valid JSON")
}

#[test]
fn extended_body_round_trips() {
    let v = run(Template::Extended, Some("{\"first_name\":\"Ann\",\"last_name\":\"Lee\",\"age\":20}"));
    assert_eq!(v.get("first_name").and_then(|x| x.as_str()), Some("Ann"));
    assert_eq!(v.get("last_name").and_then(|x| x.as_str()), Some("Lee"));
    assert_eq!(v.get("age").and_then(|x| x.as_i64()), Some(20));
    assert_eq!(v.get("adult").and_then(|x| x.as_bool()), Some(true));
}

#[test]
fn extended_defaults_round_trip() {
    let v = run(Template::Extended, None);
    assert_eq!(v.get("first_name").and_then(|x| x.as_str()), Some("Guest"));
    assert_eq!(v.get("last_name").and_then(|x| x.as_str()), Some(""));
    assert!(v.get("age").map(|x| x.is_null()).unwrap_or(false));
    assert_eq!(v.get("adult").and_then(|x| x.as_bool()), Some(false));
}

#[test]
fn minimal_body_round_trips() {
    let v = run(Template::Minimal, Some("{\"name\":\"Sam\"}"));
    assert_eq!(v.get("message").and_then(|x| x.as_str()), Some("Hello Sam"));
}

#[test]
fn escaped_names_round_trip() {
    let v = run(
        Template::Extended,
        Some("{\"first_name\":\"A\\\"quote\",\"last_name\":\"back\\\\slash\",\"age\":1}"),
    );
    assert_eq!(v.get("first_name").and_then(|x| x.as_str()), Some("A\"quote"));
    assert_eq!(v.get("last_name").and_then(|x| x.as_str()), Some("back\\slash"));
}

#[test]
fn control_characters_round_trip() {
    let v = run(Template::Minimal, Some("{\"name\":\"line\\nbreak\\ttab\"}"));
    assert_eq!(v.get("message").and_then(|x| x.as_str()), Some("Hello line\nbreak\ttab"));
}

#[test]
fn unicode_names_round_trip() {
    let v = run(Template::Minimal, Some("{\"name\":\"R\u{00e9}mi \u{4f60}\u{597d}\"}"));
    assert_eq!(
        v.get("message").and_then(|x| x.as_str()),
        Some("Hello R\u{00e9}mi \u{4f60}\u{597d}")
    );
}
