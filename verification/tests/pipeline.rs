//! End-to-end tests of the pipeline, driving it with real event bodies.

use greeting_handler::fields::{defaults_a, defaults_b, extract_raw, RawFields};
use greeting_handler::greeting::{greet_extended, is_adult, name_to_greeting};
use greeting_handler::response::{handle_event, respond, InvocationEnvelope, Template};

fn envelope(body: Option<&str>) -> InvocationEnvelope {
    InvocationEnvelope { body: body.map(|s| s.to_string()) }
}

#[test]
fn extended_full_body() {
    let r = handle_event(
        &Template::Extended,
        envelope(Some("{\"first_name\":\"Ann\",\"last_name\":\"Lee\",\"age\":20}")),
    );
    assert_eq!(r.status_code, 200);
    assert_eq!(r.body, "{\"first_name\":\"Ann\",\"last_name\":\"Lee\",\"age\":20,\"adult\":true}");
}

#[test]
fn extended_absent_body() {
    let r = handle_event(&Template::Extended, envelope(None));
    assert_eq!(r.status_code, 200);
    assert_eq!(r.body, "{\"first_name\":\"Guest\",\"last_name\":\"\",\"age\":null,\"adult\":false}");
}

#[test]
fn extended_partial_body() {
    let r = handle_event(&Template::Extended, envelope(Some("{\"first_name\":\"Kid\",\"age\":10}")));
    assert_eq!(r.body, "{\"first_name\":\"Kid\",\"last_name\":\"\",\"age\":10,\"adult\":false}");
}

#[test]
fn extended_malformed_body() {
    let r = handle_event(&Template::Extended, envelope(Some("{not json")));
    assert_eq!(r.body, "{\"first_name\":\"Guest\",\"last_name\":\"\",\"age\":null,\"adult\":false}");
}

#[test]
fn extended_wrong_kind_members() {
    // A numeric first name and a string age count as absent members.
    let r = handle_event(
        &Template::Extended,
        envelope(Some("{\"first_name\":5,\"last_name\":\"Lee\",\"age\":\"x\"}")),
    );
    assert_eq!(r.body, "{\"first_name\":\"Guest\",\"last_name\":\"Lee\",\"age\":null,\"adult\":false}");
}

#[test]
fn extended_age_out_of_range() {
    let r = handle_event(&Template::Extended, envelope(Some("{\"age\":1000}")));
    assert_eq!(r.body, "{\"first_name\":\"Guest\",\"last_name\":\"\",\"age\":null,\"adult\":false}");
}

#[test]
fn extended_adult_boundary() {
    let just_adult = handle_event(&Template::Extended, envelope(Some("{\"age\":18}")));
    assert_eq!(just_adult.body, "{\"first_name\":\"Guest\",\"last_name\":\"\",\"age\":18,\"adult\":true}");
    let minor = handle_event(&Template::Extended, envelope(Some("{\"age\":17}")));
    assert_eq!(minor.body, "{\"first_name\":\"Guest\",\"last_name\":\"\",\"age\":17,\"adult\":false}");
}

#[test]
fn extended_negative_age() {
    let r = handle_event(&Template::Extended, envelope(Some("{\"age\":-3}")));
    assert_eq!(r.body, "{\"first_name\":\"Guest\",\"last_name\":\"\",\"age\":-3,\"adult\":false}");
}

#[test]
fn minimal_named() {
    let r = handle_event(&Template::Minimal, envelope(Some("{\"name\":\"Sam\"}")));
    assert_eq!(r.status_code, 200);
    assert_eq!(r.body, "{\"message\":\"Hello Sam\"}");
}

#[test]
fn minimal_absent_body() {
    let r = handle_event(&Template::Minimal, envelope(None));
    assert_eq!(r.body, "{\"message\":\"Hello Guest\"}");
}

#[test]
fn minimal_malformed_body() {
    let r = handle_event(&Template::Minimal, envelope(Some("definitely not json")));
    assert_eq!(r.body, "{\"message\":\"Hello Guest\"}");
}

#[test]
fn headers_are_fixed() {
    let r = handle_event(&Template::Minimal, envelope(None));
    assert_eq!(r.headers.len(), 2);
    assert_eq!(r.headers[0].0, "Content-Type");
    assert_eq!(r.headers[0].1, "application/json");
    assert_eq!(r.headers[1].0, "Access-Control-Allow-Origin");
    assert_eq!(r.headers[1].1, "*");
}

#[test]
fn greeting_sentence_exact() {
    let g = name_to_greeting("Ann", "Lee", 20);
    assert_eq!(g, "Hello, Ann Lee! You are 20 years old.");
}

#[test]
fn greeting_sentence_negative_age() {
    let g = name_to_greeting("A", "B", -5);
    assert_eq!(g, "Hello, A B! You are -5 years old.");
}

#[test]
fn greeting_sentence_extreme_ages() {
    assert_eq!(name_to_greeting("", "", -128), "Hello,  ! You are -128 years old.");
    assert_eq!(name_to_greeting("", "", 127), "Hello,  ! You are 127 years old.");
}

#[test]
fn adult_flag_cases() {
    assert!(is_adult(&Some(18)));
    assert!(is_adult(&Some(127)));
    assert!(!is_adult(&Some(17)));
    assert!(!is_adult(&Some(0)));
    assert!(!is_adult(&None));
}

#[test]
fn defaults_apply_per_field() {
    let raw = RawFields {
        first_name: None,
        last_name: Some("Lee".to_string()),
        age: Some(30),
        name: None,
    };
    let f = defaults_a(&Some(raw));
    assert_eq!(f.first_name, "Guest");
    assert_eq!(f.last_name, "Lee");
    assert_eq!(f.age, Some(30));
    let raw_b = RawFields { first_name: None, last_name: None, age: None, name: None };
    let b = defaults_b(&Some(raw_b));
    assert_eq!(b.name, "Guest");
}

#[test]
fn extraction_decodes_once_per_member() {
    let body = Some("{\"first_name\":\"Ann\",\"name\":\"Sam\"}".to_string());
    let raw = extract_raw(&body).expect("a JSON object decodes");
    assert_eq!(raw.first_name.as_deref(), Some("Ann"));
    assert_eq!(raw.last_name, None);
    assert_eq!(raw.age, None);
    assert_eq!(raw.name.as_deref(), Some("Sam"));
}

#[test]
fn extraction_fails_silently() {
    assert!(extract_raw(&Some("[1,2,3".to_string())).is_none());
    assert!(extract_raw(&None).is_none());
}

#[test]
fn greeting_renders_default_age() {
    let f = defaults_a(&None);
    let g = greet_extended(&f);
    assert_eq!(g.text, "Hello, Guest ! You are 0 years old.");
    assert_eq!(g.adult, Some(false));
}

#[test]
fn greeting_result_carries_adult_flag() {
    let raw = RawFields { first_name: None, last_name: None, age: Some(40), name: None };
    let f = defaults_a(&Some(raw));
    let g = greet_extended(&f);
    assert_eq!(g.text, "Hello, Guest ! You are 40 years old.");
    assert_eq!(g.adult, Some(true));
}

#[test]
fn respond_on_extracted_fields() {
    let raw = RawFields {
        first_name: Some("Ann".to_string()),
        last_name: Some("Lee".to_string()),
        age: Some(20),
        name: None,
    };
    let r = respond(&Template::Extended, &Some(raw));
    assert_eq!(r.status_code, 200);
    assert_eq!(r.body, "{\"first_name\":\"Ann\",\"last_name\":\"Lee\",\"age\":20,\"adult\":true}");
}
