//! Tolerant field extraction: one decode of the optional event body, then
//! fixed defaults for every member the decode did not yield.

use vstd::prelude::*;

verus! {

/// The raw optional members read out of one decode of an event body. A member
/// is present only when the body decoded as a JSON object holding it with a
/// value of the matching kind (a string, or an integer for `age`).
pub struct RawFields {
    pub first_name: Option<String>,
    pub last_name: Option<String>,
    pub age: Option<i64>,
    pub name: Option<String>,
}

/// What one decode of a given body text yields. The outcome depends on the
/// text alone; nothing beyond the trusted decoder below is stated about it.
pub uninterp spec fn decoded_fields(s: Seq<char>) -> Option<RawFields>;

/// Relies on serde_json's `from_str::<Value>`, `Value::get`, `Value::as_str`
/// and `Value::as_i64`: a single decode of the text, `None` when the text is
/// not valid JSON; otherwise each member named `first_name`, `last_name`,
/// `age` or `name` is read when present with the matching kind, and is `None`
/// when absent, of another kind, or when the text is no object at all.
#[verifier::external_body]
fn decode_raw_fields(text: &str) -> (r: Option<RawFields>)
    ensures
        r == decoded_fields(text@),
{
    let v: serde_json::Value = match serde_json::from_str(text) {
        Ok(v) => v,
        Err(_) => return None,
    };
    Some(RawFields {
        first_name: v.get("first_name").and_then(|x| x.as_str()).map(str::to_owned),
        last_name: v.get("last_name").and_then(|x| x.as_str()).map(str::to_owned),
        age: v.get("age").and_then(|x| x.as_i64()),
        name: v.get("name").and_then(|x| x.as_str()).map(str::to_owned),
    })
}

/// The raw members of an optional body: none at all when the body is absent.
pub open spec fn spec_extract(body: Option<Seq<char>>) -> Option<RawFields> {
    match body {
        Some(s) => decoded_fields(s),
        None => None,
    }
}

/// Extracts the raw members of the event body with a single decode.
pub fn extract_raw(body: &Option<String>) -> (r: Option<RawFields>)
    ensures
        body is Some ==> r == decoded_fields(body->0@),
        body is None ==> r is None,
{
    match body {
        Some(text) => decode_raw_fields(text.as_str()),
        None => None,
    }
}

/// The defaulted fields of the extended configuration.
pub struct FieldsA {
    pub first_name: String,
    pub last_name: String,
    pub age: Option<i8>,
}

#[verifier::ext_equal]
pub struct FieldsAView {
    pub first_name: Seq<char>,
    pub last_name: Seq<char>,
    pub age: Option<i8>,
}

impl View for FieldsA {
    type V = FieldsAView;

    open spec fn view(&self) -> FieldsAView {
        FieldsAView { first_name: self.first_name@, last_name: self.last_name@, age: self.age }
    }
}

/// The defaulted field of the minimal configuration.
pub struct FieldsB {
    pub name: String,
}

#[verifier::ext_equal]
pub struct FieldsBView {
    pub name: Seq<char>,
}

impl View for FieldsB {
    type V = FieldsBView;

    open spec fn view(&self) -> FieldsBView {
        FieldsBView { name: self.name@ }
    }
}

/// A present string member overrides the default; an absent one keeps it.
pub open spec fn spec_str_or(o: Option<String>, d: Seq<char>) -> Seq<char> {
    match o {
        Some(s) => s@,
        None => d,
    }
}

/// The age is present exactly when the decoded member holds a value in the
/// range of the age field; anything else counts as absent.
pub open spec fn spec_age_field(o: Option<i64>) -> Option<i8> {
    match o {
        Some(a) => if -128 <= a <= 127 {
            Some(a as i8)
        } else {
            None
        },
        None => None,
    }
}

/// Defaulting of the extended configuration: `first_name` falls back to
/// `Guest`, `last_name` to the empty string, `age` stays absent.
pub open spec fn spec_defaults_a(raw: Option<RawFields>) -> FieldsAView {
    match raw {
        Some(r) => FieldsAView {
            first_name: spec_str_or(r.first_name, "Guest"@),
            last_name: spec_str_or(r.last_name, ""@),
            age: spec_age_field(r.age),
        },
        None => FieldsAView { first_name: "Guest"@, last_name: ""@, age: None },
    }
}

/// Defaulting of the minimal configuration: `name` falls back to `Guest`.
pub open spec fn spec_defaults_b(raw: Option<RawFields>) -> FieldsBView {
    match raw {
        Some(r) => FieldsBView { name: spec_str_or(r.name, "Guest"@) },
        None => FieldsBView { name: "Guest"@ },
    }
}

fn str_or(o: &Option<String>, d: &str) -> (r: String)
    ensures
        r@ == spec_str_or(*o, d@),
{
    match o {
        Some(s) => s.clone(),
        None => d.to_owned(),
    }
}

fn age_field(o: &Option<i64>) -> (r: Option<i8>)
    ensures
        r == spec_age_field(*o),
{
    match o {
        Some(a) => if -128 <= *a && *a <= 127 {
            Some(*a as i8)
        } else {
            None
        },
        None => None,
    }
}

/// Resolves the extended configuration's fields against their defaults.
pub fn defaults_a(raw: &Option<RawFields>) -> (r: FieldsA)
    ensures
        r@ == spec_defaults_a(*raw),
{
    match raw {
        Some(rf) => FieldsA {
            first_name: str_or(&rf.first_name, "Guest"),
            last_name: str_or(&rf.last_name, ""),
            age: age_field(&rf.age),
        },
        None => FieldsA {
            first_name: "Guest".to_owned(),
            last_name: "".to_owned(),
            age: None,
        },
    }
}

/// Resolves the minimal configuration's field against its default.
pub fn defaults_b(raw: &Option<RawFields>) -> (r: FieldsB)
    ensures
        r@ == spec_defaults_b(*raw),
{
    match raw {
        Some(rf) => FieldsB { name: str_or(&rf.name, "Guest") },
        None => FieldsB { name: "Guest".to_owned() },
    }
}

} // verus!
