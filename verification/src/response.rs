//! The response builder and the whole request-to-response pipeline, one linear
//! transform per invocation.

use crate::encode::{encode_body_a, encode_body_b, spec_body_a, spec_body_b};
use crate::fields::{
    decoded_fields, defaults_a, defaults_b, extract_raw, spec_defaults_a, spec_defaults_b,
    RawFields,
};
use crate::greeting::{greet_extended, greet_minimal, spec_adult, spec_greeting_b};
use vstd::prelude::*;

verus! {

/// Which greeting template an invocation runs under.
pub enum Template {
    /// First name, last name and age: a full sentence and a derived adult flag.
    Extended,
    /// One name: a short sentence, no derived attributes.
    Minimal,
}

/// The event record the host hands over: the raw optional body text.
pub struct InvocationEnvelope {
    pub body: Option<String>,
}

/// A response to the host: status code, JSON body, header mapping.
pub struct HttpResponse {
    pub status_code: u16,
    pub body: String,
    pub headers: Vec<(String, String)>,
}

/// The fixed header mapping of every response.
pub open spec fn spec_headers(h: Seq<(String, String)>) -> bool {
    &&& h.len() == 2
    &&& h[0].0@ == "Content-Type"@
    &&& h[0].1@ == "application/json"@
    &&& h[1].0@ == "Access-Control-Allow-Origin"@
    &&& h[1].1@ == "*"@
}

/// The response body, as a function of the template and of what one decode of
/// the body text yielded (`None` for an absent body or a failed decode).
pub open spec fn spec_response_body(t: Template, raw: Option<RawFields>) -> Seq<char> {
    match t {
        Template::Extended => {
            let f = spec_defaults_a(raw);
            spec_body_a(f, spec_adult(f.age))
        },
        Template::Minimal => spec_body_b(spec_greeting_b(spec_defaults_b(raw).name)),
    }
}

/// Unwraps the envelope: the raw body, unchanged; never fails.
pub fn unwrap_envelope(e: InvocationEnvelope) -> (r: Option<String>)
    ensures
        r == e.body,
{
    e.body
}

fn fixed_headers() -> (h: Vec<(String, String)>)
    ensures
        spec_headers(h@),
{
    let mut h: Vec<(String, String)> = Vec::new();
    h.push(("Content-Type".to_owned(), "application/json".to_owned()));
    h.push(("Access-Control-Allow-Origin".to_owned(), "*".to_owned()));
    h
}

/// Builds the response for already-extracted raw fields: the status code is
/// always 200, the body is the configuration's JSON body over the defaulted
/// fields, the headers are the fixed pair.
pub fn respond(t: &Template, raw: &Option<RawFields>) -> (r: HttpResponse)
    ensures
        r.status_code == 200,
        r.body@ == spec_response_body(*t, *raw),
        spec_headers(r.headers@),
{
    let body: String = match t {
        Template::Extended => {
            // The extended body echoes the defaulted fields and the derived
            // flag; the greeting sentence itself is not part of it.
            let f = defaults_a(raw);
            let g = greet_extended(&f);
            let adult: bool = match g.adult {
                Some(b) => b,
                None => false,
            };
            encode_body_a(&f, adult)
        },
        Template::Minimal => {
            let f = defaults_b(raw);
            let g = greet_minimal(&f);
            encode_body_b(g.text.as_str())
        },
    };
    HttpResponse { status_code: 200, body, headers: fixed_headers() }
}

/// The whole pipeline for one invocation: unwrap the envelope, extract the
/// fields with a single decode, compute the greeting, build the response.
pub fn handle_event(t: &Template, event: InvocationEnvelope) -> (r: HttpResponse)
    ensures
        r.status_code == 200,
        spec_headers(r.headers@),
        event.body is Some ==> r.body@ == spec_response_body(*t, decoded_fields(event.body->0@)),
        event.body is None ==> r.body@ == spec_response_body(*t, None),
{
    let body = unwrap_envelope(event);
    let raw = extract_raw(&body);
    respond(t, &raw)
}

} // verus!
