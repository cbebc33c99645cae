//! Encoding of the two response-body shapes as JSON text, with the exact
//! character sequence stated at the spec level.

use crate::escape::{esc, push_escaped};
use crate::fields::{FieldsA, FieldsAView};
use crate::numeral::{dec_int, push_dec_i8};
use vstd::prelude::*;
use vstd::string::StringExecFns;

verus! {

/// The JSON rendering of the optional age member: `null` when absent.
pub open spec fn spec_json_opt_age(age: Option<i8>) -> Seq<char> {
    match age {
        Some(a) => dec_int(a as int),
        None => "null"@,
    }
}

pub open spec fn spec_json_bool(b: bool) -> Seq<char> {
    if b {
        "true"@
    } else {
        "false"@
    }
}

/// The response body of the extended configuration: the defaulted fields
/// echoed back, together with the derived adult flag.
pub open spec fn spec_body_a(f: FieldsAView, adult: bool) -> Seq<char> {
    "{\"first_name\":\""@ + esc(f.first_name) + "\",\"last_name\":\""@ + esc(f.last_name)
        + "\",\"age\":"@ + spec_json_opt_age(f.age) + ",\"adult\":"@ + spec_json_bool(adult)
        + "}"@
}

/// The response body of the minimal configuration: one `message` member
/// holding the greeting sentence.
pub open spec fn spec_body_b(message: Seq<char>) -> Seq<char> {
    "{\"message\":\""@ + esc(message) + "\"}"@
}

/// Encodes the extended configuration's response body.
pub fn encode_body_a(f: &FieldsA, adult: bool) -> (r: String)
    ensures
        r@ == spec_body_a(f@, adult),
{
    let mut s: String = "{\"first_name\":\"".to_owned();
    push_escaped(&mut s, f.first_name.as_str());
    s.append("\",\"last_name\":\"");
    push_escaped(&mut s, f.last_name.as_str());
    s.append("\",\"age\":");
    match f.age {
        Some(a) => push_dec_i8(&mut s, a),
        None => s.append("null"),
    }
    s.append(",\"adult\":");
    if adult {
        s.append("true");
    } else {
        s.append("false");
    }
    s.append("}");
    proof {
        assert(s@ =~= spec_body_a(f@, adult));
    }
    s
}

/// Encodes the minimal configuration's response body.
pub fn encode_body_b(message: &str) -> (r: String)
    ensures
        r@ == spec_body_b(message@),
{
    let mut s: String = "{\"message\":\"".to_owned();
    push_escaped(&mut s, message);
    s.append("\"}");
    proof {
        assert(s@ =~= spec_body_b(message@));
    }
    s
}

} // verus!
