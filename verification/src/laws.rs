//! The general properties of the pipeline, stated and proved once and for
//! all inputs: defaulting on absent or undecodable bodies, per-field
//! independence of overriding, the adult flag, and the decodability of every
//! response body back to the very values that produced it.

use crate::encode::{spec_body_a, spec_body_b, spec_json_bool, spec_json_opt_age};
use crate::escape::{esc, scalar_chars};
use crate::fields::{
    decoded_fields, spec_defaults_a, spec_defaults_b, spec_extract, FieldsAView, FieldsBView,
    RawFields,
};
use crate::greeting::{spec_adult, spec_greeting_b};
use crate::jsonparse::{
    lemma_members_cons, lemma_members_last, lemma_parse_value_bool, lemma_parse_value_int,
    lemma_parse_value_null, lemma_parse_value_string, parse_object, plain_chars, JsonScalar,
};
use crate::response::{spec_response_body, Template};
use vstd::prelude::*;

verus! {

/// When the body is absent, extraction yields nothing and every field of
/// either configuration resolves to exactly its default.
pub proof fn lemma_absent_body_defaults()
    ensures
        spec_extract(None) is None,
        spec_defaults_a(spec_extract(None)) == (FieldsAView {
            first_name: "Guest"@,
            last_name: ""@,
            age: None,
        }),
        spec_defaults_b(spec_extract(None)) == (FieldsBView { name: "Guest"@ }),
{
}

/// When the decode of a body text fails, every field of either configuration
/// resolves to exactly its default, the same set as for an absent body.
pub proof fn lemma_failed_decode_defaults(s: Seq<char>)
    requires
        decoded_fields(s) is None,
    ensures
        spec_defaults_a(decoded_fields(s)) == spec_defaults_a(spec_extract(None)),
        spec_defaults_b(decoded_fields(s)) == spec_defaults_b(spec_extract(None)),
        spec_defaults_a(decoded_fields(s)) == (FieldsAView {
            first_name: "Guest"@,
            last_name: ""@,
            age: None,
        }),
        spec_defaults_b(decoded_fields(s)) == (FieldsBView { name: "Guest"@ }),
{
}

/// Each present field overrides exactly its own default, and each absent
/// field keeps exactly its default.
pub proof fn lemma_present_field_overrides(r: RawFields)
    ensures
        spec_defaults_a(Some(r)).first_name == (match r.first_name {
            Some(s) => s@,
            None => "Guest"@,
        }),
        spec_defaults_a(Some(r)).last_name == (match r.last_name {
            Some(s) => s@,
            None => ""@,
        }),
        spec_defaults_a(Some(r)).age == (match r.age {
            Some(a) => if -128 <= a <= 127 {
                Some(a as i8)
            } else {
                None
            },
            None => None,
        }),
        spec_defaults_b(Some(r)).name == (match r.name {
            Some(s) => s@,
            None => "Guest"@,
        }),
{
}

/// No cross-field interference: each defaulted field depends on its own raw
/// member alone.
pub proof fn lemma_no_cross_field_interference(r1: RawFields, r2: RawFields)
    ensures
        r1.first_name == r2.first_name ==> spec_defaults_a(Some(r1)).first_name
            == spec_defaults_a(Some(r2)).first_name,
        r1.last_name == r2.last_name ==> spec_defaults_a(Some(r1)).last_name == spec_defaults_a(
            Some(r2),
        ).last_name,
        r1.age == r2.age ==> spec_defaults_a(Some(r1)).age == spec_defaults_a(Some(r2)).age,
        r1.name == r2.name ==> spec_defaults_b(Some(r1)).name == spec_defaults_b(Some(r2)).name,
{
}

/// The adult flag is true if and only if the age is present and at least 18;
/// it is false otherwise, in particular when the age is absent.
pub proof fn lemma_adult_iff(age: Option<i8>)
    ensures
        spec_adult(age) <==> (age is Some && age->0 >= 18),
        age is None ==> !spec_adult(age),
{
}

/// The JSON scalar under which an optional age appears in a decoded body.
pub open spec fn age_scalar(age: Option<i8>) -> JsonScalar {
    match age {
        Some(a) => JsonScalar::JInt(a as int),
        None => JsonScalar::JNull,
    }
}

/// The extended configuration's body decodes back to exactly the defaulted
/// fields and the adult flag that produced it; in particular it is parseable
/// JSON.
#[verifier::rlimit(100)]
pub proof fn lemma_body_a_decodes(f: FieldsAView, adult: bool)
    requires
        scalar_chars(f.first_name),
        scalar_chars(f.last_name),
    ensures
        parse_object(spec_body_a(f, adult)) == Some(
            seq![
                ("first_name"@, JsonScalar::JStr(f.first_name)),
                ("last_name"@, JsonScalar::JStr(f.last_name)),
                ("age"@, age_scalar(f.age)),
                ("adult"@, JsonScalar::JBool(adult)),
            ],
        ),
{
    reveal_strlit("{\"first_name\":\"");
    reveal_strlit("\",\"last_name\":\"");
    reveal_strlit("\",\"age\":");
    reveal_strlit(",\"adult\":");
    reveal_strlit("}");
    reveal_strlit("first_name");
    reveal_strlit("last_name");
    reveal_strlit("age");
    reveal_strlit("adult");
    reveal_strlit("true");
    reveal_strlit("false");
    reveal_strlit("null");
    assert(plain_chars("first_name"@));
    assert(plain_chars("last_name"@));
    assert(plain_chars("age"@));
    assert(plain_chars("adult"@));
    let after0 = Seq::<char>::empty();
    // Innermost member: "adult":<bool>}
    let benc = spec_json_bool(adult);
    let t_adult = seq!['"'] + "adult"@ + seq!['"', ':'] + benc + seq!['}'] + after0;
    lemma_parse_value_bool(adult, seq!['}'] + after0);
    if adult {
        assert(benc + seq!['}'] + after0 =~= "true"@ + (seq!['}'] + after0));
    } else {
        assert(benc + seq!['}'] + after0 =~= "false"@ + (seq!['}'] + after0));
    }
    lemma_members_last("adult"@, benc, JsonScalar::JBool(adult), after0);
    // "age":<int or null>,
    let aenc = spec_json_opt_age(f.age);
    let t_age = seq!['"'] + "age"@ + seq!['"', ':'] + aenc + seq![','] + t_adult;
    match f.age {
        Some(a) => {
            lemma_parse_value_int(a as int, seq![','] + t_adult);
            assert(aenc + seq![','] + t_adult =~= crate::numeral::dec_int(a as int) + (seq![
                ',',
            ] + t_adult));
        },
        None => {
            lemma_parse_value_null(seq![','] + t_adult);
            assert(aenc + seq![','] + t_adult =~= "null"@ + (seq![','] + t_adult));
        },
    }
    lemma_members_cons(
        "age"@,
        aenc,
        age_scalar(f.age),
        t_adult,
        seq![("adult"@, JsonScalar::JBool(adult))],
        after0,
    );
    // "last_name":"<escaped>",
    let v_ln = seq!['"'] + esc(f.last_name) + seq!['"'];
    let t_ln = seq!['"'] + "last_name"@ + seq!['"', ':'] + v_ln + seq![','] + t_age;
    lemma_parse_value_string(f.last_name, seq![','] + t_age);
    assert(v_ln + seq![','] + t_age =~= seq!['"'] + esc(f.last_name) + seq!['"'] + (seq![',']
        + t_age));
    lemma_members_cons(
        "last_name"@,
        v_ln,
        JsonScalar::JStr(f.last_name),
        t_age,
        seq![("age"@, age_scalar(f.age))] + seq![("adult"@, JsonScalar::JBool(adult))],
        after0,
    );
    // "first_name":"<escaped>",
    let v_fn = seq!['"'] + esc(f.first_name) + seq!['"'];
    let t_fn = seq!['"'] + "first_name"@ + seq!['"', ':'] + v_fn + seq![','] + t_ln;
    lemma_parse_value_string(f.first_name, seq![','] + t_ln);
    assert(v_fn + seq![','] + t_ln =~= seq!['"'] + esc(f.first_name) + seq!['"'] + (seq![',']
        + t_ln));
    lemma_members_cons(
        "first_name"@,
        v_fn,
        JsonScalar::JStr(f.first_name),
        t_ln,
        seq![("last_name"@, JsonScalar::JStr(f.last_name))] + (seq![("age"@, age_scalar(f.age))]
            + seq![("adult"@, JsonScalar::JBool(adult))]),
        after0,
    );
    // The body text is the brace followed by exactly those members.
    let body = spec_body_a(f, adult);
    assert("{\"first_name\":\""@ =~= seq!['{', '"'] + "first_name"@ + seq!['"', ':', '"']);
    assert("\",\"last_name\":\""@ =~= seq!['"', ',', '"'] + "last_name"@ + seq!['"', ':', '"']);
    assert("\",\"age\":"@ =~= seq!['"', ',', '"'] + "age"@ + seq!['"', ':']);
    assert(",\"adult\":"@ =~= seq![',', '"'] + "adult"@ + seq!['"', ':']);
    assert("}"@ =~= seq!['}']);
    assert(body =~= seq!['{'] + t_fn);
    assert(body[0] == '{');
    assert(body.drop_first() =~= t_fn);
    assert(seq![("first_name"@, JsonScalar::JStr(f.first_name))] + (seq![
        ("last_name"@, JsonScalar::JStr(f.last_name)),
    ] + (seq![("age"@, age_scalar(f.age))] + seq![("adult"@, JsonScalar::JBool(adult))])) =~= seq![
        ("first_name"@, JsonScalar::JStr(f.first_name)),
        ("last_name"@, JsonScalar::JStr(f.last_name)),
        ("age"@, age_scalar(f.age)),
        ("adult"@, JsonScalar::JBool(adult)),
    ]);
}

/// The minimal configuration's body decodes back to exactly the greeting
/// message that produced it; in particular it is parseable JSON.
#[verifier::rlimit(100)]
pub proof fn lemma_body_b_decodes(message: Seq<char>)
    requires
        scalar_chars(message),
    ensures
        parse_object(spec_body_b(message)) == Some(
            seq![("message"@, JsonScalar::JStr(message))],
        ),
{
    reveal_strlit("{\"message\":\"");
    reveal_strlit("\"}");
    reveal_strlit("message");
    assert(plain_chars("message"@));
    let after0 = Seq::<char>::empty();
    let v_m = seq!['"'] + esc(message) + seq!['"'];
    let t_m = seq!['"'] + "message"@ + seq!['"', ':'] + v_m + seq!['}'] + after0;
    lemma_parse_value_string(message, seq!['}'] + after0);
    assert(v_m + seq!['}'] + after0 =~= seq!['"'] + esc(message) + seq!['"'] + (seq!['}']
        + after0));
    lemma_members_last("message"@, v_m, JsonScalar::JStr(message), after0);
    let body = spec_body_b(message);
    assert("{\"message\":\""@ =~= seq!['{', '"'] + "message"@ + seq!['"', ':', '"']);
    assert("\"}"@ =~= seq!['"', '}']);
    assert(body =~= seq!['{'] + t_m);
    assert(body[0] == '{');
    assert(body.drop_first() =~= t_m);
}

/// Every character of every member a decode can yield is a Unicode scalar
/// value: true of every `char`, stated here because the fact attaches to
/// `char` values and not to the sequences that hold them.
pub open spec fn scalar_raw(raw: Option<RawFields>) -> bool {
    match raw {
        Some(r) => {
            &&& (r.first_name is Some ==> scalar_chars(r.first_name->0@))
            &&& (r.last_name is Some ==> scalar_chars(r.last_name->0@))
            &&& (r.name is Some ==> scalar_chars(r.name->0@))
        },
        None => true,
    }
}

/// The response body of every invocation, under either template and whatever
/// one decode of the body yielded, is parseable as JSON, and decodes back to
/// exactly the defaulted fields and derived values that produced it.
pub proof fn lemma_response_body_decodes(t: Template, raw: Option<RawFields>)
    requires
        scalar_raw(raw),
    ensures
        parse_object(spec_response_body(t, raw)) is Some,
        t is Extended ==> parse_object(spec_response_body(t, raw)) == Some(
            seq![
                ("first_name"@, JsonScalar::JStr(spec_defaults_a(raw).first_name)),
                ("last_name"@, JsonScalar::JStr(spec_defaults_a(raw).last_name)),
                ("age"@, age_scalar(spec_defaults_a(raw).age)),
                ("adult"@, JsonScalar::JBool(spec_adult(spec_defaults_a(raw).age))),
            ],
        ),
        t is Minimal ==> parse_object(spec_response_body(t, raw)) == Some(
            seq![("message"@, JsonScalar::JStr(spec_greeting_b(spec_defaults_b(raw).name)))],
        ),
{
    reveal_strlit("Guest");
    reveal_strlit("");
    reveal_strlit("Hello ");
    let f = spec_defaults_a(raw);
    assert(scalar_chars("Guest"@));
    assert(scalar_chars(""@));
    assert(scalar_chars(f.first_name));
    assert(scalar_chars(f.last_name));
    match t {
        Template::Extended => {
            lemma_body_a_decodes(f, spec_adult(f.age));
        },
        Template::Minimal => {
            let name = spec_defaults_b(raw).name;
            assert(scalar_chars(name));
            let msg = spec_greeting_b(name);
            assert(scalar_chars(msg)) by {
                assert(forall|i: int|
                    0 <= i < msg.len() ==> #[trigger] msg[i] == if i < "Hello "@.len() {
                        "Hello "@[i]
                    } else {
                        name[i - "Hello "@.len()]
                    });
            }
            lemma_body_b_decodes(msg);
        },
    }
}

} // verus!
