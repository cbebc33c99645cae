//! The greeting computer: a pure function from defaulted fields to a greeting
//! sentence and, in the extended configuration, a derived adult flag.

use crate::fields::{FieldsA, FieldsB};
use crate::numeral::{dec_int, push_dec_i8};
use vstd::prelude::*;
use vstd::string::StringExecFns;

verus! {

/// The sentence of the extended configuration.
pub open spec fn spec_greeting_a(first_name: Seq<char>, last_name: Seq<char>, age: int) -> Seq<
    char,
> {
    "Hello, "@ + first_name + " "@ + last_name + "! You are "@ + dec_int(age) + " years old."@
}

/// The sentence of the minimal configuration.
pub open spec fn spec_greeting_b(name: Seq<char>) -> Seq<char> {
    "Hello "@ + name
}

/// The derived adult flag: present age of at least 18.
pub open spec fn spec_adult(age: Option<i8>) -> bool {
    match age {
        Some(a) => a >= 18,
        None => false,
    }
}

/// The numeric value the sentence renders: an absent age renders as zero.
pub open spec fn spec_age_or_zero(age: Option<i8>) -> int {
    match age {
        Some(a) => a as int,
        None => 0,
    }
}

/// The greeting sentence of the extended configuration.
pub fn name_to_greeting(first_name: &str, last_name: &str, age: i8) -> (r: String)
    ensures
        r@ == spec_greeting_a(first_name@, last_name@, age as int),
{
    let mut s: String = "Hello, ".to_owned();
    s.append(first_name);
    s.append(" ");
    s.append(last_name);
    s.append("! You are ");
    push_dec_i8(&mut s, age);
    s.append(" years old.");
    proof {
        assert(s@ =~= spec_greeting_a(first_name@, last_name@, age as int));
    }
    s
}

/// Whether the given age makes the adult flag true.
pub fn is_adult(age: &Option<i8>) -> (r: bool)
    ensures
        r == spec_adult(*age),
{
    match age {
        Some(a) => *a >= 18,
        None => false,
    }
}

/// A computed greeting: the sentence, and the derived adult flag where the
/// configuration has one.
pub struct GreetingResult {
    pub text: String,
    pub adult: Option<bool>,
}

/// The greeting of the extended configuration: the full sentence, rendering an
/// absent age as zero, and the adult flag.
pub fn greet_extended(f: &FieldsA) -> (g: GreetingResult)
    ensures
        g.text@ == spec_greeting_a(f.first_name@, f.last_name@, spec_age_or_zero(f.age)),
        g.adult == Some(spec_adult(f.age)),
{
    let age: i8 = match f.age {
        Some(a) => a,
        None => 0,
    };
    GreetingResult {
        text: name_to_greeting(f.first_name.as_str(), f.last_name.as_str(), age),
        adult: Some(is_adult(&f.age)),
    }
}

/// The greeting of the minimal configuration: a short sentence, no derived
/// attributes.
pub fn greet_minimal(f: &FieldsB) -> (g: GreetingResult)
    ensures
        g.text@ == spec_greeting_b(f.name@),
        g.adult is None,
{
    let mut s: String = "Hello ".to_owned();
    s.append(f.name.as_str());
    GreetingResult { text: s, adult: None }
}

} // verus!
