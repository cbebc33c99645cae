//! A spec-level decoder for the JSON subset that the response bodies live in:
//! one object of scalar members, with no surrounding whitespace, strings with
//! the escapes `\"`, `\\` and `\u00XX`. Everything this decoder accepts is
//! syntactically valid JSON, so a body it decodes is parseable as JSON.

use crate::escape::{esc, esc_char, hex_val, is_hex_char, scalar_chars};
use crate::numeral::{
    all_digits, dec_int, dec_nat, is_digit_char, lemma_dec_nat_digits, val_of_digits,
};
use vstd::prelude::*;

verus! {

/// A scalar JSON value.
pub enum JsonScalar {
    JStr(Seq<char>),
    JInt(int),
    JBool(bool),
    JNull,
}

/// Characters that stand for themselves inside a JSON string.
pub open spec fn plain_chars(s: Seq<char>) -> bool {
    forall|i: int|
        0 <= i < s.len() ==> (#[trigger] s[i]) != '"' && s[i] != '\\' && 32 <= s[i] as int
}

/// Escaping leaves a plain string unchanged.
pub proof fn lemma_esc_plain(s: Seq<char>)
    requires
        plain_chars(s),
    ensures
        esc(s) == s,
    decreases s.len(),
{
    if s.len() == 0 {
        assert(esc(s) =~= s);
    } else {
        assert(esc_char(s[0]) == seq![s[0]]);
        lemma_esc_plain(s.drop_first());
        assert(esc(s) =~= s);
    }
}

/// The inside of a JSON string, after its opening quote: the decoded content
/// up to the closing quote, and the rest of the text after that quote. A raw
/// character is accepted only outside the control range, so every accepted
/// text is JSON string syntax.
pub open spec fn parse_string_rest(s: Seq<char>) -> Option<(Seq<char>, Seq<char>)>
    decreases s.len(),
{
    if s.len() == 0 {
        None
    } else if s[0] == '"' {
        Some((Seq::empty(), s.drop_first()))
    } else if s[0] == '\\' {
        if s.len() >= 2 && (s[1] == '"' || s[1] == '\\') {
            match parse_string_rest(s.skip(2)) {
                Some(p) => Some((seq![s[1]] + p.0, p.1)),
                None => None,
            }
        } else if s.len() >= 6 && s[1] == 'u' && s[2] == '0' && s[3] == '0' && is_hex_char(s[4])
            && is_hex_char(s[5]) {
            match parse_string_rest(s.skip(6)) {
                Some(p) => Some(
                    (seq![((hex_val(s[4]) * 16 + hex_val(s[5])) as u8) as char] + p.0, p.1),
                ),
                None => None,
            }
        } else {
            None
        }
    } else if 32 <= s[0] as int {
        match parse_string_rest(s.drop_first()) {
            Some(p) => Some((seq![s[0]] + p.0, p.1)),
            None => None,
        }
    } else {
        None
    }
}

/// Decoding inverts escaping: the escaped content, a closing quote and any
/// tail parse back to exactly that content and tail.
#[verifier::rlimit(50)]
pub proof fn lemma_parse_esc_string(content: Seq<char>, rest: Seq<char>)
    requires
        scalar_chars(content),
    ensures
        parse_string_rest(esc(content) + seq!['"'] + rest) == Some((content, rest)),
    decreases content.len(),
{
    let s = esc(content) + seq!['"'] + rest;
    if content.len() == 0 {
        assert(esc(content) =~= Seq::<char>::empty());
        assert(s =~= seq!['"'] + rest);
        assert(s[0] == '"');
        assert(s.drop_first() =~= rest);
        assert(parse_string_rest(s) =~= Some((content, rest)));
    } else {
        let c = content[0];
        let tail = content.drop_first();
        assert(forall|i: int| 0 <= i < tail.len() ==> tail[i] == content[i + 1]);
        lemma_parse_esc_string(tail, rest);
        assert(esc(content) == esc_char(c) + esc(tail));
        if c == '"' {
            assert(esc_char(c) =~= seq!['\\', '"']);
            assert(s =~= seq!['\\', '"'] + (esc(tail) + seq!['"'] + rest));
            assert(s[0] == '\\' && s[1] == '"');
            assert(s.skip(2) =~= esc(tail) + seq!['"'] + rest);
            assert(seq![s[1]] + tail =~= content);
            assert(parse_string_rest(s) =~= Some((content, rest)));
        } else if c == '\\' {
            assert(esc_char(c) =~= seq!['\\', '\\']);
            assert(s =~= seq!['\\', '\\'] + (esc(tail) + seq!['"'] + rest));
            assert(s[0] == '\\' && s[1] == '\\');
            assert(s.skip(2) =~= esc(tail) + seq!['"'] + rest);
            assert(seq![s[1]] + tail =~= content);
            assert(parse_string_rest(s) =~= Some((content, rest)));
        } else if (c as int) < 32 {
            let hi = c as int / 16;
            let lo = c as int % 16;
            assert(0 <= (c as int) && (c as int) < 32);
            assert(0 <= hi && 0 <= lo);
            assert(0 <= hi < 2 && 0 <= lo < 16) by (nonlinear_arith)
                requires
                    0 <= (c as int) && (c as int) < 32,
                    hi == (c as int) / 16,
                    lo == (c as int) % 16,
            ;
            assert(esc_char(c) =~= seq!['\\', 'u', '0', '0', crate::escape::hex_char(hi), crate::escape::hex_char(lo)]);
            assert(s =~= esc_char(c) + (esc(tail) + seq!['"'] + rest));
            lemma_hex_char_val(hi);
            lemma_hex_char_val(lo);
            assert(s[0] == '\\' && s[1] == 'u' && s[2] == '0' && s[3] == '0');
            assert(is_hex_char(s[4]) && is_hex_char(s[5]));
            assert(s.skip(6) =~= esc(tail) + seq!['"'] + rest);
            assert(hi * 16 + lo == c as int) by (nonlinear_arith)
                requires
                    hi == c as int / 16,
                    lo == c as int % 16,
            ;
            assert(((hex_val(s[4]) * 16 + hex_val(s[5])) as u8) as char == c);
            assert(seq![c] + tail =~= content);
            assert(parse_string_rest(s) =~= Some((content, rest)));
        } else {
            assert(esc_char(c) =~= seq![c]);
            assert(s =~= seq![c] + (esc(tail) + seq!['"'] + rest));
            assert(s[0] == c);
            assert(s.drop_first() =~= esc(tail) + seq!['"'] + rest);
            assert(seq![c] + tail =~= content);
            assert(parse_string_rest(s) =~= Some((content, rest)));
        }
    }
}

/// A hexadecimal digit character decodes back to its value.
pub proof fn lemma_hex_char_val(d: int)
    requires
        0 <= d < 16,
    ensures
        hex_val(crate::escape::hex_char(d)) == d,
{
}

/// The length of the longest prefix of decimal digits.
pub open spec fn digit_prefix_len(s: Seq<char>) -> int
    decreases s.len(),
{
    if s.len() > 0 && is_digit_char(s[0]) {
        1 + digit_prefix_len(s.drop_first())
    } else {
        0
    }
}

/// A digit string followed by a non-digit is exactly the digit prefix.
pub proof fn lemma_digit_prefix(ds: Seq<char>, rest: Seq<char>)
    requires
        all_digits(ds),
        rest.len() == 0 || !is_digit_char(rest[0]),
    ensures
        digit_prefix_len(ds + rest) == ds.len(),
    decreases ds.len(),
{
    if ds.len() == 0 {
        assert(ds + rest =~= rest);
    } else {
        assert((ds + rest)[0] == ds[0]);
        assert((ds + rest).drop_first() =~= ds.drop_first() + rest);
        lemma_digit_prefix(ds.drop_first(), rest);
    }
}

/// An integer: an optional minus sign, then at least one decimal digit.
pub open spec fn parse_int_rest(s: Seq<char>) -> Option<(int, Seq<char>)> {
    let neg = s.len() > 0 && s[0] == '-';
    let t = if neg {
        s.drop_first()
    } else {
        s
    };
    let k = digit_prefix_len(t);
    if k == 0 {
        None
    } else {
        let v = val_of_digits(t.take(k));
        Some(
            (
                if neg {
                    -v
                } else {
                    v
                },
                t.skip(k),
            ),
        )
    }
}

/// Decoding inverts decimal rendering: the rendering of `n`, followed by a
/// tail that opens with no digit, parses back to `n` and that tail.
#[verifier::rlimit(50)]
pub proof fn lemma_parse_int(n: int, rest: Seq<char>)
    requires
        rest.len() == 0 || !is_digit_char(rest[0]),
    ensures
        parse_int_rest(dec_int(n) + rest) == Some((n, rest)),
{
    let s = dec_int(n) + rest;
    if n < 0 {
        let m = (-n) as nat;
        lemma_dec_nat_digits(m);
        assert(s =~= seq!['-'] + (dec_nat(m) + rest));
        assert(s[0] == '-');
        let t = s.drop_first();
        assert(t =~= dec_nat(m) + rest);
        lemma_digit_prefix(dec_nat(m), rest);
        let k = digit_prefix_len(t);
        assert(k == dec_nat(m).len());
        assert(t.take(k) =~= dec_nat(m));
        assert(t.skip(k) =~= rest);
        assert(parse_int_rest(s) =~= Some((n, rest)));
    } else {
        let m = n as nat;
        lemma_dec_nat_digits(m);
        assert(s =~= dec_nat(m) + rest);
        assert(s[0] == dec_nat(m)[0]);
        assert(is_digit_char(s[0]));
        assert(s[0] != '-');
        lemma_digit_prefix(dec_nat(m), rest);
        let k = digit_prefix_len(s);
        assert(k == dec_nat(m).len());
        assert(s.take(k) =~= dec_nat(m));
        assert(s.skip(k) =~= rest);
        assert(parse_int_rest(s) =~= Some((n, rest)));
    }
}

pub open spec fn starts_with(s: Seq<char>, p: Seq<char>) -> bool {
    s.len() >= p.len() && s.take(p.len() as int) == p
}

/// A scalar value: a string, `true`, `false`, `null`, or an integer.
pub open spec fn parse_value(s: Seq<char>) -> Option<(JsonScalar, Seq<char>)> {
    if s.len() == 0 {
        None
    } else if s[0] == '"' {
        match parse_string_rest(s.drop_first()) {
            Some(p) => Some((JsonScalar::JStr(p.0), p.1)),
            None => None,
        }
    } else if s[0] == 't' {
        if starts_with(s, "true"@) {
            Some((JsonScalar::JBool(true), s.skip(4)))
        } else {
            None
        }
    } else if s[0] == 'f' {
        if starts_with(s, "false"@) {
            Some((JsonScalar::JBool(false), s.skip(5)))
        } else {
            None
        }
    } else if s[0] == 'n' {
        if starts_with(s, "null"@) {
            Some((JsonScalar::JNull, s.skip(4)))
        } else {
            None
        }
    } else if s[0] == '-' || is_digit_char(s[0]) {
        match parse_int_rest(s) {
            Some(p) => Some((JsonScalar::JInt(p.0), p.1)),
            None => None,
        }
    } else {
        None
    }
}

/// A quoted, escaped string value parses back to its content.
pub proof fn lemma_parse_value_string(content: Seq<char>, rest: Seq<char>)
    requires
        scalar_chars(content),
    ensures
        parse_value(seq!['"'] + esc(content) + seq!['"'] + rest) == Some(
            (JsonScalar::JStr(content), rest),
        ),
{
    let s = seq!['"'] + esc(content) + seq!['"'] + rest;
    assert(s[0] == '"');
    assert(s.drop_first() =~= esc(content) + seq!['"'] + rest);
    lemma_parse_esc_string(content, rest);
    assert(parse_value(s) =~= Some((JsonScalar::JStr(content), rest)));
}

/// A rendered integer value parses back to that integer.
pub proof fn lemma_parse_value_int(n: int, rest: Seq<char>)
    requires
        rest.len() == 0 || !is_digit_char(rest[0]),
    ensures
        parse_value(dec_int(n) + rest) == Some((JsonScalar::JInt(n), rest)),
{
    let s = dec_int(n) + rest;
    lemma_parse_int(n, rest);
    if n < 0 {
        assert(s[0] == '-');
    } else {
        lemma_dec_nat_digits(n as nat);
        assert(s[0] == dec_nat(n as nat)[0]);
        assert(is_digit_char(s[0]));
    }
    assert(parse_value(s) =~= Some((JsonScalar::JInt(n), rest)));
}

/// The literal `true` or `false` parses back to that boolean.
pub proof fn lemma_parse_value_bool(b: bool, rest: Seq<char>)
    ensures
        b ==> parse_value("true"@ + rest) == Some((JsonScalar::JBool(true), rest)),
        !b ==> parse_value("false"@ + rest) == Some((JsonScalar::JBool(false), rest)),
{
    reveal_strlit("true");
    reveal_strlit("false");
    if b {
        let s = "true"@ + rest;
        assert(s[0] == 't');
        assert(s.take(4) =~= "true"@);
        assert(s.skip(4) =~= rest);
        assert(parse_value(s) =~= Some((JsonScalar::JBool(true), rest)));
    } else {
        let s = "false"@ + rest;
        assert(s[0] == 'f');
        assert(s.take(5) =~= "false"@);
        assert(s.skip(5) =~= rest);
        assert(parse_value(s) =~= Some((JsonScalar::JBool(false), rest)));
    }
}

/// The literal `null` parses back to the null value.
pub proof fn lemma_parse_value_null(rest: Seq<char>)
    ensures
        parse_value("null"@ + rest) == Some((JsonScalar::JNull, rest)),
{
    reveal_strlit("null");
    let s = "null"@ + rest;
    assert(s[0] == 'n');
    assert(s.take(4) =~= "null"@);
    assert(s.skip(4) =~= rest);
    assert(parse_value(s) =~= Some((JsonScalar::JNull, rest)));
}

/// The members of an object after its opening brace: `"key":value` pairs
/// separated by commas and closed by a brace. A successful parse always
/// leaves a shorter remainder, so the explicit bound in the recursion refuses
/// nothing; it only makes termination plain.
pub open spec fn parse_members(s: Seq<char>) -> Option<(Seq<(Seq<char>, JsonScalar)>, Seq<char>)>
    decreases s.len(),
{
    if s.len() == 0 || s[0] != '"' {
        None
    } else {
        match parse_string_rest(s.drop_first()) {
            Some(kp) => if kp.1.len() > 0 && kp.1[0] == ':' {
                match parse_value(kp.1.drop_first()) {
                    Some(vp) => if vp.1.len() > 0 && vp.1[0] == ',' && vp.1.len() < s.len() {
                        match parse_members(vp.1.drop_first()) {
                            Some(mp) => Some((seq![(kp.0, vp.0)] + mp.0, mp.1)),
                            None => None,
                        }
                    } else if vp.1.len() > 0 && vp.1[0] == '}' {
                        Some((seq![(kp.0, vp.0)], vp.1.drop_first()))
                    } else {
                        None
                    },
                    None => None,
                }
            } else {
                None
            },
            None => None,
        }
    }
}

/// One last member: its key, its value, the closing brace, then the tail.
pub proof fn lemma_members_last(key: Seq<char>, venc: Seq<char>, v: JsonScalar, after: Seq<char>)
    requires
        plain_chars(key),
        parse_value(venc + seq!['}'] + after) == Some((v, seq!['}'] + after)),
    ensures
        parse_members(seq!['"'] + key + seq!['"', ':'] + venc + seq!['}'] + after) == Some(
            (seq![(key, v)], after),
        ),
{
    let s = seq!['"'] + key + seq!['"', ':'] + venc + seq!['}'] + after;
    assert(s[0] == '"');
    lemma_esc_plain(key);
    lemma_parse_esc_string(key, seq![':'] + venc + seq!['}'] + after);
    assert(s.drop_first() =~= esc(key) + seq!['"'] + (seq![':'] + venc + seq!['}'] + after));
    let r1 = seq![':'] + venc + seq!['}'] + after;
    assert(r1[0] == ':');
    assert(r1.drop_first() =~= venc + seq!['}'] + after);
    let r2 = seq!['}'] + after;
    assert(r2[0] == '}');
    assert(r2.drop_first() =~= after);
    assert(parse_members(s) =~= Some((seq![(key, v)], after)));
}

/// A member followed by a comma and further members.
pub proof fn lemma_members_cons(
    key: Seq<char>,
    venc: Seq<char>,
    v: JsonScalar,
    tail: Seq<char>,
    ms: Seq<(Seq<char>, JsonScalar)>,
    after: Seq<char>,
)
    requires
        plain_chars(key),
        parse_value(venc + seq![','] + tail) == Some((v, seq![','] + tail)),
        parse_members(tail) == Some((ms, after)),
    ensures
        parse_members(seq!['"'] + key + seq!['"', ':'] + venc + seq![','] + tail) == Some(
            (seq![(key, v)] + ms, after),
        ),
{
    let s = seq!['"'] + key + seq!['"', ':'] + venc + seq![','] + tail;
    assert(s[0] == '"');
    lemma_esc_plain(key);
    lemma_parse_esc_string(key, seq![':'] + venc + seq![','] + tail);
    assert(s.drop_first() =~= esc(key) + seq!['"'] + (seq![':'] + venc + seq![','] + tail));
    let r1 = seq![':'] + venc + seq![','] + tail;
    assert(r1[0] == ':');
    assert(r1.drop_first() =~= venc + seq![','] + tail);
    let r2 = seq![','] + tail;
    assert(r2[0] == ',');
    assert(r2.len() < s.len());
    assert(r2.drop_first() =~= tail);
    assert(parse_members(s) =~= Some((seq![(key, v)] + ms, after)));
}

/// A whole object text: an opening brace, members, a closing brace, and
/// nothing after it.
pub open spec fn parse_object(s: Seq<char>) -> Option<Seq<(Seq<char>, JsonScalar)>> {
    if s.len() > 0 && s[0] == '{' {
        match parse_members(s.drop_first()) {
            Some(mp) => if mp.1.len() == 0 {
                Some(mp.0)
            } else {
                None
            },
            None => None,
        }
    } else {
        None
    }
}

} // verus!
