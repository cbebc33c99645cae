//! JSON string escaping: quote and backslash get a backslash escape, control
//! characters a `\u00XX` escape, every other character stands as itself.

use crate::strutil::push_char;
use vstd::prelude::*;
use vstd::string::StrSliceExecFns;

verus! {

/// The character for a hexadecimal digit value: `0`-`9` then `a`-`f`.
pub open spec fn hex_char(d: int) -> char
    recommends
        0 <= d < 16,
{
    if d < 10 {
        ((48 + d) as u8) as char
    } else {
        ((87 + d) as u8) as char
    }
}

/// The value of a hexadecimal digit character, or -1 for any other character.
pub open spec fn hex_val(c: char) -> int {
    if 48 <= c as int <= 57 {
        c as int - 48
    } else if 97 <= c as int <= 102 {
        c as int - 87
    } else if 65 <= c as int <= 70 {
        c as int - 55
    } else {
        -1
    }
}

pub open spec fn is_hex_char(c: char) -> bool {
    hex_val(c) >= 0
}

/// Every character of the sequence is a Unicode scalar value, so its code
/// point is not negative. This holds of every `char` by construction; it is
/// stated where a character is drawn out of a sequence, since the fact
/// attaches to `char` values and not to sequence elements.
pub open spec fn scalar_chars(s: Seq<char>) -> bool {
    forall|i: int| 0 <= i < s.len() ==> 0 <= (#[trigger] s[i]) as int
}

/// The escape sequence of one character inside a JSON string.
pub open spec fn esc_char(c: char) -> Seq<char> {
    if c == '"' {
        seq!['\\', '"']
    } else if c == '\\' {
        seq!['\\', '\\']
    } else if (c as int) < 32 {
        seq!['\\', 'u', '0', '0', hex_char(c as int / 16), hex_char(c as int % 16)]
    } else {
        seq![c]
    }
}

/// The escaped form of a whole string.
pub open spec fn esc(s: Seq<char>) -> Seq<char>
    decreases s.len(),
{
    if s.len() == 0 {
        Seq::empty()
    } else {
        esc_char(s[0]) + esc(s.drop_first())
    }
}

/// Escaping distributes over concatenation.
pub proof fn lemma_esc_app(a: Seq<char>, b: Seq<char>)
    ensures
        esc(a + b) == esc(a) + esc(b),
    decreases a.len(),
{
    if a.len() == 0 {
        assert(a + b =~= b);
        assert(esc(a) + esc(b) =~= esc(b));
    } else {
        assert((a + b).drop_first() =~= a.drop_first() + b);
        assert((a + b)[0] == a[0]);
        lemma_esc_app(a.drop_first(), b);
        assert(esc(a + b) =~= esc(a) + esc(b));
    }
}

/// The hexadecimal digit character of a value below 16.
fn hex_digit(d: u32) -> (c: char)
    requires
        d < 16,
    ensures
        c == hex_char(d as int),
{
    if d < 10 {
        (48 + d as u8) as char
    } else {
        (87 + d as u8) as char
    }
}

/// Appends the escape sequence of one character to `s`.
fn push_esc_char(s: &mut String, c: char)
    ensures
        final(s)@ == old(s)@ + esc_char(c),
{
    if c == '"' {
        push_char(s, '\\');
        push_char(s, '"');
        proof {
            assert(s@ =~= old(s)@ + esc_char(c));
        }
    } else if c == '\\' {
        push_char(s, '\\');
        push_char(s, '\\');
        proof {
            assert(s@ =~= old(s)@ + esc_char(c));
        }
    } else if (c as u32) < 32 {
        let v: u32 = c as u32;
        push_char(s, '\\');
        push_char(s, 'u');
        push_char(s, '0');
        push_char(s, '0');
        push_char(s, hex_digit(v / 16));
        push_char(s, hex_digit(v % 16));
        proof {
            assert(s@ =~= old(s)@ + esc_char(c));
        }
    } else {
        push_char(s, c);
        proof {
            assert(s@ =~= old(s)@ + esc_char(c));
        }
    }
}

/// Appends the escaped form of `raw` to `s`.
pub fn push_escaped(s: &mut String, raw: &str)
    ensures
        final(s)@ == old(s)@ + esc(raw@),
{
    let n: usize = raw.unicode_len();
    let mut i: usize = 0;
    while i < n
        invariant
            n == raw@.len(),
            i <= n,
            s@ == old(s)@ + esc(raw@.subrange(0, i as int)),
        decreases n - i,
    {
        let c: char = raw.get_char(i);
        push_esc_char(s, c);
        proof {
            assert(raw@.subrange(0, i as int + 1) =~= raw@.subrange(0, i as int)
                + seq![raw@[i as int]]);
            lemma_esc_app(raw@.subrange(0, i as int), seq![raw@[i as int]]);
            assert(seq![c].drop_first() =~= Seq::<char>::empty());
            assert(esc(Seq::<char>::empty()) =~= Seq::<char>::empty());
            assert(esc(seq![c]) =~= esc_char(c));
            assert(s@ =~= old(s)@ + esc(raw@.subrange(0, i as int + 1)));
        }
        i = i + 1;
    }
    proof {
        assert(raw@.subrange(0, n as int) =~= raw@);
    }
}

} // verus!
