//! Decimal rendering of the integers that appear in response bodies, with the
//! spec-level meaning of a digit string needed to reason about decoding.

use crate::strutil::push_char;
use vstd::prelude::*;

verus! {

/// The character for a single decimal digit value.
pub open spec fn digit_char(d: int) -> char
    recommends
        0 <= d < 10,
{
    ((48 + d) as u8) as char
}

/// The numeric value of a decimal digit character.
pub open spec fn digit_val(c: char) -> int {
    c as int - 48
}

pub open spec fn is_digit_char(c: char) -> bool {
    48 <= c as int <= 57
}

/// The decimal digit string of a natural number, most significant digit first.
pub open spec fn dec_nat(n: nat) -> Seq<char>
    decreases n,
{
    if n < 10 {
        seq![digit_char(n as int)]
    } else {
        dec_nat(n / 10) + seq![digit_char((n % 10) as int)]
    }
}

/// The decimal rendering of an integer: a leading minus sign when negative.
pub open spec fn dec_int(n: int) -> Seq<char> {
    if n < 0 {
        seq!['-'] + dec_nat((-n) as nat)
    } else {
        dec_nat(n as nat)
    }
}

pub open spec fn all_digits(s: Seq<char>) -> bool {
    forall|i: int| 0 <= i < s.len() ==> is_digit_char(#[trigger] s[i])
}

/// The value that a string of decimal digits denotes.
pub open spec fn val_of_digits(s: Seq<char>) -> int
    decreases s.len(),
{
    if s.len() == 0 {
        0
    } else {
        val_of_digits(s.drop_last()) * 10 + digit_val(s.last())
    }
}

/// The digit string of a natural number consists of digits alone and denotes
/// that very number.
pub proof fn lemma_dec_nat_digits(n: nat)
    ensures
        all_digits(dec_nat(n)),
        dec_nat(n).len() >= 1,
        val_of_digits(dec_nat(n)) == n,
    decreases n,
{
    if n < 10 {
        let s = dec_nat(n);
        assert(s == seq![digit_char(n as int)]);
        assert(s.drop_last() =~= Seq::<char>::empty());
        assert(val_of_digits(Seq::<char>::empty()) == 0);
        assert(s.last() == digit_char(n as int));
        assert(val_of_digits(s) == digit_val(digit_char(n as int)));
    } else {
        lemma_dec_nat_digits(n / 10);
        let s = dec_nat(n);
        let front = dec_nat(n / 10);
        assert(s == front + seq![digit_char((n % 10) as int)]);
        assert(s.drop_last() =~= front);
        assert(s.last() == digit_char((n % 10) as int));
        assert(val_of_digits(s) == val_of_digits(front) * 10 + digit_val(digit_char((n % 10) as int)));
        assert(n / 10 * 10 + n % 10 == n) by (nonlinear_arith);
    }
}

/// Appends the decimal digits of `n` to `s`.
pub fn push_dec_u32(s: &mut String, n: u32)
    ensures
        final(s)@ == old(s)@ + dec_nat(n as nat),
    decreases n,
{
    if n >= 10 {
        push_dec_u32(s, n / 10);
    }
    let d: u32 = n % 10;
    let c: char = ((48 + d) as u8) as char;
    push_char(s, c);
    proof {
        assert(s@ =~= old(s)@ + dec_nat(n as nat));
    }
}

/// Appends the decimal rendering of `n`, with a minus sign when negative.
pub fn push_dec_i8(s: &mut String, n: i8)
    ensures
        final(s)@ == old(s)@ + dec_int(n as int),
{
    if n < 0 {
        push_char(s, '-');
        let m: u32 = (-(n as i32)) as u32;
        push_dec_u32(s, m);
        proof {
            assert(s@ =~= old(s)@ + dec_int(n as int));
        }
    } else {
        push_dec_u32(s, n as u32);
    }
}

} // verus!
