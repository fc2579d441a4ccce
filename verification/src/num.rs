//! Decimal numerals: the value of a digit string and the digit string of a
//! value, with the facts that tie the two together.

use vstd::prelude::*;

use crate::ascii::DIGIT_0;
use crate::ascii::is_digit;

verus! {

/// The numeric value of one decimal digit byte.
pub open spec fn digit_value(b: u8) -> int {
    b - DIGIT_0
}

/// The value of a decimal digit string, most significant digit first.
pub open spec fn dec_value(s: Seq<u8>) -> int
    decreases s.len(),
{
    if s.len() == 0 {
        0
    } else {
        dec_value(s.drop_last()) * 10 + digit_value(s.last())
    }
}

/// The digit byte of one decimal digit value.
pub open spec fn digit_byte(d: int) -> u8 {
    (DIGIT_0 + d) as u8
}

/// The decimal digit string of a non-negative value, without leading
/// zeros (a lone `0` for zero).
pub open spec fn dec_repr(n: int) -> Seq<u8>
    decreases n,
{
    if n < 10 {
        seq![digit_byte(n)]
    } else {
        dec_repr(n / 10).push(digit_byte(n % 10))
    }
}

/// Appending a digit multiplies the value by ten and adds the digit.
pub proof fn lemma_dec_value_push(s: Seq<u8>, b: u8)
    ensures
        dec_value(s.push(b)) == dec_value(s) * 10 + digit_value(b),
{
    assert(s.push(b).drop_last() =~= s);
}

/// A digit string's value is non-negative.
pub proof fn lemma_dec_value_nonneg(s: Seq<u8>)
    requires
        forall|k: int| 0 <= k < s.len() ==> is_digit(s[k]),
    ensures
        dec_value(s) >= 0,
    decreases s.len(),
{
    if s.len() > 0 {
        lemma_dec_value_nonneg(s.drop_last());
    }
}

/// A prefix of a digit string is worth no more than the whole string.
pub proof fn lemma_dec_value_prefix_le(s: Seq<u8>, i: int)
    requires
        0 <= i <= s.len(),
        forall|k: int| 0 <= k < s.len() ==> is_digit(s[k]),
    ensures
        dec_value(s.subrange(0, i)) <= dec_value(s),
    decreases s.len() - i,
{
    if i == s.len() {
        assert(s.subrange(0, i) =~= s);
    } else {
        let t = s.drop_last();
        lemma_dec_value_prefix_le(t, i);
        assert(s.subrange(0, i) =~= t.subrange(0, i));
        lemma_dec_value_nonneg(t);
    }
}

/// The digit string of a value is made of digits and reads back as that
/// value.
pub proof fn lemma_dec_repr_value(n: int)
    requires
        0 <= n <= u32::MAX,
    ensures
        dec_value(dec_repr(n)) == n,
        dec_repr(n).len() >= 1,
        forall|k: int| 0 <= k < dec_repr(n).len() ==> is_digit(#[trigger] dec_repr(n)[k]),
    decreases n,
{
    if n < 10 {
        assert(dec_value(seq![digit_byte(n)].drop_last()) == 0);
    } else {
        lemma_dec_repr_value(n / 10);
        lemma_dec_value_push(dec_repr(n / 10), digit_byte(n % 10));
    }
}

/// Writes the decimal digits of `n` onto the end of `out`.
pub fn push_dec(n: u32, out: &mut Vec<u8>)
    ensures
        final(out)@ == old(out)@ + dec_repr(n as int),
    decreases n,
{
    if n < 10 {
        out.push(DIGIT_0 + (n as u8));
        proof {
            assert(out@ =~= old(out)@ + dec_repr(n as int));
        }
    } else {
        push_dec(n / 10, out);
        out.push(DIGIT_0 + ((n % 10) as u8));
        proof {
            assert(out@ =~= old(out)@ + dec_repr(n as int));
        }
    }
}

} // verus!
