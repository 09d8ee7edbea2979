//! Decimal integer literals: what `i64` text parses to, and how an `i64`
//! prints.  The two executable conversions call into std; their contracts
//! state the documented decimal behaviour over the spec functions here.

use vstd::prelude::*;

verus! {

/// An ASCII decimal digit.
pub open spec fn spec_is_digit(c: char) -> bool {
    48 <= (c as u32) && (c as u32) <= 57
}

/// The value of one ASCII decimal digit.
pub open spec fn digit_val(c: char) -> nat {
    ((c as u32) - 48) as nat
}

/// The value of a run of ASCII decimal digits, most significant first.
pub open spec fn digits_val(s: Seq<char>) -> nat
    decreases s.len(),
{
    if s.len() == 0 {
        0
    } else {
        digits_val(s.drop_last()) * 10 + digit_val(s.last())
    }
}

pub open spec fn all_digits(s: Seq<char>) -> bool {
    forall|i: int| 0 <= i < s.len() ==> spec_is_digit(#[trigger] s[i])
}

/// What `str::parse::<i64>` accepts and returns: an optional `+` or `-` sign,
/// then one or more ASCII decimal digits, with the value in range for `i64`.
pub open spec fn spec_parse_i64(s: Seq<char>) -> Option<i64> {
    if s.len() == 0 {
        None
    } else {
        let signed = s[0] == '-' || s[0] == '+';
        let body = if signed {
            s.subrange(1, s.len() as int)
        } else {
            s
        };
        if body.len() == 0 || !all_digits(body) {
            None
        } else {
            let v = digits_val(body) as int;
            if s[0] == '-' {
                if v <= 0x8000_0000_0000_0000 {
                    Some((-v) as i64)
                } else {
                    None
                }
            } else {
                if v <= 0x7fff_ffff_ffff_ffff {
                    Some(v as i64)
                } else {
                    None
                }
            }
        }
    }
}

/// The decimal digit character for a value below ten.
pub open spec fn digit_char(d: nat) -> char {
    if d == 0 {
        '0'
    } else if d == 1 {
        '1'
    } else if d == 2 {
        '2'
    } else if d == 3 {
        '3'
    } else if d == 4 {
        '4'
    } else if d == 5 {
        '5'
    } else if d == 6 {
        '6'
    } else if d == 7 {
        '7'
    } else if d == 8 {
        '8'
    } else {
        '9'
    }
}

/// The decimal digits of a natural number, without leading zeros.
pub open spec fn dec_nat(n: nat) -> Seq<char>
    decreases n,
{
    if n < 10 {
        seq![digit_char(n)]
    } else {
        dec_nat(n / 10).push(digit_char(n % 10))
    }
}

/// The decimal rendering of an `i64`, as `to_string` produces it:
/// a `-` sign for negative values, then the digits without leading zeros.
pub open spec fn spec_i64_dec(n: i64) -> Seq<char> {
    if n < 0 {
        seq!['-'] + dec_nat((-(n as int)) as nat)
    } else {
        dec_nat(n as nat)
    }
}

/// Relies on `str::parse::<i64>` (core's `FromStr` for `i64`): it accepts an
/// optional leading `+` or `-` sign followed by one or more ASCII decimal
/// digits, rejects everything else, and rejects values out of range.
#[verifier::external_body]
pub fn parse_i64(token: &str) -> (r: Option<i64>)
    ensures
        r == spec_parse_i64(token@),
{
    token.parse::<i64>().ok()
}

/// Relies on `i64`'s `Display` (via `ToString`): it writes the value in
/// decimal, with a `-` sign for negative values and no leading zeros.
#[verifier::external_body]
pub fn i64_to_string(n: i64) -> (r: String)
    ensures
        r@ == spec_i64_dec(n),
{
    n.to_string()
}

/// Every character of `dec_nat` is a decimal digit.
pub proof fn lemma_dec_nat_digits(n: nat)
    ensures
        dec_nat(n).len() >= 1,
        all_digits(dec_nat(n)),
    decreases n,
{
    if n >= 10 {
        lemma_dec_nat_digits(n / 10);
        assert forall|i: int| 0 <= i < dec_nat(n).len() implies spec_is_digit(
            #[trigger] dec_nat(n)[i],
        ) by {
            if i < dec_nat(n / 10).len() {
                assert(dec_nat(n)[i] == dec_nat(n / 10)[i]);
            }
        }
    }
}

/// `digit_char` and `digit_val` are inverse on values below ten.
pub proof fn lemma_digit_char_val(d: nat)
    requires
        d < 10,
    ensures
        digit_val(digit_char(d)) == d,
{
    assert(('0' as u32) == 48 && ('1' as u32) == 49 && ('2' as u32) == 50 && ('3' as u32) == 51
        && ('4' as u32) == 52 && ('5' as u32) == 53 && ('6' as u32) == 54 && ('7' as u32) == 55 && (
    '8' as u32) == 56 && ('9' as u32) == 57);
}

/// Reading the decimal digits of `n` back gives `n`.
pub proof fn lemma_dec_nat_val(n: nat)
    ensures
        digits_val(dec_nat(n)) == n,
    decreases n,
{
    if n < 10 {
        lemma_digit_char_val(n);
        let s = dec_nat(n);
        assert(s == seq![digit_char(n)]);
        assert(s.drop_last() =~= Seq::<char>::empty());
        assert(digits_val(s) == digits_val(s.drop_last()) * 10 + digit_val(s.last()));
        assert(digits_val(s.drop_last()) == 0);
    } else {
        lemma_dec_nat_val(n / 10);
        lemma_digit_char_val(n % 10);
        let s = dec_nat(n);
        assert(s == dec_nat(n / 10).push(digit_char(n % 10)));
        assert(s.drop_last() =~= dec_nat(n / 10));
        assert(s.last() == digit_char(n % 10));
        assert(digits_val(s) == digits_val(s.drop_last()) * 10 + digit_val(s.last()));
        assert(digits_val(s.drop_last()) == n / 10);
        assert(digit_val(s.last()) == n % 10);
        assert(n / 10 * 10 + n % 10 == n) by {
            vstd::arithmetic::div_mod::lemma_fundamental_div_mod(n as int, 10);
        }
    }
}

/// The decimal text of any `i64` parses back to that value.
pub proof fn lemma_parse_dec_roundtrip(v: i64)
    ensures
        spec_parse_i64(spec_i64_dec(v)) == Some(v),
{
    if v < 0 {
        let m = (-(v as int)) as nat;
        lemma_dec_nat_digits(m);
        lemma_dec_nat_val(m);
        let s = spec_i64_dec(v);
        assert(s[0] == '-');
        assert(s.subrange(1, s.len() as int) =~= dec_nat(m));
    } else {
        let m = v as nat;
        lemma_dec_nat_digits(m);
        lemma_dec_nat_val(m);
        let s = spec_i64_dec(v);
        assert(spec_is_digit(s[0]));
        assert(s[0] != '-' && s[0] != '+');
    }
}

} // verus!
