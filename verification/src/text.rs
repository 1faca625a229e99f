//! Fractions as text: decimal numerals, and `numerator/denominator`.

use vstd::prelude::*;
use crate::fraction::{magnitude, Fraction};
use crate::ratio::{magnitude_of, Ratio};

verus! {

/// The character for a single decimal digit.
pub open spec fn digit(d: nat) -> char {
    if d == 0 {
        '0'
    } else if d == 1 {
        '1'
    } else if d == 2 {
        '2'
    } else if d == 3 {
        '3'
    } else if d == 4 {
        '4'
    } else if d == 5 {
        '5'
    } else if d == 6 {
        '6'
    } else if d == 7 {
        '7'
    } else if d == 8 {
        '8'
    } else {
        '9'
    }
}

/// The decimal numeral of `n`: no leading zeros, `"0"` for 0.
pub open spec fn decimal(n: nat) -> Seq<char>
    decreases n,
{
    if n < 10 {
        seq![digit(n)]
    } else {
        decimal(n / 10).push(digit(n % 10))
    }
}

/// The decimal numeral of `n`, with `-` in front of a negative number
/// and no sign otherwise.
pub open spec fn signed_decimal(n: int) -> Seq<char> {
    if n < 0 {
        seq!['-'] + decimal(magnitude_of(n))
    } else {
        decimal(magnitude_of(n))
    }
}

/// The text of a ratio: that of its lowest terms, as a bare integer where
/// the denominator is 1, else numerator, `/` and denominator.
pub open spec fn text_of(r: Ratio) -> Seq<char> {
    let lowest = r.lowest_terms();
    if lowest.den == 1 {
        signed_decimal(lowest.num)
    } else {
        signed_decimal(lowest.num) + seq!['/'] + decimal(lowest.den as nat)
    }
}

/// A decimal numeral is made of digits, at least one, and starts with `0`
/// only where the number is 0.
pub proof fn lemma_decimal_shape(n: nat)
    ensures
        decimal(n).len() >= 1,
        forall|i: int| 0 <= i < decimal(n).len() ==> '0' <= #[trigger] decimal(n)[i] <= '9',
        n > 0 ==> decimal(n)[0] != '0',
        n == 0 ==> decimal(n) == seq!['0'],
    decreases n,
{
    if n >= 10 {
        lemma_decimal_shape(n / 10);
    }
}

/// The one-character text of a digit.
fn digit_text(d: u64) -> (s: &'static str)
    requires
        d < 10,
    ensures
        s@ == seq![digit(d as nat)],
{
    proof {
        reveal_strlit("0");
        reveal_strlit("1");
        reveal_strlit("2");
        reveal_strlit("3");
        reveal_strlit("4");
        reveal_strlit("5");
        reveal_strlit("6");
        reveal_strlit("7");
        reveal_strlit("8");
        reveal_strlit("9");
    }
    let s = if d == 0 {
        "0"
    } else if d == 1 {
        "1"
    } else if d == 2 {
        "2"
    } else if d == 3 {
        "3"
    } else if d == 4 {
        "4"
    } else if d == 5 {
        "5"
    } else if d == 6 {
        "6"
    } else if d == 7 {
        "7"
    } else if d == 8 {
        "8"
    } else {
        "9"
    };
    assert(s@ =~= seq![digit(d as nat)]);
    s
}

/// Appends the decimal numeral of `n` to `out`.
pub fn push_decimal(out: &mut String, n: u64)
    ensures
        final(out)@ == old(out)@ + decimal(n as nat),
    decreases n,
{
    if n >= 10 {
        push_decimal(out, n / 10);
    }
    out.append(digit_text(n % 10));
    proof {
        let before = old(out)@;
        if n >= 10 {
            assert(final(out)@ =~= before + decimal((n / 10) as nat).push(digit((n % 10) as nat)));
        } else {
            assert(final(out)@ =~= before + seq![digit(n as nat)]);
        }
    }
}

/// Appends the decimal numeral of `n` to `out`, after `-` where `n` is
/// negative.
pub fn push_signed_decimal(out: &mut String, n: i64)
    ensures
        final(out)@ == old(out)@ + signed_decimal(n as int),
{
    if n < 0 {
        out.append("-");
        proof {
            reveal_strlit("-");
            assert("-"@ =~= seq!['-']);
        }
    }
    push_decimal(out, magnitude(n));
    proof {
        assert(final(out)@ =~= old(out)@ + signed_decimal(n as int));
    }
}

impl Fraction {
    /// The value as text, always from its lowest terms: `"2"` for `4/2`,
    /// `"-3/4"` for `-3/4`.
    pub fn to_string(&self) -> (s: String)
        ensures
            s@ == text_of(self@),
    {
        let lowest = self.reduce();
        let mut s = String::new();
        push_signed_decimal(&mut s, lowest.numerator());
        if lowest.denominator() != 1 {
            s.append("/");
            proof {
                reveal_strlit("/");
                assert("/"@ =~= seq!['/']);
            }
            push_decimal(&mut s, magnitude(lowest.denominator()));
        }
        proof {
            assert(s@ =~= text_of(self@));
        }
        s
    }
}

} // verus!
