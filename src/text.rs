//! The text rendering `re+imi`, with no `+` before a negative imaginary part.
use crate::gaussian::GaussianInt;
use crate::model::Zi;
use vstd::prelude::*;

verus! {

/// The decimal digit character of `d < 10`.
pub open spec fn digit_char(d: int) -> char {
    seq!['0', '1', '2', '3', '4', '5', '6', '7', '8', '9'][d]
}

/// The decimal digits of `m`, most significant first, with no leading zero.
pub open spec fn decimal(m: nat) -> Seq<char>
    decreases m,
{
    if m < 10 {
        seq![digit_char(m as int)]
    } else {
        decimal(m / 10).push(digit_char((m % 10) as int))
    }
}

/// `x` in decimal, with a leading `-` where it is negative.
pub open spec fn int_text(x: int) -> Seq<char> {
    if x < 0 {
        seq!['-'] + decimal((-x) as nat)
    } else {
        decimal(x as nat)
    }
}

/// `re+imi` where `im >= 0`, and `re-|im|i` where `im < 0`.
pub open spec fn zi_text(z: Zi) -> Seq<char> {
    int_text(z.0) + (if z.1 < 0 {
        Seq::empty()
    } else {
        seq!['+']
    }) + int_text(z.1) + seq!['i']
}

fn digit_str(d: u64) -> (r: &'static str)
    requires
        d < 10,
    ensures
        r@ == seq![digit_char(d as int)],
{
    proof {
        reveal_strlit("0");
        reveal_strlit("1");
        reveal_strlit("2");
        reveal_strlit("3");
        reveal_strlit("4");
        reveal_strlit("5");
        reveal_strlit("6");
        reveal_strlit("7");
        reveal_strlit("8");
        reveal_strlit("9");
    }
    if d == 0 {
        "0"
    } else if d == 1 {
        "1"
    } else if d == 2 {
        "2"
    } else if d == 3 {
        "3"
    } else if d == 4 {
        "4"
    } else if d == 5 {
        "5"
    } else if d == 6 {
        "6"
    } else if d == 7 {
        "7"
    } else if d == 8 {
        "8"
    } else {
        "9"
    }
}

fn push_decimal(s: &mut String, m: u64)
    ensures
        final(s)@ == old(s)@ + decimal(m as nat),
    decreases m,
{
    if m >= 10 {
        push_decimal(s, m / 10);
    }
    s.append(digit_str(m % 10));
    assert(final(s)@ =~= old(s)@ + decimal(m as nat));
}

fn push_int(s: &mut String, x: isize)
    ensures
        final(s)@ == old(s)@ + int_text(x as int),
{
    if x < 0 {
        proof {
            reveal_strlit("-");
        }
        s.append("-");
        push_decimal(s, crate::gaussian::abs_u64(x));
        assert(final(s)@ =~= old(s)@ + int_text(x as int));
    } else {
        push_decimal(s, x as u64);
    }
}

impl GaussianInt {
    /// The text `re+imi`, or `re-ni` for a negative imaginary part `-n`
    /// (`3+4i`, `3-4i`, `-2+0i`).
    pub fn to_string(&self) -> (r: String)
        ensures
            r@ == zi_text(self@),
    {
        let mut s = String::new();
        push_int(&mut s, self.re);
        if self.im >= 0 {
            proof {
                reveal_strlit("+");
            }
            s.append("+");
        }
        push_int(&mut s, self.im);
        proof {
            reveal_strlit("i");
        }
        s.append("i");
        assert(s@ =~= zi_text(self@));
        s
    }
}

} // verus!
