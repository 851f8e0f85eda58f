//! Decimal rendering of integers, for the messages the library builds.
use vstd::prelude::*;
use vstd::string::StringExecFns;

verus! {

/// The ASCII digit for `d` in `0..10`.
pub open spec fn digit_char(d: int) -> char {
    (d + 48) as char
}

/// The decimal digits of a natural number, most significant first, no leading zeros.
pub open spec fn digits(n: nat) -> Seq<char>
    decreases n,
{
    if n < 10 {
        seq![digit_char(n as int)]
    } else {
        digits(n / 10).push(digit_char((n % 10) as int))
    }
}

/// The decimal text of an integer: a minus sign for negatives, then its digits.
pub open spec fn decimal(n: int) -> Seq<char> {
    if n < 0 {
        seq!['-'] + digits((-n) as nat)
    } else {
        digits(n as nat)
    }
}

/// The one-character text of digit `d` (`d < 10`).
fn digit_text(d: u128) -> (s: String)
    requires
        d < 10,
    ensures
        s@ == seq![digit_char(d as int)],
{
    proof {
        reveal_strlit("0");
        reveal_strlit("1");
        reveal_strlit("2");
        reveal_strlit("3");
        reveal_strlit("4");
        reveal_strlit("5");
        reveal_strlit("6");
        reveal_strlit("7");
        reveal_strlit("8");
        reveal_strlit("9");
    }
    let t = if d == 0 {
        "0"
    } else if d == 1 {
        "1"
    } else if d == 2 {
        "2"
    } else if d == 3 {
        "3"
    } else if d == 4 {
        "4"
    } else if d == 5 {
        "5"
    } else if d == 6 {
        "6"
    } else if d == 7 {
        "7"
    } else if d == 8 {
        "8"
    } else {
        "9"
    };
    let s = String::from_str(t);
    proof {
        assert(s@ =~= seq![digit_char(d as int)]);
    }
    s
}

/// The decimal text of `n`: a minus sign for negatives, then its digits.
pub fn decimal_string(n: i128) -> (s: String)
    ensures
        s@ == decimal(n as int),
{
    let mag: u128 = if n < 0 {
        ((-(n + 1)) as u128) + 1
    } else {
        n as u128
    };
    let mut m: u128 = mag;
    let mut s = String::new();
    while m >= 10
        invariant
            digits(mag as nat) == digits(m as nat) + s@,
        decreases m,
    {
        let d = digit_text(m % 10);
        proof {
            assert(digits(m as nat) == digits((m / 10) as nat).push(digit_char((m % 10) as int)));
            assert(digits(m as nat) + s@ =~= digits((m / 10) as nat) + (d@ + s@));
        }
        s = d.concat(s.as_str());
        m = m / 10;
    }
    let first = digit_text(m);
    proof {
        assert(digits(m as nat) == seq![digit_char(m as int)]);
    }
    let digits_text = first.concat(s.as_str());
    if n < 0 {
        proof {
            reveal_strlit("-");
            assert(mag as int == -(n as int));
        }
        let r = String::from_str("-").concat(digits_text.as_str());
        proof {
            assert(r@ =~= decimal(n as int));
        }
        r
    } else {
        digits_text
    }
}

} // verus!
