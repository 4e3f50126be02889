//! Decimal text for integers.
//!
//! The response serializer and the validator messages both render integers in
//! decimal. `dec_nat` / `dec_int` give the mathematical form of that text and
//! the executable conversions are proved against them.

use vstd::prelude::*;
use vstd::string::StrSliceExecFns;
use vstd::string::StringExecFns;

verus! {

/// The character for one decimal digit.
pub open spec fn digit_char(d: int) -> char {
    if d == 0 {
        '0'
    } else if d == 1 {
        '1'
    } else if d == 2 {
        '2'
    } else if d == 3 {
        '3'
    } else if d == 4 {
        '4'
    } else if d == 5 {
        '5'
    } else if d == 6 {
        '6'
    } else if d == 7 {
        '7'
    } else if d == 8 {
        '8'
    } else {
        '9'
    }
}

/// Decimal text of a non-negative integer, most significant digit first,
/// without leading zeros (a lone zero for zero itself).
pub open spec fn dec_nat(n: nat) -> Seq<char>
    decreases n,
{
    if n < 10 {
        seq![digit_char(n as int)]
    } else {
        dec_nat(n / 10) + seq![digit_char((n % 10) as int)]
    }
}

/// Decimal text of an integer: a minus sign ahead of the magnitude.
pub open spec fn dec_int(n: int) -> Seq<char> {
    if n < 0 {
        seq!['-'] + dec_nat((-n) as nat)
    } else {
        dec_nat(n as nat)
    }
}

/// The one-character string for a decimal digit.
fn digit_str(d: u64) -> (s: &'static str)
    requires
        d < 10,
    ensures
        s@ == seq![digit_char(d as int)],
{
    let s: &'static str = if d == 0 {
        "0"
    } else if d == 1 {
        "1"
    } else if d == 2 {
        "2"
    } else if d == 3 {
        "3"
    } else if d == 4 {
        "4"
    } else if d == 5 {
        "5"
    } else if d == 6 {
        "6"
    } else if d == 7 {
        "7"
    } else if d == 8 {
        "8"
    } else {
        "9"
    };
    proof {
        reveal_strlit("0");
        reveal_strlit("1");
        reveal_strlit("2");
        reveal_strlit("3");
        reveal_strlit("4");
        reveal_strlit("5");
        reveal_strlit("6");
        reveal_strlit("7");
        reveal_strlit("8");
        reveal_strlit("9");
        assert(s@ =~= seq![digit_char(d as int)]);
    }
    s
}

/// Text of a digit sequence taken in reverse: the last collected digit comes
/// first. The digit loop below collects digits least significant first.
spec fn rev_digits_text(ds: Seq<u64>) -> Seq<char>
    decreases ds.len(),
{
    if ds.len() == 0 {
        Seq::<char>::empty()
    } else {
        seq![digit_char(ds.last() as int)] + rev_digits_text(ds.drop_last())
    }
}

/// Renders an unsigned integer in decimal.
pub fn u64_to_string(n: u64) -> (s: String)
    ensures
        s@ == dec_nat(n as nat),
{
    let mut digits: Vec<u64> = Vec::new();
    let mut m: u64 = n;
    while m >= 10
        invariant
            dec_nat(n as nat) =~= dec_nat(m as nat) + rev_digits_text(digits@),
            forall|i: int| 0 <= i < digits@.len() ==> digits@[i] < 10,
        decreases m,
    {
        let ghost prev_digits = digits@;
        let d: u64 = m % 10;
        digits.push(d);
        proof {
            assert(digits@.drop_last() =~= prev_digits);
        }
        m = m / 10;
        proof {
            assert(dec_nat(n as nat) =~= dec_nat(m as nat) + rev_digits_text(digits@));
        }
    }
    let mut s = String::new();
    s.append(digit_str(m));
    let mut j: usize = digits.len();
    proof {
        assert(digits@.take(j as int) =~= digits@);
    }
    while j > 0
        invariant
            j <= digits@.len(),
            forall|i: int| 0 <= i < digits@.len() ==> digits@[i] < 10,
            s@ + rev_digits_text(digits@.take(j as int)) =~= dec_nat(n as nat),
        decreases j,
    {
        let ghost prev = s@;
        let ghost jj = j as int;
        s.append(digit_str(digits[j - 1]));
        j = j - 1;
        proof {
            assert(digits@.take(jj).drop_last() =~= digits@.take(jj - 1));
            assert(rev_digits_text(digits@.take(jj)) =~= seq![
                digit_char(digits@[jj - 1] as int),
            ] + rev_digits_text(digits@.take(jj - 1)));
            assert(s@ + rev_digits_text(digits@.take(jj - 1)) =~= prev + rev_digits_text(
                digits@.take(jj),
            ));
        }
    }
    proof {
        assert(digits@.take(0) =~= Seq::<u64>::empty());
        assert(s@ =~= dec_nat(n as nat));
    }
    s
}

/// Renders a signed integer in decimal.
pub fn i64_to_string(n: i64) -> (s: String)
    ensures
        s@ == dec_int(n as int),
{
    if n >= 0 {
        let s = u64_to_string(n as u64);
        s
    } else {
        let mag: u64 = ((-(n + 1)) as u64) + 1;
        assert(mag as nat == (-(n as int)) as nat);
        let mut s = String::new();
        s.append("-");
        let t = u64_to_string(mag);
        s.append(t.as_str());
        proof {
            reveal_strlit("-");
            assert(s@ =~= dec_int(n as int));
        }
        s
    }
}

/// Renders a machine-size integer in decimal.
pub fn usize_to_string(n: usize) -> (s: String)
    ensures
        s@ == dec_nat(n as nat),
{
    u64_to_string(n as u64)
}

} // verus!
