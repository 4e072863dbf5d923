//! Decimal text for the language's integer values.
//!
//! The spec-level function [`int_text`] defines the decimal rendering of
//! any integer — a minus sign for negative values, then the digits, most
//! significant first, with no leading zeros except for zero itself — and
//! [`int_to_string`] is proved to return exactly that.

use vstd::prelude::*;
use vstd::string::StringExecFns;

verus! {

/// The character of one decimal digit.
pub open spec fn digit_char(d: int) -> char {
    ((48 + d) as u8) as char
}

/// The decimal digits of a non-negative value, most significant first.
pub open spec fn dec_digits(n: int) -> Seq<char>
    decreases n,
{
    if n <= 9 {
        seq![digit_char(if n < 0 { 0 } else { n })]
    } else {
        dec_digits(n / 10).push(digit_char(n % 10))
    }
}

/// The decimal text of an integer: a minus sign for negative values, then
/// the digits of its magnitude.
pub open spec fn int_text(v: int) -> Seq<char> {
    if v < 0 {
        seq!['-'] + dec_digits(-v)
    } else {
        dec_digits(v)
    }
}

/// Renders a value in decimal.
pub fn int_to_string(v: i32) -> (s: String)
    ensures
        s@ == int_text(v as int),
{
    let neg = v < 0;
    let mag: u64 = if v < 0 {
        (-(v as i64)) as u64
    } else {
        v as u64
    };
    let ghost mag0 = mag as int;
    let mut ds: Vec<char> = Vec::new();
    let mut m: u64 = mag;
    let d0 = (48 + (m % 10) as u8) as char;
    ds.push(d0);
    m = m / 10;
    proof {
        assert(ds@ =~= seq![digit_char(mag0 % 10)]);
        if m == 0 {
            assert(dec_digits(mag0) =~= ds@.reverse());
        } else {
            assert(dec_digits(mag0) == dec_digits(mag0 / 10).push(digit_char(mag0 % 10)));
            assert(dec_digits(mag0) =~= dec_digits(m as int) + ds@.reverse());
        }
    }
    while m > 0
        invariant
            mag0 == mag as int,
            ds@.len() >= 1,
            m == 0 ==> dec_digits(mag0) =~= ds@.reverse(),
            m > 0 ==> dec_digits(mag0) =~= dec_digits(m as int) + ds@.reverse(),
        decreases m,
    {
        let ghost dsp = ds@;
        let ghost mp = m as int;
        let d = (48 + (m % 10) as u8) as char;
        ds.push(d);
        m = m / 10;
        proof {
            assert(ds@.reverse() =~= seq![digit_char(mp % 10)] + dsp.reverse());
            if m == 0 {
                assert(dec_digits(mp) =~= seq![digit_char(mp % 10)]);
                assert(dec_digits(mag0) =~= ds@.reverse());
            } else {
                assert(dec_digits(mp) == dec_digits(mp / 10).push(digit_char(mp % 10)));
                assert(dec_digits(mp) =~= dec_digits(m as int) + seq![digit_char(mp % 10)]);
                assert(dec_digits(mag0) =~= dec_digits(m as int) + ds@.reverse());
            }
        }
    }
    let mut s = String::new();
    if neg {
        s.append("-");
    }
    let ghost sign: Seq<char> = if neg {
        seq!['-']
    } else {
        Seq::empty()
    };
    proof {
        reveal_strlit("-");
        assert("-"@ =~= seq!['-']);
        assert(s@ =~= sign + ds@.reverse().take(0));
    }
    let n = ds.len();
    let mut k: usize = 0;
    while k < n
        invariant
            n == ds.len(),
            k <= n,
            sign == (if neg {
                seq!['-']
            } else {
                Seq::<char>::empty()
            }),
            s@ =~= sign + ds@.reverse().take(k as int),
        decreases n - k,
    {
        let c = ds[n - 1 - k];
        push_char(&mut s, c);
        proof {
            assert(ds@.reverse()[k as int] == ds@[n - 1 - k as int]);
            assert(s@ =~= sign + ds@.reverse().take(k as int + 1));
        }
        k = k + 1;
    }
    proof {
        assert(ds@.reverse().take(n as int) =~= ds@.reverse());
        if neg {
            assert(mag0 == -(v as int));
            assert(s@ =~= int_text(v as int));
        } else {
            assert(s@ =~= int_text(v as int));
        }
    }
    s
}

/// Relies on `String::push`: appends exactly one character to the string.
#[verifier::external_body]
pub(crate) fn push_char(s: &mut String, c: char)
    ensures
        final(s)@ == old(s)@.push(c),
{
    s.push(c);
}

} // verus!
