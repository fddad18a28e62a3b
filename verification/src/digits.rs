//! Decimal text for machine integers, with an exact character-level
//! specification. The display contexts of the render engine and the failure
//! messages of the search invoker need index values as text.

use vstd::prelude::*;

verus! {

/// The character for one decimal digit.
pub open spec fn digit_char(d: int) -> char
    recommends
        0 <= d <= 9,
{
    ((48 + d) as u8) as char
}

/// The decimal text of a non-negative integer, most significant digit first.
pub open spec fn decimal_text(n: int) -> Seq<char>
    recommends
        n >= 0,
    decreases n,
{
    if n < 10 {
        seq![digit_char(n)]
    } else {
        decimal_text(n / 10).push(digit_char(n % 10))
    }
}

/// The decimal text of `n`.
pub fn usize_to_text(n: usize) -> (r: String)
    ensures
        r@ == decimal_text(n as int),
{
    // digits of n, least significant first
    let mut rev: Vec<char> = Vec::new();
    let mut m: usize = n;
    loop
        invariant_except_break
            decimal_text(n as int) =~= decimal_text(m as int) + rev@.reverse(),
        ensures
            decimal_text(n as int) =~= rev@.reverse(),
        decreases m,
    {
        let d: u8 = (m % 10) as u8 + 48;
        let c: char = d as char;
        let ghost prev = rev@;
        rev.push(c);
        proof {
            assert(c == digit_char(m as int % 10));
            assert(rev@.reverse() =~= seq![c] + prev.reverse());
        }
        if m < 10 {
            proof {
                assert(decimal_text(m as int) == seq![digit_char(m as int)]);
                assert(decimal_text(n as int) =~= rev@.reverse());
            }
            break ;
        }
        proof {
            assert(decimal_text(m as int) == decimal_text(m as int / 10).push(
                digit_char(m as int % 10),
            ));
            assert(decimal_text(n as int) =~= decimal_text(m as int / 10) + rev@.reverse());
        }
        m = m / 10;
    }
    let mut out = String::new();
    let mut i: usize = rev.len();
    while i > 0
        invariant
            i <= rev@.len(),
            decimal_text(n as int) =~= rev@.reverse(),
            out@ =~= rev@.reverse().subrange(0, rev@.len() - i),
        decreases i,
    {
        i = i - 1;
        let c = rev[i];
        out.push(c);
        proof {
            assert(out@ =~= rev@.reverse().subrange(0, rev@.len() - i));
        }
    }
    proof {
        assert(out@ =~= rev@.reverse());
    }
    out
}

} // verus!
