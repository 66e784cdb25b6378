//! Decimal rendering of counters for the upload form fields.

use vstd::prelude::*;

verus! {

/// The ASCII digit for `d`.
pub open spec fn digit_char(d: int) -> char
    recommends
        0 <= d < 10,
{
    ((48 + d) as u8) as char
}

/// `n` in decimal, no padding, as `u64::to_string` renders it.
pub open spec fn dec_str(n: int) -> Seq<char>
    recommends
        n >= 0,
    decreases n,
{
    if n < 10 {
        seq![digit_char(n)]
    } else {
        dec_str(n / 10) + seq![digit_char(n % 10)]
    }
}

/// Relies on String::push: appends one character at the end.
#[verifier::external_body]
fn push_char(s: &mut String, c: char)
    ensures
        final(s)@ == old(s)@.push(c),
{
    s.push(c);
}

/// The digits of `ds`, last first, as characters.
spec fn rev_digit_chars(ds: Seq<u8>) -> Seq<char> {
    Seq::new(ds.len(), |i: int| digit_char(ds[ds.len() - 1 - i] as int))
}

/// Renders `n` in decimal.
pub fn u64_to_dec_string(n: u64) -> (r: String)
    ensures
        r@ == dec_str(n as int),
{
    let mut digits: Vec<u8> = Vec::new();
    let mut m = n;
    while m >= 10
        invariant
            dec_str(n as int) == dec_str(m as int) + rev_digit_chars(digits@),
            forall|i: int| 0 <= i < digits@.len() ==> #[trigger] digits@[i] < 10,
        decreases m,
    {
        let d = (m % 10) as u8;
        digits.push(d);
        proof {
            assert(rev_digit_chars(digits@) =~= seq![digit_char(d as int)] + rev_digit_chars(
                digits@.drop_last(),
            ));
            assert(dec_str(m as int) == dec_str(m as int / 10) + seq![
                digit_char(m as int % 10),
            ]);
            assert(dec_str(n as int) =~= dec_str((m / 10) as int) + rev_digit_chars(digits@));
        }
        m = m / 10;
    }
    digits.push(m as u8);
    proof {
        assert(dec_str(m as int) == seq![digit_char(m as int)]);
        assert(rev_digit_chars(digits@) =~= seq![digit_char(m as int)] + rev_digit_chars(
            digits@.drop_last(),
        ));
        assert(dec_str(n as int) =~= rev_digit_chars(digits@));
    }
    let ghost target = dec_str(n as int);
    let count = digits.len();
    let mut s = String::new();
    let mut j: usize = 0;
    while j < count
        invariant
            count == digits@.len(),
            0 <= j <= count,
            target == rev_digit_chars(digits@),
            forall|i: int| 0 <= i < digits@.len() ==> #[trigger] digits@[i] < 10,
            s@ == target.take(j as int),
        decreases count - j,
    {
        let d = digits[count - 1 - j];
        push_char(&mut s, (48 + d) as char);
        proof {
            assert(s@ =~= target.take(j as int + 1));
        }
        j += 1;
    }
    proof {
        assert(target.take(count as int) =~= target);
    }
    s
}

} // verus!
