//! Decimal rendering of the counters for the event stream.

use vstd::prelude::*;

verus! {

/// The decimal digit character for `d` in 0..10.
pub open spec fn dec_digit(d: int) -> char
    recommends
        0 <= d < 10,
{
    if d == 0 {
        '0'
    } else if d == 1 {
        '1'
    } else if d == 2 {
        '2'
    } else if d == 3 {
        '3'
    } else if d == 4 {
        '4'
    } else if d == 5 {
        '5'
    } else if d == 6 {
        '6'
    } else if d == 7 {
        '7'
    } else if d == 8 {
        '8'
    } else {
        '9'
    }
}

/// The decimal digits of `n`, most significant first, without leading
/// zeros (a single `'0'` for zero).
pub open spec fn u64_dec(n: int) -> Seq<char>
    recommends
        0 <= n,
    decreases n,
{
    if n < 10 {
        seq![dec_digit(n)]
    } else {
        u64_dec(n / 10).push(dec_digit(n % 10))
    }
}

/// Relies on itoa::Buffer::format: it writes exactly the decimal digits
/// of the integer, most significant first, with no sign, padding or
/// leading zeros.
#[verifier::external_body]
pub(crate) fn itoa_u64(n: u64) -> (r: String)
    ensures
        r@ == u64_dec(n as int),
{
    itoa::Buffer::new().format(n).to_string()
}

} // verus!
