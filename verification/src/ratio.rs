//! Exact fractions and their decimal text.

use crate::text;
use vstd::prelude::*;
use vstd::string::*;

verus! {

/// The fraction `num / den`.
#[derive(Debug, Clone, Copy, PartialEq, Eq, Structural)]
pub struct Ratio {
    pub num: u64,
    pub den: u64,
}

/// The whole number nearest to `num / den`; of two that are equally near, the
/// even one.
pub open spec fn nearest(num: nat, den: nat) -> nat
    recommends
        den > 0,
{
    let q = num / den;
    let twice = 2 * (num % den);
    if twice > den || (twice == den && q % 2 == 1) {
        q + 1
    } else {
        q
    }
}

/// The whole number nearest to `num / den`.
pub fn round_nearest(num: u128, den: u128) -> (r: u128)
    requires
        0 < den,
        den <= u64::MAX,
        num <= u64::MAX * 1_000_000_000,
    ensures
        r == nearest(num as nat, den as nat),
{
    let q: u128 = num / den;
    let twice: u128 = 2 * (num % den);
    proof {
        assert(q <= num) by (nonlinear_arith)
            requires
                q == num / den,
                den >= 1,
        ;
    }
    if twice > den || (twice == den && q % 2 == 1) {
        q + 1
    } else {
        q
    }
}

/// `d` as a decimal text of at least `places` digits, padded with zeros.
pub open spec fn padded(d: nat, places: nat) -> Seq<char>
    decreases places,
{
    if places == 0 {
        Seq::empty()
    } else {
        padded(d / 10, (places - 1) as nat).push(text::digit_char(d % 10))
    }
}

/// Ten to the power `n`.
pub open spec fn pow10(n: nat) -> nat
    decreases n,
{
    if n == 0 {
        1
    } else {
        10 * pow10((n - 1) as nat)
    }
}

/// `num / den` with `places` decimal places, rounded to the nearest; of two
/// that are equally near, to the one whose last digit is even.
pub open spec fn fixed(num: nat, den: nat, places: nat) -> Seq<char> {
    let scaled = nearest(num * pow10(places), den);
    text::decimal(scaled / pow10(places)) + "."@ + padded(scaled % pow10(places), places)
}

/// The last `places` decimal digits of `d`.
fn padded_text(d: u128, places: u64) -> (r: String)
    ensures
        r@ == padded(d as nat, places as nat),
    decreases places,
{
    if places == 0 {
        String::new()
    } else {
        let mut out = padded_text(d / 10, places - 1);
        out.push(text::digit(d % 10));
        out
    }
}

/// `num / den` with three decimal places.
pub fn fixed3(num: u64, den: u64) -> (r: String)
    requires
        den > 0,
    ensures
        r@ == fixed(num as nat, den as nat, 3),
{
    proof {
        reveal_with_fuel(pow10, 4);
    }
    let scaled: u128 = round_nearest(num as u128 * 1_000, den as u128);
    let mut out = text::decimal_text(scaled / 1_000);
    out.append(".");
    let frac = padded_text(scaled % 1_000, 3);
    out.append(frac.as_str());
    out
}

/// `num / den` with six decimal places.
pub fn fixed6(num: u64, den: u64) -> (r: String)
    requires
        den > 0,
    ensures
        r@ == fixed(num as nat, den as nat, 6),
{
    proof {
        reveal_with_fuel(pow10, 7);
    }
    let scaled: u128 = round_nearest(num as u128 * 1_000_000, den as u128);
    let mut out = text::decimal_text(scaled / 1_000_000);
    out.append(".");
    let frac = padded_text(scaled % 1_000_000, 6);
    out.append(frac.as_str());
    out
}

/// Rounding goes to the nearest whole number, and to the even one of two that are
/// equally near.
pub proof fn law_rounding_is_to_the_nearest(num: nat, den: nat)
    requires
        den > 0,
    ensures
        2 * num <= 2 * (nearest(num, den) * den) + den,
        2 * (nearest(num, den) * den) <= 2 * num + den,
        2 * num == 2 * (nearest(num, den) * den) + den || 2 * (nearest(num, den) * den) == 2 * num
            + den ==> nearest(num, den) % 2 == 0,
{
    let q = (num / den) as int;
    let m = (num % den) as int;
    let d = den as int;
    assert(num == q * d + m && 0 <= m < d) by (nonlinear_arith)
        requires
            d > 0,
            q == num as int / d,
            m == num as int % d,
    ;
    assert((q + 1) * d == q * d + d) by (nonlinear_arith);
}

/// A fraction is written with a point and as many digits behind it as asked for.
pub proof fn law_fraction_has_its_places(num: nat, den: nat, d: nat, places: nat)
    requires
        den > 0,
    ensures
        pow10(0) == 1,
        pow10(places + 1) == 10 * pow10(places),
        padded(d, places).len() == places,
        fixed(num * den, den, 0) == text::decimal(num) + "."@,
    decreases places,
{
    if places > 0 {
        law_fraction_has_its_places(num, den, d / 10, (places - 1) as nat);
    }
    let x = num * den;
    assert(x / den == num && x % den == 0) by (nonlinear_arith)
        requires
            den > 0,
            x == num * den,
    ;
    assert(x * 1 == x);
    assert(nearest(x, den) == num);
    assert(num / 1 == num && num % 1 == 0);
    assert(text::decimal(num) + "."@ + Seq::<char>::empty() =~= text::decimal(num) + "."@);
}

} // verus!
