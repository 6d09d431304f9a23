//! Fractions with twenty-four binary digits, the way a processor rounds them:
//! to the nearest one, and halfway to the even one.
use vstd::prelude::*;

verus! {

/// The smallest number with one digit more.
pub const DIGITS: u128 = 0x100_0000;

/// A power of two.
pub open spec fn two(k: nat) -> int
    decreases k,
{
    if k == 0 {
        1
    } else {
        2 * two((k - 1) as nat)
    }
}

/// A fraction rounded to a whole number: the nearest, and halfway the even one.
pub open spec fn to_nearest(num: int, denom: int) -> int {
    let whole = num / denom;
    let rest = num % denom;
    if 2 * rest > denom || (2 * rest == denom && whole % 2 == 1) {
        whole + 1
    } else {
        whole
    }
}

/// How many digits a whole number has too many.
pub open spec fn surplus(x: int) -> nat
    decreases x,
{
    if x < DIGITS {
        0
    } else {
        1 + surplus(x / 2)
    }
}

/// A whole number rounded to the digits that there are.
pub open spec fn single(x: int) -> int {
    let d = two(surplus(x));
    to_nearest(x, d) * d
}

/// How often a fraction that is no more than one has to be doubled before it
/// has all its digits before the point.
pub open spec fn doublings(num: int, denom: int) -> nat
    decreases denom * 0x100_0000 - num,
{
    if num <= 0 || num >= denom * 0x80_0000 {
        0
    } else {
        1 + doublings(2 * num, denom)
    }
}

/// A fraction of one rounded to the digits that there are: a number of parts,
/// of which `two(doublings(..))` make one.
pub open spec fn share_digits(num: int, denom: int) -> int {
    to_nearest(num * two(doublings(num, denom)), denom)
}

pub proof fn lemma_two_is_positive(k: nat)
    ensures
        two(k) >= 1,
    decreases k,
{
    if k > 0 {
        lemma_two_is_positive((k - 1) as nat);
    }
}

/// Rounding leaves a whole number as it is, and goes up by no more than to the
/// next one.
pub proof fn lemma_to_nearest(num: int, denom: int)
    requires
        num >= 0,
        denom > 0,
    ensures
        num / denom <= to_nearest(num, denom) <= num / denom + 1,
        num % denom == 0 ==> to_nearest(num, denom) == num / denom,
        0 <= num / denom <= num,
{
    assert(0 <= num / denom <= num) by (nonlinear_arith)
        requires
            num >= 0,
            denom > 0,
    ;
}

/// A fraction that is no more than a whole number is not rounded past it.
pub proof fn lemma_not_past(num: int, denom: int, most: int)
    requires
        num >= 0,
        denom > 0,
        num <= most * denom,
    ensures
        to_nearest(num, denom) <= most,
{
    lemma_to_nearest(num, denom);
    let whole = num / denom;
    let rest = num % denom;
    assert(num == whole * denom + rest && 0 <= rest < denom) by (nonlinear_arith)
        requires
            whole == num / denom,
            rest == num % denom,
            denom > 0,
    ;
    assert(whole <= most) by (nonlinear_arith)
        requires
            whole * denom + rest <= most * denom,
            0 <= rest,
            denom > 0,
    ;
    if whole == most {
        assert(rest == 0) by (nonlinear_arith)
            requires
                whole * denom + rest <= most * denom,
                whole == most,
                0 <= rest,
        ;
    }
}

/// A number with digits too many is as large as that.
pub proof fn lemma_surplus(x: int)
    requires
        x >= 0,
    ensures
        surplus(x) > 0 ==> x >= 0x80_0000 * two(surplus(x)),
        x < DIGITS * two(surplus(x)),
    decreases x,
{
    if x >= DIGITS {
        lemma_surplus(x / 2);
        let d = surplus(x / 2);
        assert(two(d + 1) == 2 * two(d));
        if d == 0 {
            assert(two(0) == 1);
        }
    } else {
        assert(two(0) == 1);
    }
}

/// A number that is not too large has not too many digits.
proof fn lemma_surplus_bound(x: int, k: nat)
    requires
        0 <= x <= DIGITS * two(k),
    ensures
        surplus(x) <= k + 1,
        x < DIGITS * two(k) ==> surplus(x) <= k,
    decreases k,
{
    if x >= DIGITS {
        if k == 0 {
            assert(two(0) == 1);
            assert(x == DIGITS);
            assert(surplus(x / 2) == 0);
        } else {
            assert(two(k) == 2 * two((k - 1) as nat));
            lemma_surplus_bound(x / 2, (k - 1) as nat);
        }
    }
}

/// A larger power of two is divided by a smaller one.
pub proof fn lemma_two_divides(k: nat, d: nat)
    requires
        d <= k,
    ensures
        two(k) == two((k - d) as nat) * two(d),
    decreases d,
{
    if d == 0 {
        assert(two(0) == 1);
    } else {
        lemma_two_divides(k, (d - 1) as nat);
        assert(two((k - d + 1) as nat) == 2 * two((k - d) as nat));
        assert(two(d) == 2 * two((d - 1) as nat));
        assert(2 * two((k - d) as nat) * two((d - 1) as nat) == two((k - d) as nat) * (2 * two((d - 1) as nat)))
            by (nonlinear_arith);
    }
}

/// A multiple is divided without a rest.
pub proof fn lemma_exact(x: int, n: int, d: int)
    requires
        d > 0,
        n >= 0,
        x == n * d,
    ensures
        to_nearest(x, d) == n,
{
    assert(x / d == n && x % d == 0) by (nonlinear_arith)
        requires
            d > 0,
            x == n * d,
    ;
}

/// A whole number with no more digits than there are, times a power of two,
/// stays as it is; and what is no larger is not rounded past it.
pub proof fn lemma_single_of_scaled(x: int, a: int, k: nat)
    requires
        0 <= x <= a * two(k),
        a <= DIGITS,
    ensures
        single(x) <= a * two(k),
        x == a * two(k) ==> single(x) == x,
{
    lemma_two_is_positive(k);
    let d = surplus(x);
    lemma_two_is_positive(d);
    lemma_surplus(x);
    let top = a * two(k);
    assert(0 <= a) by (nonlinear_arith)
        requires
            0 <= a * two(k),
            two(k) >= 1,
    ;
    assert(top <= DIGITS * two(k)) by (nonlinear_arith)
        requires
            top == a * two(k),
            a <= DIGITS,
            two(k) >= 1,
    ;
    lemma_surplus_bound(x, k);
    if d <= k {
        lemma_two_divides(k, d);
        let n = a * two((k - d) as nat);
        assert(top == n * two(d)) by (nonlinear_arith)
            requires
                top == a * two(k),
                two(k) == two((k - d) as nat) * two(d),
                n == a * two((k - d) as nat),
        ;
        lemma_not_past(x, two(d), n);
        assert(to_nearest(x, two(d)) * two(d) <= n * two(d)) by (nonlinear_arith)
            requires
                to_nearest(x, two(d)) <= n,
                two(d) >= 1,
        ;
        if x == top {
            lemma_two_is_positive((k - d) as nat);
            assert(n >= 0) by (nonlinear_arith)
                requires
                    n == a * two((k - d) as nat),
                    a >= 0,
                    two((k - d) as nat) >= 1,
            ;
            lemma_exact(x, n, two(d));
        }
    } else {
        assert(d == k + 1);
        assert(two(d) == 2 * two(k));
        assert(x == DIGITS * two(k));
        assert(x == 0x80_0000 * two(d));
        lemma_exact(x, 0x80_0000, two(d));
    }
}

/// Rounding gives no number below zero.
pub proof fn lemma_single_is_positive(x: int)
    requires
        x >= 0,
    ensures
        single(x) >= 0,
{
    let d = two(surplus(x));
    lemma_two_is_positive(surplus(x));
    lemma_to_nearest(x, d);
    assert(0 <= to_nearest(x, d) * d) by (nonlinear_arith)
        requires
            to_nearest(x, d) >= 0,
            d >= 1,
    ;
}

/// A whole number that has no digits too many stays as it is.
pub proof fn law_short_numbers_are_exact(x: int)
    requires
        0 <= x <= DIGITS,
    ensures
        single(x) == x,
{
    assert(two(0) == 1);
    lemma_single_of_scaled(x, x, 0);
}

/// A fraction is doubled until it has its digits, and no more than it needs.
pub proof fn lemma_doublings(num: int, denom: int)
    requires
        0 < num <= denom,
    ensures
        denom * 0x80_0000 <= num * two(doublings(num, denom)) < denom * DIGITS,
    decreases denom * 0x100_0000 - num,
{
    lemma_doublings_from(num, denom);
}

proof fn lemma_doublings_from(num: int, denom: int)
    requires
        0 < num < denom * DIGITS,
        0 < denom,
    ensures
        denom * 0x80_0000 <= num * two(doublings(num, denom)) < denom * DIGITS,
    decreases denom * 0x100_0000 - num,
{
    if num >= denom * 0x80_0000 {
        assert(two(0) == 1);
    } else {
        lemma_doublings_from(2 * num, denom);
        let k = doublings(2 * num, denom);
        assert(two(k + 1) == 2 * two(k));
        assert(num * (2 * two(k)) == (2 * num) * two(k)) by (nonlinear_arith);
    }
}

/// A fraction rounded to a whole number.
fn nearest(num: u128, denom: u128) -> (r: u128)
    requires
        0 < denom,
        num < 0x1000_0000_0000_0000_0000_0000,
        denom < 0x1000_0000_0000_0000_0000_0000,
    ensures
        r == to_nearest(num as int, denom as int),
        r <= num + 1,
{
    proof {
        lemma_to_nearest(num as int, denom as int);
    }
    let whole: u128 = num / denom;
    let rest: u128 = num % denom;
    if 2 * rest > denom || (2 * rest == denom && whole % 2 == 1) {
        whole + 1
    } else {
        whole
    }
}

/// A whole number rounded to the digits that there are.
pub fn rounded(x: u128) -> (r: u128)
    requires
        x <= 0x400_0000_0000_0000_0000_0000,
    ensures
        r == single(x as int),
        r <= 2 * x,
{
    let mut rest: u128 = x;
    let mut d: u128 = 1;
    let ghost mut k: nat = 0;
    proof {
        assert(two(0) == 1);
    }
    while rest >= DIGITS
        invariant
            surplus(x as int) == k + surplus(rest as int),
            d == two(k),
            rest * d <= x,
            x <= 0x400_0000_0000_0000_0000_0000,
            d >= 1,
        decreases rest,
    {
        proof {
            assert(two(k + 1) == 2 * two(k));
            assert((rest / 2) * (2 * d) <= rest * d) by (nonlinear_arith)
                requires
                    d >= 1,
            ;
            assert(d <= rest * d) by (nonlinear_arith)
                requires
                    rest >= 1,
                    d >= 1,
            ;
            k = k + 1;
        }
        rest = rest / 2;
        d = 2 * d;
    }
    proof {
        assert(surplus(rest as int) == 0);
        lemma_surplus(x as int);
        lemma_to_nearest(x as int, d as int);
        let n = to_nearest(x as int, d as int);
        assert(n * d <= 2 * x) by {
            if d == 1 {
                assert(x as int % 1 == 0 && x as int / 1 == x);
                assert(n == x);
            } else {
                assert((x as int / d as int) * d <= x) by (nonlinear_arith)
                    requires
                        d >= 1,
                ;
                assert(k > 0);
                assert(d <= x);
                assert(n * d <= (x as int / d as int) * d + d) by (nonlinear_arith)
                    requires
                        n <= x as int / d as int + 1,
                        d >= 1,
                ;
            }
        }
        assert(0 <= n * d) by (nonlinear_arith)
            requires
                n >= 0,
                d >= 1,
        ;
    }
    nearest(x, d) * d
}

/// A fraction of one rounded to the digits that there are, and how many parts
/// make one.
pub fn share_parts(num: u64, denom: u64) -> (r: (u128, u128))
    requires
        0 < num <= denom,
    ensures
        r.0 == share_digits(num as int, denom as int),
        r.1 == two(doublings(num as int, denom as int)),
        r.0 <= DIGITS,
        r.0 <= r.1,
        1 <= r.1 < 0x100_0000_0000_0000_0000_0000,
{
    let mut n: u128 = num as u128;
    let mut one: u128 = 1;
    let ghost mut k: nat = 0;
    proof {
        assert(two(0) == 1);
        lemma_doublings(num as int, denom as int);
    }
    while n < denom as u128 * 0x80_0000
        invariant
            0 < num <= denom,
            doublings(num as int, denom as int) == k + doublings(n as int, denom as int),
            one == two(k),
            n == num * one,
            n < denom * DIGITS,
            one >= 1,
        decreases denom * 0x100_0000 - n,
    {
        proof {
            assert(two(k + 1) == 2 * two(k));
            assert(num * (2 * one) == 2 * (num * one)) by (nonlinear_arith);
            assert(one <= num * one) by (nonlinear_arith)
                requires
                    num >= 1,
                    one >= 1,
            ;
            k = k + 1;
        }
        n = 2 * n;
        one = 2 * one;
    }
    proof {
        assert(doublings(n as int, denom as int) == 0);
        lemma_not_past(n as int, denom as int, DIGITS as int);
        assert(num * one <= denom * one) by (nonlinear_arith)
            requires
                num <= denom,
                one >= 1,
        ;
        lemma_not_past(n as int, denom as int, one as int);
        assert(one <= num * one) by (nonlinear_arith)
            requires
                num >= 1,
                one >= 1,
        ;
    }
    (nearest(n, denom as u128), one)
}

/// A fraction is rounded to the nearest whole number, and one halfway between two
/// to the even one.
pub proof fn law_fractions_go_to_the_nearest(num: int, denom: int)
    requires
        denom > 0,
    ensures
        -denom <= 2 * (to_nearest(num, denom) * denom - num) <= denom,
        2 * (to_nearest(num, denom) * denom - num) == denom || 2 * (num - to_nearest(num, denom) * denom) == denom
            ==> to_nearest(num, denom) % 2 == 0,
{
    let whole = num / denom;
    let rest = num % denom;
    vstd::arithmetic::div_mod::lemma_fundamental_div_mod(num, denom);
    assert(whole * denom == denom * whole) by (nonlinear_arith);
    assert((whole + 1) * denom == denom * whole + denom) by (nonlinear_arith);
}

} // verus!
