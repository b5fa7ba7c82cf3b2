//! How much of a prompt was reused, judged as its quotient in doubles is.
//!
//! The counts are rounded to doubles, and their quotient is compared with the doubles
//! nearest to one fifth and to four fifths. A quotient is rounded to one of these or
//! beyond exactly if it is not less than the middle between it and the double below:
//! at the middle itself it is rounded up, since the last bit of both is zero.
use vstd::prelude::*;

verus! {

/// Two to the power fifty-three: every count up to it is a double.
pub const EXACT: u64 = 0x20_0000_0000_0000;

/// The middle below the double nearest to one fifth, counted in steps of one by two to
/// the power fifty-six; and that below the double nearest to four fifths, counted in
/// steps of one by two to the power fifty-four.
pub const MIDDLE: u64 = 0x33_3333_3333_3333;

/// Two to the power fifty-six.
pub const FIFTH_STEPS: u64 = 0x100_0000_0000_0000;

/// Two to the power fifty-four.
pub const FOUR_FIFTHS_STEPS: u64 = 0x40_0000_0000_0000;

/// The distance of the doubles around a count, where it is more than one.
pub open spec fn spacing(n: nat) -> nat
    decreases n,
{
    if n < EXACT {
        1
    } else {
        2 * spacing(n / 2)
    }
}

/// The double nearest to a count; of two, the even one.
pub open spec fn nearest_double(n: nat) -> nat {
    let step = spacing(n);
    let below = n / step;
    let rest = n % step;
    if 2 * rest < step || (2 * rest == step && below % 2 == 0) {
        below * step
    } else {
        (below + 1) * step
    }
}

/// Whether a part is less than a fifth of a whole, in doubles.
pub open spec fn below_a_fifth(part: u64, whole: u64) -> bool {
    nearest_double(part as nat) * FIFTH_STEPS < nearest_double(whole as nat) * MIDDLE
}

/// Whether a part is at least four fifths of a whole, in doubles. Of nothing there is no
/// such part.
pub open spec fn from_four_fifths(part: u64, whole: u64) -> bool {
    whole > 0 && nearest_double(part as nat) * FOUR_FIFTHS_STEPS >= nearest_double(whole as nat)
        * MIDDLE
}

/// A count up to two to the power fifty-three is a double itself.
pub proof fn lemma_exact(n: nat)
    requires
        n < EXACT,
    ensures
        nearest_double(n) == n,
{
    assert(spacing(n) == 1);
    vstd::arithmetic::div_mod::lemma_div_basics(n as int);
    assert(n % 1 == 0);
}

proof fn lemma_spacing(n: nat)
    ensures
        spacing(n) == 1 || spacing(n) * 0x10_0000_0000_0000 <= n,
        spacing(n) >= 1,
    decreases n,
{
    if n >= EXACT {
        lemma_spacing(n / 2);
    }
}

fn find_spacing(n: u64) -> (r: u64)
    ensures
        r == spacing(n as nat),
        1 <= r <= 4096,
    decreases n,
{
    proof {
        lemma_spacing(n as nat);
    }
    if n < EXACT {
        1
    } else {
        proof {
            lemma_spacing((n / 2) as nat);
        }
        2 * find_spacing(n / 2)
    }
}

fn to_nearest_double(n: u64) -> (r: u128)
    ensures
        r == nearest_double(n as nat),
        r <= u64::MAX + 4096,
{
    let step = find_spacing(n);
    let below = n / step;
    let rest = n % step;
    proof {
        vstd::arithmetic::div_mod::lemma_fundamental_div_mod(n as int, step as int);
        assert(below * step == step * below) by (nonlinear_arith);
        assert((below + 1) * step == below * step + step) by (nonlinear_arith);
    }
    if 2 * rest < step || (2 * rest == step && below % 2 == 0) {
        below as u128 * step as u128
    } else {
        (below as u128 + 1) * step as u128
    }
}

fn scaled(n: u128, steps: u64) -> (r: u128)
    requires
        n <= u64::MAX + 4096,
        steps <= FIFTH_STEPS,
    ensures
        r == n * steps,
{
    assert(n * steps <= 0x2_0000_0000_0000_0000 * FIFTH_STEPS) by (nonlinear_arith)
        requires
            0 <= n <= 0x2_0000_0000_0000_0000,
            0 <= steps <= FIFTH_STEPS,
    ;
    n * steps as u128
}

/// Whether a part is less than a fifth of a whole, in doubles.
pub fn is_below_a_fifth(part: u64, whole: u64) -> (r: bool)
    ensures
        r == below_a_fifth(part, whole),
{
    let a = to_nearest_double(part);
    let b = to_nearest_double(whole);
    scaled(a, FIFTH_STEPS) < scaled(b, MIDDLE)
}

/// Whether a part is at least four fifths of a whole, in doubles.
pub fn is_from_four_fifths(part: u64, whole: u64) -> (r: bool)
    ensures
        r == from_four_fifths(part, whole),
{
    let a = to_nearest_double(part);
    let b = to_nearest_double(whole);
    whole > 0 && scaled(a, FOUR_FIFTHS_STEPS) >= scaled(b, MIDDLE)
}

} // verus!
