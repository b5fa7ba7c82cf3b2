//! What the bits of doubles stand for, and how counts are rounded to doubles.
use crate::double::{unit, Double};
use crate::reuse::{nearest_double, spacing};
use vstd::arithmetic::power2::*;
use vstd::prelude::*;

verus! {

/// A reading is usable exactly if it is a finite number that is not below zero: up to the
/// bits of the greatest double, or a zero with a sign.
pub proof fn usable_readings_are_finite_and_not_below_zero(double: Double)
    ensures
        double.usable() <==> double.bits <= 0x7fef_ffff_ffff_ffff || double.bits
            == 0x8000_0000_0000_0000,
{
    let bits = double.bits;
    let zero = Double { bits: 0 };
    if double.finite() {
        double.lemma_order(zero);
    }
}

/// One is the unit of the scale on which doubles are measured. The next exponent doubles a
/// number, and the next fraction adds the exponent's step.
pub proof fn bits_are_worth_their_place(double: Double)
    requires
        double.bits < 0x7fe0_0000_0000_0000,
    ensures
        (Double { bits: 0x3ff0_0000_0000_0000 }).magnitude() == unit(),
        (Double { bits: 0 }).magnitude() == 0,
        double.bits >= 0x10_0000_0000_0000 ==> (Double {
            bits: (double.bits + 0x10_0000_0000_0000) as u64,
        }).magnitude() == 2 * double.magnitude(),
        double.bits < 0x10_0000_0000_0000 ==> double.magnitude() == double.bits,
{
    let one = Double { bits: 0x3ff0_0000_0000_0000 };
    lemma2_to64();
    lemma2_to64_rest();
    lemma_pow2_adds(52, 1022);
    assert(one.exponent() == 1023);
    assert(one.fraction() == 0);
    if double.bits >= 0x10_0000_0000_0000 {
        let twice = Double { bits: (double.bits + 0x10_0000_0000_0000) as u64 };
        let e = double.exponent();
        let f = double.fraction();
        assert(twice.exponent() == e + 1);
        assert(twice.fraction() == f);
        assert(e >= 1);
        lemma_pow2_unfold(e);
        let p = pow2((e - 1) as nat) as int;
        let m = 0x10_0000_0000_0000 + f;
        assert(m * (2 * p) == 2 * (m * p)) by (nonlinear_arith);
    }
}

/// The next double after one is a step further, as wide as its exponent has them.
pub proof fn neighbours_are_a_step_apart(double: Double)
    requires
        double.finite(),
        double.fraction() + 1 < 0x10_0000_0000_0000,
        double.bits < 0x8000_0000_0000_0000,
    ensures
        (Double { bits: (double.bits + 1) as u64 }).magnitude() == double.magnitude()
            + if double.exponent() <= 1 {
            1
        } else {
            pow2((double.exponent() - 1) as nat)
        },
{
    let next = Double { bits: (double.bits + 1) as u64 };
    let e = double.exponent();
    assert(next.exponent() == e);
    assert(next.fraction() == double.fraction() + 1);
    lemma2_to64();
    if e > 0 {
        let p = pow2((e - 1) as nat) as int;
        let m = 0x10_0000_0000_0000 + double.fraction();
        assert((m + 1) * p == m * p + p) by (nonlinear_arith);
    }
}

/// A reading is below another exactly if it stands for the smaller number.
pub proof fn readings_are_ordered_by_what_they_stand_for(a: Double, b: Double)
    ensures
        a.below(b) <==> a.magnitude() < b.magnitude(),
{
}

/// Around a count the doubles are a power of two apart: the one that leaves fifty-three
/// bits of the count.
pub proof fn doubles_are_spaced_by_powers_of_two(n: nat)
    ensures
        n < 0x20_0000_0000_0000 ==> spacing(n) == 1,
        n >= 0x20_0000_0000_0000 ==> spacing(n) * 0x10_0000_0000_0000 <= n < spacing(n)
            * 0x20_0000_0000_0000,
        exists|k: nat| spacing(n) == #[trigger] pow2(k),
    decreases n,
{
    lemma2_to64();
    if n < 0x20_0000_0000_0000 {
        assert(spacing(n) == pow2(0));
    } else {
        doubles_are_spaced_by_powers_of_two(n / 2);
        let k = choose|k: nat| spacing(n / 2) == #[trigger] pow2(k);
        lemma_pow2_unfold(k + 1);
        assert(spacing(n) == pow2(k + 1));
    }
}

/// A count is rounded to a double that is nearest to it; of two that are, to the one whose
/// last bit is zero.
pub proof fn counts_are_rounded_to_the_nearest(n: nat)
    ensures
        ({
            let step = spacing(n) as int;
            let near = nearest_double(n) as int;
            &&& step > 0
            &&& near % step == 0
            &&& 2 * (near - n) <= step
            &&& 2 * (n - near) <= step
            &&& 2 * (near - n) == step || 2 * (n - near) == step ==> (near / step) % 2 == 0
        }),
{
    doubles_are_spaced_by_powers_of_two(n);
    let k = choose|k: nat| spacing(n) == #[trigger] pow2(k);
    lemma_pow2_pos(k);
    let step = spacing(n) as int;
    let below = n as int / step;
    let rest = n as int % step;
    vstd::arithmetic::div_mod::lemma_fundamental_div_mod(n as int, step);
    vstd::arithmetic::div_mod::lemma_mod_bound(n as int, step);
    let near = nearest_double(n) as int;
    let q = if 2 * rest < step || (2 * rest == step && below % 2 == 0) {
        below
    } else {
        below + 1
    };
    assert(below >= 0) by {
        vstd::arithmetic::div_mod::lemma_div_pos_is_pos(n as int, step);
    }
    assert(near == q * step);
    assert(n == below * step + rest) by (nonlinear_arith)
        requires
            n == step * below + rest,
    ;
    assert((below + 1) * step == below * step + step) by (nonlinear_arith);
    vstd::arithmetic::div_mod::lemma_fundamental_div_mod_converse(near, step, q, 0);
}

} // verus!
