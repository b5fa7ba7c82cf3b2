//! Double-precision readings, held by their bits.
//!
//! The library keeps rates and uptimes as the sixty-four bits of a double and
//! decides on them in integer arithmetic.
use vstd::arithmetic::div_mod::*;
use vstd::arithmetic::mul::*;
use vstd::arithmetic::power2::*;
use vstd::prelude::*;

verus! {

/// Two to the power fifty-two: the weight of the lowest exponent bit.
pub const FRACTIONS: u64 = 0x10_0000_0000_0000;

/// Two to the power sixty-three: the sign bit.
pub const SIGN: u64 = 0x8000_0000_0000_0000;

/// A double by its bits, in the layout of IEEE 754.
#[derive(Clone, Copy, Debug, PartialEq, Eq, Structural)]
pub struct Double {
    pub bits: u64,
}

/// The number of smallest positive steps in one.
pub open spec fn unit() -> nat {
    pow2(1074)
}

impl Double {
    pub open spec fn negative_bit(self) -> bool {
        self.bits >= SIGN
    }

    pub open spec fn exponent(self) -> nat {
        (self.bits % SIGN / FRACTIONS) as nat
    }

    pub open spec fn fraction(self) -> nat {
        (self.bits % FRACTIONS) as nat
    }

    /// Neither an infinity nor one of the values that are no number.
    pub open spec fn finite(self) -> bool {
        self.exponent() < 2047
    }

    /// The distance from zero, counted in smallest positive steps.
    pub open spec fn magnitude(self) -> nat {
        if self.exponent() == 0 {
            self.fraction()
        } else {
            (FRACTIONS + self.fraction()) as nat * pow2((self.exponent() - 1) as nat)
        }
    }

    /// Finite and not below zero; a negative zero is not below zero.
    pub open spec fn usable(self) -> bool {
        self.finite() && (self.negative_bit() ==> self.magnitude() == 0)
    }

    /// The numeric order of two readings that are usable.
    pub open spec fn below(self, other: Double) -> bool {
        self.magnitude() < other.magnitude()
    }

    /// The value of a usable reading, where it is an integer that fits a counter.
    pub open spec fn whole(self) -> Option<u64> {
        if self.magnitude() % unit() == 0 && self.magnitude() / unit() <= u64::MAX {
            Some((self.magnitude() / unit()) as u64)
        } else {
            None
        }
    }

    /// The bits below the sign bit.
    pub open spec fn unsigned_bits(self) -> nat {
        (self.bits % SIGN) as nat
    }

    proof fn lemma_parts(self)
        ensures
            self.fraction() < FRACTIONS,
            self.exponent() < 2048,
            self.unsigned_bits() == self.exponent() * FRACTIONS + self.fraction(),
    {
        let low = self.bits % SIGN;
        assert(low % FRACTIONS == self.bits % FRACTIONS);
    }

    /// Readings that are usable order as their bits below the sign do.
    pub proof fn lemma_order(self, other: Double)
        requires
            self.finite(),
            other.finite(),
        ensures
            self.unsigned_bits() < other.unsigned_bits() <==> self.below(other),
            self.unsigned_bits() == other.unsigned_bits() <==> self.magnitude()
                == other.magnitude(),
    {
        self.lemma_parts();
        other.lemma_parts();
        if self.unsigned_bits() < other.unsigned_bits() {
            self.lemma_less(other);
        } else if other.unsigned_bits() < self.unsigned_bits() {
            other.lemma_less(self);
        } else {
            assert(self.exponent() == other.exponent()) by {
                assert(self.fraction() == other.fraction()) by {
                    assert(self.unsigned_bits() % FRACTIONS as nat == self.fraction());
                    assert(other.unsigned_bits() % FRACTIONS as nat == other.fraction());
                }
            }
        }
    }

    proof fn lemma_less(self, other: Double)
        requires
            self.unsigned_bits() < other.unsigned_bits(),
        ensures
            self.magnitude() < other.magnitude(),
    {
        self.lemma_parts();
        other.lemma_parts();
        let (a, b) = (self.exponent(), other.exponent());
        let (f, g) = (self.fraction(), other.fraction());
        lemma2_to64();
        if a == b {
            assert(f < g);
            if a > 0 {
                lemma_pow2_pos((a - 1) as nat);
                lemma_mul_strict_inequality(
                    (FRACTIONS + f) as int,
                    (FRACTIONS + g) as int,
                    pow2((a - 1) as nat) as int,
                );
            }
        } else {
            assert(a < b);
            let p = pow2((b - 1) as nat);
            lemma_pow2_pos((b - 1) as nat);
            assert(other.magnitude() >= FRACTIONS * p) by {
                lemma_mul_inequality(FRACTIONS as int, (FRACTIONS + g) as int, p as int);
            }
            if a == 0 {
                assert(FRACTIONS * p >= FRACTIONS) by (nonlinear_arith)
                    requires
                        p >= 1,
                ;
            } else {
                let q = pow2((a - 1) as nat);
                lemma_pow2_pos((a - 1) as nat);
                lemma_pow2_unfold(a);
                if a < b - 1 {
                    lemma_pow2_strictly_increases(a, (b - 1) as nat);
                }
                assert(2 * q <= p);
                assert((FRACTIONS + f) * q < FRACTIONS * p) by (nonlinear_arith)
                    requires
                        f < FRACTIONS,
                        2 * q <= p,
                        q >= 1,
                ;
            }
        }
    }

    /// Whether the reading is a finite number that is not below zero.
    pub fn is_usable(&self) -> (r: bool)
        ensures
            r == self.usable(),
    {
        let low = self.bits % SIGN;
        proof {
            self.lemma_parts();
            let zero = Double { bits: 0 };
            zero.lemma_parts();
            if self.exponent() < 2047 {
                self.lemma_order(zero);
            }
        }
        low / FRACTIONS < 2047 && (self.bits < SIGN || low == 0)
    }

    /// Whether this reading is the smaller one.
    pub fn is_below(&self, other: &Double) -> (r: bool)
        requires
            self.usable(),
            other.usable(),
        ensures
            r == self.below(*other),
    {
        proof {
            self.lemma_order(*other);
        }
        self.bits % SIGN < other.bits % SIGN
    }

    /// A product of the significand splits at the unit as the significand does.
    proof fn lemma_split(m: nat, p: nat, q: nat)
        requires
            p > 0,
            q > 0,
        ensures
            (m * q) / (p * q) == m / p,
            (m * q) % (p * q) == (m % p) * q,
            p * q > 0,
    {
        let d = m / p;
        let r = m % p;
        lemma_fundamental_div_mod(m as int, p as int);
        assert(m * q == d * (p * q) + r * q) by (nonlinear_arith)
            requires
                m == p * d + r,
        ;
        assert(0 <= r * q < p * q) by (nonlinear_arith)
            requires
                0 <= r < p,
                q > 0,
        ;
        lemma_fundamental_div_mod_converse_div(
            (m * q) as int,
            (p * q) as int,
            d as int,
            (r * q) as int,
        );
        lemma_fundamental_div_mod_converse_mod(
            (m * q) as int,
            (p * q) as int,
            d as int,
            (r * q) as int,
        );
    }

    /// The value as a counter, where it is an integer that fits one.
    pub fn to_whole(&self) -> (r: Option<u64>)
        requires
            self.usable(),
        ensures
            r == self.whole(),
    {
        let low = self.bits % SIGN;
        let exponent = low / FRACTIONS;
        let fraction = self.bits % FRACTIONS;
        proof {
            self.lemma_parts();
            lemma2_to64();
            lemma2_to64_rest();
            lemma_pow2_pos(1074);
        }
        if exponent == 0 {
            proof {
                lemma_pow2_strictly_increases(52, 1074);
                lemma_small_mod(fraction as nat, unit());
                lemma_basic_div(fraction as int, unit() as int);
            }
            return if fraction == 0 {
                Some(0)
            } else {
                None
            };
        }
        let significand = FRACTIONS + fraction;
        if exponent >= 1075 {
            let shift = exponent - 1075;
            proof {
                lemma_pow2_pos(shift as nat);
                lemma_pow2_adds(shift as nat, 1074);
                let product = (significand * pow2(shift as nat)) as nat;
                assert(self.magnitude() == product * unit()) by (nonlinear_arith)
                    requires
                        self.magnitude() == significand * pow2((shift + 1074) as nat),
                        pow2((shift + 1074) as nat) == pow2(shift as nat) * pow2(1074),
                        unit() == pow2(1074),
                        product == significand * pow2(shift as nat),
                ;
                Self::lemma_split(product, 1, unit());
            }
            if shift >= 12 {
                proof {
                    if shift > 12 {
                        lemma_pow2_strictly_increases(12, shift as nat);
                    }
                    assert(significand * pow2(shift as nat) >= FRACTIONS * 4096) by (nonlinear_arith)
                        requires
                            significand >= FRACTIONS,
                            pow2(shift as nat) >= 4096,
                    ;
                }
                return None;
            }
            let factor = power(shift);
            proof {
                if shift < 11 {
                    lemma_pow2_strictly_increases(shift as nat, 11);
                }
                assert(significand * factor <= 0x1f_ffff_ffff_ffff * 2048) by (nonlinear_arith)
                    requires
                        significand <= 0x1f_ffff_ffff_ffff,
                        factor <= 2048,
                ;
            }
            return Some(significand * factor);
        }
        let places = 1075 - exponent;
        proof {
            lemma_pow2_pos(places as nat);
            lemma_pow2_pos((exponent - 1) as nat);
            lemma_pow2_adds(places as nat, (exponent - 1) as nat);
            Self::lemma_split(
                significand as nat,
                pow2(places as nat),
                pow2((exponent - 1) as nat),
            );
        }
        let ghost rest = significand as nat % pow2(places as nat);
        assert(rest * pow2((exponent - 1) as nat) == 0 <==> rest == 0) by (nonlinear_arith)
            requires
                pow2((exponent - 1) as nat) > 0,
        ;
        if places > 52 {
            proof {
                if places > 53 {
                    lemma_pow2_strictly_increases(53, places as nat);
                }
                lemma_small_mod(significand as nat, pow2(places as nat));
            }
            return None;
        }
        let divisor = power(places);
        if significand % divisor == 0 {
            Some(significand / divisor)
        } else {
            None
        }
    }
}

/// Two to a small power.
fn power(n: u64) -> (r: u64)
    requires
        n <= 52,
    ensures
        r == pow2(n as nat),
{
    let mut r: u64 = 1;
    let mut i: u64 = 0;
    proof {
        lemma2_to64();
    }
    while i < n
        invariant
            i <= n <= 52,
            r == pow2(i as nat),
        decreases n - i,
    {
        proof {
            lemma2_to64();
            lemma_pow2_unfold((i + 1) as nat);
            lemma_pow2_strictly_increases(i as nat, 53);
            lemma2_to64_rest();
        }
        r = r * 2;
        i += 1;
    }
    r
}

/// The bits of the finite double that `str::parse` reads from a text, if it reads
/// one.
pub uninterp spec fn parsed_bits(text: Seq<char>) -> Option<u64>;

/// `str::parse` reads a double from a text. `serde_json::Number::from_f64` takes it
/// if it is finite, and `as_f64` gives it back unchanged. What comes out depends on
/// the text alone; which number a text stands for is left to `str::parse`.
#[verifier::external_body]
pub(crate) fn parse_bits(text: &str) -> (r: Option<u64>)
    ensures
        r == parsed_bits(text@),
{
    text.parse().ok().and_then(serde_json::Number::from_f64).and_then(|n| n.as_f64()).map(
        |n| n.to_bits(),
    )
}

} // verus!
