//! Exact decimal numbers, as the exchange writes them.

use vstd::prelude::*;
use vstd::arithmetic::power::pow;
use vstd::arithmetic::power::lemma_pow_adds;
use vstd::arithmetic::power::lemma_pow_positive;

verus! {

/// How two numbers stand to each other.
#[derive(Clone, Copy, Debug, PartialEq, Eq, Structural)]
pub enum Relation {
    Less,
    Same,
    Greater,
}

impl Relation {
    /// The relation seen from the other side.
    pub open spec fn flipped(self) -> Relation {
        match self {
            Relation::Less => Relation::Greater,
            Relation::Same => Relation::Same,
            Relation::Greater => Relation::Less,
        }
    }

    /// The relation of `a` to `b` on the integers.
    pub open spec fn of(a: int, b: int) -> Relation {
        if a < b {
            Relation::Less
        } else if a == b {
            Relation::Same
        } else {
            Relation::Greater
        }
    }

    /// The relation seen from the other side.
    pub fn flip(self) -> (r: Relation)
        ensures
            r == self.flipped(),
    {
        match self {
            Relation::Less => Relation::Greater,
            Relation::Same => Relation::Same,
            Relation::Greater => Relation::Less,
        }
    }
}

/// A decimal number: `mantissa * 10^scale`, negated when `negative` is set.
///
/// Every combination of fields is a number; several combinations may be the
/// same number (`15 * 10^3` and `15000 * 10^0`), and zero has a sign that does
/// not count.
#[derive(Clone, Copy, Debug)]
pub struct Decimal {
    pub negative: bool,
    pub mantissa: u128,
    pub scale: i32,
}

/// The exponent by which every decimal is scaled to make its value an integer.
pub open spec fn value_shift() -> int {
    0x8000_0000
}

impl Decimal {
    /// The number, scaled by `10^value_shift()`: an integer that orders decimals
    /// as the numbers themselves are ordered.
    pub open spec fn value(self) -> int {
        let magnitude = self.mantissa * pow(10, (self.scale + value_shift()) as nat);
        if self.negative {
            -magnitude
        } else {
            magnitude
        }
    }

    /// Whether the number is greater than zero.
    pub open spec fn positive(self) -> bool {
        self.value() > 0
    }

    /// Zero, written `0 * 10^0`.
    pub open spec fn spec_zero() -> Decimal {
        Decimal { negative: false, mantissa: 0, scale: 0 }
    }

    /// The whole number `n`.
    pub open spec fn spec_from_u64(n: u64) -> Decimal {
        Decimal { negative: false, mantissa: n as u128, scale: 0 }
    }

    /// Zero.
    pub fn zero() -> (d: Decimal)
        ensures
            d == Decimal::spec_zero(),
            d.value() == 0,
    {
        Decimal { negative: false, mantissa: 0, scale: 0 }
    }

    /// The whole number `n`.
    pub fn from_u64(n: u64) -> (d: Decimal)
        ensures
            d == Decimal::spec_from_u64(n),
    {
        Decimal { negative: false, mantissa: n as u128, scale: 0 }
    }

    /// The number `mantissa * 10^scale`, negated when `negative` is set.
    pub fn new(negative: bool, mantissa: u128, scale: i32) -> (d: Decimal)
        ensures
            d == (Decimal { negative, mantissa, scale }),
    {
        Decimal { negative, mantissa, scale }
    }

    /// Whether the number is greater than zero.
    pub fn is_positive(&self) -> (b: bool)
        ensures
            b == self.positive(),
    {
        proof {
            lemma_pow_positive(10, (self.scale + value_shift()) as nat);
            lemma_product_sign(
                self.mantissa as int,
                pow(10, (self.scale + value_shift()) as nat),
            );
        }
        !self.negative && self.mantissa > 0
    }

    /// How `self` stands to `other` as numbers.
    pub fn relation_to(&self, other: &Decimal) -> (r: Relation)
        ensures
            r == Relation::of(self.value(), other.value()),
    {
        proof {
            lemma_pow_positive(10, (self.scale + value_shift()) as nat);
            lemma_pow_positive(10, (other.scale + value_shift()) as nat);
            lemma_product_sign(
                self.mantissa as int,
                pow(10, (self.scale + value_shift()) as nat),
            );
            lemma_product_sign(
                other.mantissa as int,
                pow(10, (other.scale + value_shift()) as nat),
            );
        }
        if self.mantissa == 0 {
            if other.mantissa == 0 {
                Relation::Same
            } else if other.negative {
                Relation::Greater
            } else {
                Relation::Less
            }
        } else if other.mantissa == 0 {
            if self.negative {
                Relation::Less
            } else {
                Relation::Greater
            }
        } else if self.negative != other.negative {
            if self.negative {
                Relation::Less
            } else {
                Relation::Greater
            }
        } else {
            let magnitudes = relate_magnitudes(
                self.mantissa,
                self.scale,
                other.mantissa,
                other.scale,
            );
            if self.negative {
                magnitudes.flip()
            } else {
                magnitudes
            }
        }
    }

    /// Whether `self` is the smaller number.
    pub fn less_than(&self, other: &Decimal) -> (b: bool)
        ensures
            b == (self.value() < other.value()),
    {
        match self.relation_to(other) {
            Relation::Less => true,
            _ => false,
        }
    }

    /// Whether both are the same number.
    pub fn same_as(&self, other: &Decimal) -> (b: bool)
        ensures
            b == (self.value() == other.value()),
    {
        match self.relation_to(other) {
            Relation::Same => true,
            _ => false,
        }
    }
}

/// The sign of a product with a positive factor is the sign of the other factor.
pub proof fn lemma_product_sign(m: int, p: int)
    requires
        p > 0,
        m >= 0,
    ensures
        m * p >= 0,
        (m * p == 0) <==> (m == 0),
{
    assert(m * p >= 0 && ((m * p == 0) <==> (m == 0))) by (nonlinear_arith)
        requires
            p > 0,
            m >= 0,
    ;
}

/// Multiplying both sides by a positive factor keeps their relation.
pub proof fn lemma_relation_scaled(a: int, b: int, p: int)
    requires
        p > 0,
    ensures
        Relation::of(a * p, b * p) == Relation::of(a, b),
{
    assert((a < b) == (a * p < b * p) && (a == b) == (a * p == b * p)) by (nonlinear_arith)
        requires
            p > 0,
    ;
}

/// How `x * 10^up` stands to `y`, for `x > 0`.
fn relate_scaled(x: u128, up: u64, y: u128) -> (r: Relation)
    requires
        x > 0,
    ensures
        r == Relation::of(x * pow(10, up as nat), y as int),
{
    let mut cur: u128 = x;
    let mut done: u64 = 0;
    proof {
        vstd::arithmetic::power::lemma_pow0(10);
    }
    while done < up
        invariant
            done <= up,
            cur > 0,
            cur == x * pow(10, done as nat),
        decreases up - done,
    {
        proof {
            lemma_pow_adds(10, done as nat, (up - done) as nat);
            lemma_pow_adds(10, 1, (up - done - 1) as nat);
            lemma_pow_positive(10, (up - done - 1) as nat);
            vstd::arithmetic::power::lemma_pow1(10);
            assert(x * pow(10, up as nat) == cur * (10 * pow(10, (up - done - 1) as nat)))
                by (nonlinear_arith)
                requires
                    cur == x * pow(10, done as nat),
                    pow(10, up as nat) == pow(10, done as nat) * pow(10, (up - done) as nat),
                    pow(10, (up - done) as nat) == 10 * pow(10, (up - done - 1) as nat),
            ;
        }
        if cur > u128::MAX / 10 {
            proof {
                let rest = pow(10, (up - done - 1) as nat);
                assert(cur * (10 * rest) >= cur * 10) by (nonlinear_arith)
                    requires
                        rest >= 1,
                        cur > 0,
                ;
            }
            return Relation::Greater;
        }
        proof {
            lemma_pow_adds(10, done as nat, 1);
            assert(cur * 10 == x * pow(10, (done + 1) as nat)) by (nonlinear_arith)
                requires
                    cur == x * pow(10, done as nat),
                    pow(10, (done + 1) as nat) == pow(10, done as nat) * pow(10, 1),
                    pow(10, 1) == 10,
            ;
        }
        cur = cur * 10;
        done = done + 1;
    }
    if cur < y {
        Relation::Less
    } else if cur == y {
        Relation::Same
    } else {
        Relation::Greater
    }
}

/// How `ma * 10^sa` stands to `mb * 10^sb`, for positive mantissas.
fn relate_magnitudes(ma: u128, sa: i32, mb: u128, sb: i32) -> (r: Relation)
    requires
        ma > 0,
        mb > 0,
    ensures
        r == Relation::of(
            ma * pow(10, (sa + value_shift()) as nat),
            mb * pow(10, (sb + value_shift()) as nat),
        ),
{
    if sa >= sb {
        let up: u64 = (sa as i64 - sb as i64) as u64;
        let r = relate_scaled(ma, up, mb);
        proof {
            let base = pow(10, (sb + value_shift()) as nat);
            lemma_pow_adds(10, up as nat, (sb + value_shift()) as nat);
            lemma_pow_positive(10, (sb + value_shift()) as nat);
            lemma_relation_scaled(ma * pow(10, up as nat), mb as int, base);
            assert(ma * pow(10, up as nat) * base == ma * pow(10, (sa + value_shift()) as nat))
                by (nonlinear_arith)
                requires
                    pow(10, (sa + value_shift()) as nat) == pow(10, up as nat) * base,
            ;
        }
        r
    } else {
        let up: u64 = (sb as i64 - sa as i64) as u64;
        let r = relate_scaled(mb, up, ma);
        proof {
            let base = pow(10, (sa + value_shift()) as nat);
            lemma_pow_adds(10, up as nat, (sa + value_shift()) as nat);
            lemma_pow_positive(10, (sa + value_shift()) as nat);
            lemma_relation_scaled(mb * pow(10, up as nat), ma as int, base);
            assert(mb * pow(10, up as nat) * base == mb * pow(10, (sb + value_shift()) as nat))
                by (nonlinear_arith)
                requires
                    pow(10, (sb + value_shift()) as nat) == pow(10, up as nat) * base,
            ;
        }
        r.flip()
    }
}

} // verus!
