//! Exact averages of integer readings, and their comparisons.

use vstd::prelude::*;

verus! {

/// A rational number `num / den`: the mathematical value of an average.
pub struct Fraction {
    pub num: int,
    pub den: int,
}

impl Fraction {
    /// The value lies within the range of `i32` readings and the denominator
    /// is positive: what holds of the mean of any non-empty run of readings.
    pub open spec fn in_range(self) -> bool {
        &&& self.den >= 1
        &&& i32::MIN * self.den <= self.num <= i32::MAX * self.den
    }

    /// `num / den > limit`, for a positive denominator.
    pub open spec fn exceeds(self, limit: int) -> bool {
        self.num > limit * self.den
    }

    /// `num / den > limit / 2`, for a positive denominator.
    pub open spec fn exceeds_half(self, limit: int) -> bool {
        2 * self.num > limit * self.den
    }

    /// `self > other` as rationals, for positive denominators.
    pub open spec fn above(self, other: Fraction) -> bool {
        self.num * other.den > other.num * self.den
    }

    /// `num / den == value`, for a positive denominator.
    pub open spec fn equals(self, value: int) -> bool {
        self.num == value * self.den
    }
}

/// The average of a window of `i32` readings, held as the sum of the readings
/// and their number.
#[derive(Clone, Copy, Debug)]
pub struct Average {
    total: i128,
    count: usize,
}

impl View for Average {
    type V = Fraction;

    closed spec fn view(&self) -> Fraction {
        Fraction { num: self.total as int, den: self.count as int }
    }
}

/// The values of a run of averages, in order.
pub open spec fn views(averages: Seq<Average>) -> Seq<Fraction> {
    Seq::new(averages.len(), |i: int| averages[i]@)
}

/// Two fractions with positive denominators compare as their integer parts
/// do, and as their remainders do where the integer parts agree.
proof fn lemma_order_by_parts(qa: int, ra: int, na: int, qb: int, rb: int, nb: int)
    requires
        0 <= ra < na,
        0 <= rb < nb,
    ensures
        ((qa * na + ra) * nb > (qb * nb + rb) * na) <==> (qa > qb || (qa == qb && ra * nb > rb
            * na)),
{
    let n = na * nb;
    assert((qa * na + ra) * nb == qa * n + ra * nb) by (nonlinear_arith)
        requires
            n == na * nb,
    ;
    assert((qb * nb + rb) * na == qb * n + rb * na) by (nonlinear_arith)
        requires
            n == na * nb,
    ;
    assert(0 <= ra * nb <= n - nb) by (nonlinear_arith)
        requires
            0 <= ra < na,
            0 < nb,
            n == na * nb,
    ;
    assert(0 <= rb * na <= n - na) by (nonlinear_arith)
        requires
            0 <= rb < nb,
            0 < na,
            n == na * nb,
    ;
    if qa > qb {
        assert(qa * n >= qb * n + n) by (nonlinear_arith)
            requires
                qa >= qb + 1,
                n > 0,
        ;
    } else if qa < qb {
        assert(qb * n >= qa * n + n) by (nonlinear_arith)
            requires
                qb >= qa + 1,
                n > 0,
        ;
    }
}

impl Average {
    #[verifier::type_invariant]
    spec fn inv(self) -> bool {
        self@.in_range()
    }

    /// The average `total / count`; `None` where `count` is zero or the value
    /// would lie outside the range of `i32`.
    pub fn new(total: i128, count: usize) -> (r: Option<Average>)
        ensures
            r is Some <==> (Fraction { num: total as int, den: count as int }).in_range(),
            r matches Some(a) ==> a@ == (Fraction { num: total as int, den: count as int }),
    {
        if count == 0 {
            return None;
        }
        let n: i128 = count as i128;
        if total < -2147483648i128 * n || total > 2147483647i128 * n {
            return None;
        }
        Some(Average { total, count })
    }

    /// The average of a window whose readings sum to `total`.
    pub(crate) fn of_window(total: i128, count: usize) -> (r: Average)
        requires
            (Fraction { num: total as int, den: count as int }).in_range(),
        ensures
            r@ == (Fraction { num: total as int, den: count as int }),
    {
        Average { total, count }
    }

    /// The numerator: the sum of the readings averaged.
    pub fn total(&self) -> (r: i128)
        ensures
            r == self@.num,
    {
        self.total
    }

    /// The denominator: the number of readings averaged, at least one.
    pub fn count(&self) -> (r: usize)
        ensures
            r == self@.den,
            r >= 1,
    {
        proof {
            use_type_invariant(self);
        }
        self.count
    }

    /// Whether the average is strictly greater than `limit`.
    pub fn exceeds(&self, limit: i32) -> (r: bool)
        ensures
            r == self@.exceeds(limit as int),
    {
        proof {
            use_type_invariant(self);
        }
        let n: i128 = self.count as i128;
        assert(-0x8000_0000 * 0x1_0000_0000_0000_0000 <= limit * n <= 0x8000_0000
            * 0x1_0000_0000_0000_0000) by (nonlinear_arith)
            requires
                -0x8000_0000 <= limit < 0x8000_0000,
                0 <= n < 0x1_0000_0000_0000_0000,
        ;
        self.total > (limit as i128) * n
    }

    /// Whether the average is strictly greater than half of `limit`.
    pub fn exceeds_half(&self, limit: i32) -> (r: bool)
        ensures
            r == self@.exceeds_half(limit as int),
    {
        proof {
            use_type_invariant(self);
        }
        let n: i128 = self.count as i128;
        assert(-0x8000_0000 * 0x1_0000_0000_0000_0000 <= limit * n <= 0x8000_0000
            * 0x1_0000_0000_0000_0000) by (nonlinear_arith)
            requires
                -0x8000_0000 <= limit < 0x8000_0000,
                0 <= n < 0x1_0000_0000_0000_0000,
        ;
        2 * self.total > (limit as i128) * n
    }

    /// Whether the average is strictly greater than `other`.
    pub fn is_above(&self, other: &Average) -> (r: bool)
        ensures
            r == self@.above(other@),
    {
        proof {
            use_type_invariant(self);
            use_type_invariant(other);
        }
        let na: u128 = self.count as u128;
        let nb: u128 = other.count as u128;
        // Both sums are shifted by the lowest reading times the count, which
        // moves both averages by the same amount and makes them non-negative.
        let a: u128 = (self.total + 2147483648i128 * (self.count as i128)) as u128;
        let b: u128 = (other.total + 2147483648i128 * (other.count as i128)) as u128;
        let qa: u128 = a / na;
        let ra: u128 = a % na;
        let qb: u128 = b / nb;
        let rb: u128 = b % nb;
        proof {
            vstd::arithmetic::div_mod::lemma_fundamental_div_mod(a as int, na as int);
            vstd::arithmetic::div_mod::lemma_fundamental_div_mod(b as int, nb as int);
            vstd::arithmetic::mul::lemma_mul_is_commutative(na as int, qa as int);
            vstd::arithmetic::mul::lemma_mul_is_commutative(nb as int, qb as int);
            lemma_order_by_parts(
                qa as int,
                ra as int,
                na as int,
                qb as int,
                rb as int,
                nb as int,
            );
            assert(a * nb > b * na <==> self.total * nb > other.total * na) by (nonlinear_arith)
                requires
                    a == self.total + 2147483648 * na,
                    b == other.total + 2147483648 * nb,
            ;
            assert(ra * nb < 0x1_0000_0000_0000_0000 * 0x1_0000_0000_0000_0000)
                by (nonlinear_arith)
                requires
                    0 <= ra < 0x1_0000_0000_0000_0000,
                    0 <= nb < 0x1_0000_0000_0000_0000,
            ;
            assert(rb * na < 0x1_0000_0000_0000_0000 * 0x1_0000_0000_0000_0000)
                by (nonlinear_arith)
                requires
                    0 <= rb < 0x1_0000_0000_0000_0000,
                    0 <= na < 0x1_0000_0000_0000_0000,
            ;
        }
        qa > qb || (qa == qb && ra * nb > rb * na)
    }
}

} // verus!
