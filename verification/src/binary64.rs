//! Binary floating-point arithmetic on positive numbers, in integers.
//!
//! A number is a 53-bit significand and a binary exponent, and every operation
//! gives the representable number nearest to the exact result, the one with an
//! even significand where two are equally near. The exponents that occur here
//! stay far from the ends of the binary64 range.

use vstd::arithmetic::power2::*;
use vstd::prelude::*;

verus! {

/// The number `significand * 2^exponent`.
pub struct Number {
    pub significand: nat,
    pub exponent: int,
}

/// The lowest significand of a normalized number, `2^52`.
pub const LOW: u64 = 0x10_0000_0000_0000;

/// The bound on significands, `2^53`.
pub const HIGH: u64 = 0x20_0000_0000_0000;

impl Number {
    /// Zero, or a number with all 53 bits in use.
    pub open spec fn normal(self) -> bool {
        self.significand == 0 || LOW <= self.significand < HIGH
    }
}

/// `numerator / denominator * 2^exponent` with the quotient, which has 53
/// bits, rounded to an integer: to the nearer one, or the even one of two.
pub open spec fn rounded(numerator: nat, denominator: nat, exponent: int) -> Number {
    let quotient = numerator / denominator;
    let rest = numerator % denominator;
    let up = 2 * rest > denominator || (2 * rest == denominator && quotient % 2 == 1);
    let significand = if up {
        quotient + 1
    } else {
        quotient
    };
    if significand == HIGH {
        Number { significand: LOW as nat, exponent: exponent + 1 }
    } else {
        Number { significand, exponent }
    }
}

/// The number nearest to a quotient below `2^53`.
pub open spec fn nearest_below(numerator: nat, denominator: nat, exponent: int) -> Number
    decreases 0x20_0000_0000_0000 * denominator - numerator,
    when numerator > 0 && denominator > 0
{
    if numerator < 0x10_0000_0000_0000 * denominator {
        nearest_below(2 * numerator, denominator, exponent - 1)
    } else {
        rounded(numerator, denominator, exponent)
    }
}

/// The number nearest to `numerator / denominator * 2^exponent`.
pub open spec fn nearest(numerator: nat, denominator: nat, exponent: int) -> Number
    decreases numerator - denominator,
    when numerator > 0 && denominator > 0
{
    if numerator >= 0x20_0000_0000_0000 * denominator {
        nearest(numerator, 2 * denominator, exponent + 1)
    } else {
        nearest_below(numerator, denominator, exponent)
    }
}

/// The number nearest to an integer.
pub open spec fn of_integer(value: nat) -> Number {
    if value == 0 {
        Number { significand: 0, exponent: 0 }
    } else {
        nearest(value, 1, 0)
    }
}

/// The number nearest to a quotient.
pub open spec fn quotient(left: Number, right: Number) -> Number {
    if left.significand == 0 {
        Number { significand: 0, exponent: 0 }
    } else {
        nearest(left.significand, right.significand, left.exponent - right.exponent)
    }
}

/// The first number in units of `2^exponent`, where its own exponent is not below.
pub open spec fn scaled(number: Number, exponent: int) -> nat {
    number.significand * pow2((number.exponent - exponent) as nat)
}

/// The lower of two exponents.
pub open spec fn lower_exponent(left: Number, right: Number) -> int {
    if left.exponent <= right.exponent {
        left.exponent
    } else {
        right.exponent
    }
}

/// Whether one number is below another.
pub open spec fn below(left: Number, right: Number) -> bool {
    let exponent = lower_exponent(left, right);
    scaled(left, exponent) < scaled(right, exponent)
}

/// The number nearest to a difference that is not negative.
pub open spec fn difference(left: Number, right: Number) -> Number {
    let exponent = lower_exponent(left, right);
    let exact = scaled(left, exponent) - scaled(right, exponent);
    if exact <= 0 {
        Number { significand: 0, exponent: 0 }
    } else {
        nearest(exact as nat, 1, exponent)
    }
}

/// The number nearest to a multiple.
pub open spec fn multiple(number: Number, factor: nat) -> Number {
    if number.significand == 0 {
        number
    } else {
        nearest(number.significand * factor, 1, number.exponent)
    }
}

/// The nearest integer; the larger one of two.
pub open spec fn to_integer(number: Number) -> nat {
    if number.exponent >= 0 {
        number.significand * pow2(number.exponent as nat)
    } else {
        let unit = pow2((-number.exponent) as nat);
        (2 * number.significand + unit) / (2 * unit)
    }
}

/// A number as computed with.
#[derive(Debug, Clone, Copy, PartialEq, Eq, Structural)]
pub struct Binary64 {
    significand: u64,
    exponent: i32,
}

impl View for Binary64 {
    type V = Number;

    closed spec fn view(&self) -> Number {
        Number { significand: self.significand as nat, exponent: self.exponent as int }
    }
}

impl Binary64 {
    /// A normal number whose exponent lies within a bound.
    pub open spec fn within(self, bound: int) -> bool {
        &&& self@.normal()
        &&& -bound <= self@.exponent <= bound
    }

    fn zero() -> (zero: Self)
        ensures
            zero@ == (Number { significand: 0, exponent: 0 }),
    {
        Binary64 { significand: 0, exponent: 0 }
    }

    /// Whether the number is zero.
    pub fn is_zero(&self) -> (zero: bool)
        ensures
            zero == (self@.significand == 0),
    {
        self.significand == 0
    }

    /// The number nearest to `numerator / denominator * 2^exponent`.
    fn nearest(numerator: u128, denominator: u128, exponent: i32) -> (number: Self)
        requires
            0 < numerator < 0x1_0000_0000_0000_0000_0000_0000_0000,
            0 < denominator <= HIGH,
            -0x1_0000 <= exponent <= 0x1_0000,
        ensures
            number@ == nearest(numerator as nat, denominator as nat, exponent as int),
            number@.normal(),
            number@.significand > 0,
            exponent - 112 <= number@.exponent <= exponent + 61,
    {
        let mut n: u128 = numerator;
        let mut d: u128 = denominator;
        let mut e: i32 = exponent;
        let ghost mut steps: int = 0;
        proof {
            lemma2_to64();
        }
        while n >= 0x20_0000_0000_0000 * d
            invariant
                n == numerator,
                0 < n < 0x1_0000_0000_0000_0000_0000_0000_0000,
                0 < denominator,
                0 < d <= 0x1000_0000_0000_0000,
                e == exponent + steps,
                0 <= steps <= 60,
                d >= pow2(steps as nat),
                -0x1_0000 <= exponent <= 0x1_0000,
                nearest(numerator as nat, denominator as nat, exponent as int) == nearest(
                    n as nat,
                    d as nat,
                    e as int,
                ),
            decreases n - d,
        {
            proof {
                lemma2_to64_rest();
                lemma_pow2_unfold((steps + 1) as nat);
            }
            d = 2 * d;
            e = e + 1;
            proof {
                steps = steps + 1;
            }
        }
        let ghost halfway = e;
        let ghost mut doublings: int = 0;
        while n < 0x10_0000_0000_0000 * d
            invariant
                0 < n,
                n < 0x20_0000_0000_0000 * d,
                0 < d <= 0x1000_0000_0000_0000,
                e == halfway - doublings,
                exponent <= halfway <= exponent + 60,
                numerator > 0,
                denominator > 0,
                0 <= doublings <= 112,
                n >= pow2(doublings as nat),
                -0x1_0000 <= exponent <= 0x1_0000,
                nearest(numerator as nat, denominator as nat, exponent as int) == nearest_below(
                    n as nat,
                    d as nat,
                    e as int,
                ),
            decreases 0x20_0000_0000_0000 * d - n,
        {
            proof {
                lemma2_to64_rest();
                lemma_pow2_unfold((doublings + 1) as nat);
                lemma_pow2_adds(56, 56);
            }
            n = 2 * n;
            e = e - 1;
            proof {
                doublings = doublings + 1;
            }
        }
        let q: u128 = n / d;
        let r: u128 = n % d;
        proof {
            assert(0x10_0000_0000_0000 <= q < 0x20_0000_0000_0000) by (nonlinear_arith)
                requires
                    q == n / d,
                    0 < d,
                    0x10_0000_0000_0000 * d <= n,
                    n < 0x20_0000_0000_0000 * d,
            ;
        }
        let up = 2 * r > d || (2 * r == d && q % 2 == 1);
        let significand: u64 = if up {
            q as u64 + 1
        } else {
            q as u64
        };
        if significand == HIGH {
            Binary64 { significand: LOW, exponent: e + 1 }
        } else {
            Binary64 { significand, exponent: e }
        }
    }
}

proof fn lemma_rounded_scale(numerator: nat, denominator: nat, exponent: int)
    requires
        denominator > 0,
    ensures
        rounded(2 * numerator, 2 * denominator, exponent) == rounded(
            numerator,
            denominator,
            exponent,
        ),
{
    let q = numerator / denominator;
    let r = numerator % denominator;
    vstd::arithmetic::div_mod::lemma_fundamental_div_mod(numerator as int, denominator as int);
    assert(2 * numerator == q * (2 * denominator) + 2 * r) by (nonlinear_arith)
        requires
            numerator == denominator * q + r,
    ;
    vstd::arithmetic::div_mod::lemma_fundamental_div_mod_converse(
        2 * numerator as int,
        2 * denominator as int,
        q as int,
        2 * r as int,
    );
}

proof fn lemma_nearest_below_scale(numerator: nat, denominator: nat, exponent: int)
    requires
        numerator > 0,
        denominator > 0,
    ensures
        nearest_below(2 * numerator, 2 * denominator, exponent) == nearest_below(
            numerator,
            denominator,
            exponent,
        ),
    decreases 0x20_0000_0000_0000 * denominator - numerator,
{
    if numerator < 0x10_0000_0000_0000 * denominator {
        lemma_nearest_below_scale(2 * numerator, denominator, exponent - 1);
    } else {
        lemma_rounded_scale(numerator, denominator, exponent);
    }
}

proof fn lemma_nearest_scale(numerator: nat, denominator: nat, exponent: int)
    requires
        numerator > 0,
        denominator > 0,
    ensures
        nearest(2 * numerator, 2 * denominator, exponent) == nearest(
            numerator,
            denominator,
            exponent,
        ),
    decreases numerator - denominator,
{
    if numerator >= 0x20_0000_0000_0000 * denominator {
        lemma_nearest_scale(numerator, 2 * denominator, exponent + 1);
    } else {
        lemma_nearest_below_scale(numerator, denominator, exponent);
    }
}

/// Halving a quotient and doubling the unit gives the same number.
proof fn lemma_nearest_shift(numerator: nat, denominator: nat, exponent: int)
    requires
        numerator > 0,
        denominator > 0,
    ensures
        nearest(numerator, 2 * denominator, exponent + 1) == nearest(
            numerator,
            denominator,
            exponent,
        ),
{
    if numerator < 0x20_0000_0000_0000 * denominator {
        lemma_nearest_below_scale(numerator, denominator, exponent);
        assert(nearest(numerator, 2 * denominator, exponent + 1) == nearest_below(
            numerator,
            2 * denominator,
            exponent + 1,
        ));
    }
}

proof fn lemma_nearest_shifts(numerator: nat, exponent: int, shift: nat)
    requires
        numerator > 0,
    ensures
        nearest(numerator, pow2(shift), exponent + shift) == nearest(numerator, 1, exponent),
    decreases shift,
{
    lemma2_to64();
    if shift > 0 {
        lemma_nearest_shifts(numerator, exponent, (shift - 1) as nat);
        lemma_pow2_unfold(shift);
        lemma_pow2_pos((shift - 1) as nat);
        lemma_nearest_shift(numerator, pow2((shift - 1) as nat), exponent + shift - 1);
    }
}

/// A normal number is the nearest one to itself, in any unit.
proof fn lemma_nearest_exact(number: Number, shift: nat)
    requires
        number.normal(),
        number.significand > 0,
    ensures
        nearest(number.significand * pow2(shift), 1, number.exponent - shift) == number,
{
    let m = number.significand;
    lemma_pow2_pos(shift);
    assert(m * pow2(shift) > 0) by (nonlinear_arith)
        requires
            m > 0,
            pow2(shift) > 0,
    ;
    lemma_nearest_shifts(m * pow2(shift), number.exponent - shift, shift);
    let n = m * pow2(shift);
    let d = pow2(shift);
    assert(n < 0x20_0000_0000_0000 * d && n >= 0x10_0000_0000_0000 * d) by (nonlinear_arith)
        requires
            n == m * d,
            d > 0,
            0x10_0000_0000_0000 <= m < 0x20_0000_0000_0000,
    ;
    vstd::arithmetic::div_mod::lemma_fundamental_div_mod_converse(
        n as int,
        d as int,
        m as int,
        0,
    );
}

/// A number in its own unit is its significand.
proof fn lemma_own_unit(number: Number)
    ensures
        scaled(number, number.exponent) == number.significand,
{
    lemma2_to64();
    assert(number.significand * pow2(0) == number.significand) by (nonlinear_arith)
        requires
            pow2(0) == 1,
    ;
}

/// A difference from a far smaller number is the number itself.
proof fn lemma_far_difference(left: Number, right: Number)
    requires
        left.normal(),
        right.normal(),
        left.significand > 0,
        right.significand > 0,
        left.exponent - right.exponent >= 56,
    ensures
        difference(left, right) == left,
{
    let shift = (left.exponent - right.exponent) as nat;
    let m = left.significand;
    let b = right.significand;
    let d = pow2(shift);
    lemma2_to64();
    lemma2_to64_rest();
    if shift > 56 {
        lemma_pow2_strictly_increases(56, shift);
    }
    lemma_pow2_unfold(shift);
    let half = pow2((shift - 1) as nat);
    lemma_own_unit(right);
    let n = (m * d - b) as nat;
    assert(m * d - b > 0) by (nonlinear_arith)
        requires
            m >= 0x10_0000_0000_0000,
            b < 0x20_0000_0000_0000,
            d >= 0x100_0000_0000_0000,
    ;
    assert(difference(left, right) == nearest(n, 1, right.exponent));
    if m > 0x10_0000_0000_0000 {
        lemma_nearest_shifts(n, right.exponent, shift);
        assert(n < 0x20_0000_0000_0000 * d && n >= 0x10_0000_0000_0000 * d) by (nonlinear_arith)
            requires
                n == m * d - b,
                0 < b < d,
                0x10_0000_0000_0000 < m < 0x20_0000_0000_0000,
        ;
        assert(n == d * (m - 1) + (d - b)) by (nonlinear_arith)
            requires
                n == m * d - b,
        ;
        vstd::arithmetic::div_mod::lemma_fundamental_div_mod_converse(
            n as int,
            d as int,
            m - 1,
            d - b,
        );
    } else {
        lemma_nearest_shifts(n, right.exponent, (shift - 1) as nat);
        assert(n < 0x20_0000_0000_0000 * half && n >= 0x10_0000_0000_0000 * half)
            by (nonlinear_arith)
            requires
                n == m * d - b,
                d == 2 * half,
                0 < b < half,
                m == 0x10_0000_0000_0000,
        ;
        let q = 0x20_0000_0000_0000 - 1;
        assert(n == half * q + (half - b)) by (nonlinear_arith)
            requires
                n == m * d - b,
                d == 2 * half,
                m == 0x10_0000_0000_0000,
                q == 0x20_0000_0000_0000 - 1,
        ;
        vstd::arithmetic::div_mod::lemma_fundamental_div_mod_converse(
            n as int,
            half as int,
            q,
            half - b,
        );
    }
}

impl Binary64 {
    /// The number nearest to an integer.
    pub fn of_integer(value: u64) -> (number: Self)
        ensures
            number@ == of_integer(value as nat),
            number@.normal(),
            -52 <= number@.exponent <= 12,
            number@.significand == 0 <==> value == 0,
    {
        if value == 0 {
            Self::zero()
        } else {
            proof {
                lemma2_to64();
                lemma2_to64_rest();
                assert(value * pow2(52) >= 0x10_0000_0000_0000) by (nonlinear_arith)
                    requires
                        value >= 1,
                        pow2(52) == 0x10_0000_0000_0000,
                ;
                lemma_nearest_exponent(value as nat, 1, 0, 52, 0, 11);
            }
            Self::nearest(value as u128, 1, 0)
        }
    }

    /// The number nearest to a quotient.
    pub fn quotient(self, right: Self) -> (number: Self)
        requires
            self.within(0x2000),
            right.within(0x2000),
            right@.significand > 0,
        ensures
            number@ == quotient(self@, right@),
            number@.normal(),
            number@.significand == 0 <==> self@.significand == 0,
            number@.significand > 0 ==> self@.exponent - right@.exponent - 53 <= number@.exponent
                <= self@.exponent - right@.exponent - 51,
            number@.significand == 0 ==> number@.exponent == 0,
    {
        if self.significand == 0 {
            Self::zero()
        } else {
            proof {
                lemma2_to64();
                lemma2_to64_rest();
                lemma_nearest_exponent(
                    self@.significand,
                    right@.significand,
                    self@.exponent - right@.exponent,
                    53,
                    52,
                    0,
                );
            }
            Self::nearest(
                self.significand as u128,
                right.significand as u128,
                self.exponent - right.exponent,
            )
        }
    }

    /// `2^shift` for a small shift.
    fn power(shift: u32) -> (power: u128)
        requires
            shift <= 80,
        ensures
            power == pow2(shift as nat),
            shift <= 60 ==> power <= 0x1000_0000_0000_0000,
            power <= 0x1_0000_0000_0000_0000_0000,
    {
        let mut power: u128 = 1;
        let mut done: u32 = 0;
        proof {
            lemma2_to64();
            lemma2_to64_rest();
            lemma_pow2_adds(60, 20);
            if shift < 60 {
                lemma_pow2_strictly_increases(shift as nat, 60);
            }
        }
        while done < shift
            invariant
                done <= shift <= 80,
                power == pow2(done as nat),
                power <= 0x1_0000_0000_0000_0000_0000,
                pow2(80) == 0x1_0000_0000_0000_0000_0000,
            decreases shift - done,
        {
            proof {
                lemma_pow2_unfold((done + 1) as nat);
                if done + 1 < 80 {
                    lemma_pow2_strictly_increases((done + 1) as nat, 80);
                }
            }
            power = 2 * power;
            done += 1;
        }
        power
    }

    /// The number nearest to the difference, where it is positive; zero otherwise.
    pub fn difference(self, right: Self) -> (number: Self)
        requires
            self.within(0x4000),
            right.within(0x4000),
            self@.significand == 0 ==> self@.exponent == 0,
            right@.significand == 0 ==> right@.exponent == 0,
        ensures
            number@ == difference(self@, right@),
            number@.normal(),
            -0x4000 - 112 <= number@.exponent <= 0x4000 + 61,
            self.within(0x400) && right.within(0x400) ==> -0x600 <= number@.exponent <= 0x600,
    {
        proof {
            lemma2_to64();
            lemma_own_unit(self@);
            lemma_own_unit(right@);
        }
        if self.significand == 0 {
            proof {
                let exponent = lower_exponent(self@, right@);
                lemma_pow2_pos((right@.exponent - exponent) as nat);
                assert(self@.significand * pow2((self@.exponent - exponent) as nat) == 0)
                    by (nonlinear_arith)
                    requires
                        self@.significand == 0,
                ;
            }
            return Self::zero();
        }
        if right.significand == 0 {
            proof {
                let exponent = lower_exponent(self@, right@);
                let shift = (self@.exponent - exponent) as nat;
                lemma_nearest_exact(self@, shift);
                assert(right@.significand * pow2((right@.exponent - exponent) as nat) == 0)
                    by (nonlinear_arith)
                    requires
                        right@.significand == 0,
                ;
                lemma_pow2_pos(shift);
                assert(self@.significand * pow2(shift) > 0) by (nonlinear_arith)
                    requires
                        self@.significand > 0,
                        pow2(shift) > 0,
                ;
            }
            return self;
        }
        if self.exponent < right.exponent {
            proof {
                lemma_lower_exponent_is_below(self@, right@);
            }
            return Self::zero();
        }
        let shift: u32 = (self.exponent - right.exponent) as u32;
        if shift >= 56 {
            proof {
                lemma_far_difference(self@, right@);
            }
            return self;
        }
        let unit = Self::power(shift);
        proof {
            assert(pow2(0) == 1);
            lemma2_to64_rest();
            lemma_pow2_strictly_increases(shift as nat, 56);
            assert(0 < self.significand * unit < 0x1_0000_0000_0000_0000_0000_0000_0000)
                by (nonlinear_arith)
                requires
                    0 < self.significand < 0x20_0000_0000_0000,
                    0 < unit < 0x100_0000_0000_0000,
            ;
        }
        let left: u128 = self.significand as u128 * unit;
        if left <= right.significand as u128 {
            return Self::zero();
        }
        Self::nearest(left - right.significand as u128, 1, right.exponent)
    }

    /// Whether one number is below another.
    pub fn is_below(&self, right: &Self) -> (below: bool)
        requires
            self.within(0x4000),
            right.within(0x4000),
            self@.significand == 0 ==> self@.exponent == 0,
            right@.significand == 0 ==> right@.exponent == 0,
        ensures
            below == self::below(self@, right@),
    {
        proof {
            lemma2_to64();
            lemma_own_unit(self@);
            lemma_own_unit(right@);
        }
        let ghost exponent = lower_exponent(self@, right@);
        let ghost ls = (self@.exponent - exponent) as nat;
        let ghost rs = (right@.exponent - exponent) as nat;
        proof {
            lemma_pow2_pos(ls);
            lemma_pow2_pos(rs);
            assert(self@.significand > 0 ==> self@.significand * pow2(ls) > 0) by (nonlinear_arith)
                requires
                    pow2(ls) > 0,
            ;
            assert(self@.significand == 0 ==> self@.significand * pow2(ls) == 0)
                by (nonlinear_arith);
            assert(right@.significand > 0 ==> right@.significand * pow2(rs) > 0)
                by (nonlinear_arith)
                requires
                    pow2(rs) > 0,
            ;
            assert(right@.significand == 0 ==> right@.significand * pow2(rs) == 0)
                by (nonlinear_arith);
        }
        if right.significand == 0 {
            return false;
        }
        if self.significand == 0 {
            return true;
        }
        if self.exponent < right.exponent {
            proof {
                lemma_lower_exponent_is_below(self@, right@);
            }
            return true;
        }
        if self.exponent > right.exponent {
            proof {
                lemma_lower_exponent_is_below(right@, self@);
            }
            return false;
        }
        assert(pow2(0) == 1);
        self.significand < right.significand
    }

    /// The number nearest to a hundred times a number.
    pub fn hundredfold(self) -> (number: Self)
        requires
            self.within(0x8000),
        ensures
            number@ == multiple(self@, 100),
            number@.normal(),
            self@.exponent <= number@.exponent <= self@.exponent + 8,
    {
        if self.significand == 0 {
            self
        } else {
            proof {
                lemma2_to64();
                lemma_nearest_exponent(self@.significand * 100, 1, self@.exponent, 0, 0, 7);
            }
            Self::nearest(self.significand as u128 * 100, 1, self.exponent)
        }
    }

    /// The nearest integer, the larger one of two, where it is below `2^63`;
    /// `2^63` otherwise.
    pub fn to_integer(self) -> (value: u64)
        requires
            self.within(0x1_0000),
        ensures
            value == (if to_integer(self@) < 0x8000_0000_0000_0000 {
                to_integer(self@)
            } else {
                0x8000_0000_0000_0000
            }),
    {
        proof {
            lemma2_to64();
            lemma2_to64_rest();
        }
        if self.significand == 0 {
            proof {
                if self@.exponent >= 0 {
                    let unit = pow2(self@.exponent as nat);
                    assert(0 * unit == 0) by (nonlinear_arith);
                } else {
                    let unit = pow2((-self@.exponent) as nat);
                    lemma_pow2_pos((-self@.exponent) as nat);
                    vstd::arithmetic::div_mod::lemma_fundamental_div_mod_converse(
                        unit as int,
                        2 * unit as int,
                        0,
                        unit as int,
                    );
                }
            }
            return 0;
        }
        if self.exponent >= 0 {
            if self.exponent >= 11 {
                proof {
                    let unit = pow2(self@.exponent as nat);
                    if self@.exponent > 11 {
                        lemma_pow2_strictly_increases(11, self@.exponent as nat);
                    }
                    assert(self@.significand * unit >= 0x8000_0000_0000_0000)
                        by (nonlinear_arith)
                        requires
                            self@.significand >= 0x10_0000_0000_0000,
                            unit >= 0x800,
                    ;
                }
                return 0x8000_0000_0000_0000;
            }
            let unit = Self::power(self.exponent as u32);
            proof {
                if self@.exponent < 10 {
                    lemma_pow2_strictly_increases(self@.exponent as nat, 10);
                }
                assert(self.significand * unit < 0x8000_0000_0000_0000) by (nonlinear_arith)
                    requires
                        self.significand < 0x20_0000_0000_0000,
                        unit <= 0x400,
                ;
            }
            let value: u128 = self.significand as u128 * unit;
            value as u64
        } else {
            let shift: u32 = (-self.exponent) as u32;
            if shift >= 54 {
                proof {
                    let unit = pow2(shift as nat);
                    if shift > 54 {
                        lemma_pow2_strictly_increases(54, shift as nat);
                    }
                    vstd::arithmetic::div_mod::lemma_fundamental_div_mod_converse(
                        (2 * self@.significand + unit) as int,
                        2 * unit as int,
                        0,
                        (2 * self@.significand + unit) as int,
                    );
                }
                return 0;
            }
            let unit = Self::power(shift);
            let value: u128 = (2 * self.significand as u128 + unit) / (2 * unit);
            proof {
                assert(value <= 2 * self.significand + unit) by (nonlinear_arith)
                    requires
                        value == (2 * self.significand + unit) / (2 * unit as int),
                        unit > 0,
                ;
                lemma_pow2_strictly_increases(shift as nat, 54);
            }
            value as u64
        }
    }
}

/// Of two normal numbers the one with the lower exponent is the lower one.
proof fn lemma_lower_exponent_is_below(left: Number, right: Number)
    requires
        left.normal(),
        right.normal(),
        left.significand > 0,
        right.significand > 0,
        left.exponent < right.exponent,
    ensures
        below(left, right),
        !below(right, left),
        difference(left, right) == (Number { significand: 0, exponent: 0 }),
{
    lemma2_to64();
    lemma_own_unit(left);
    let shift = (right.exponent - left.exponent) as nat;
    lemma_pow2_unfold(shift);
    lemma_pow2_pos((shift - 1) as nat);
    assert(pow2(0) == 1);
    assert(right.significand * pow2(shift) >= 0x20_0000_0000_0000) by (nonlinear_arith)
        requires
            right.significand >= 0x10_0000_0000_0000,
            pow2(shift) >= 2,
    ;
}

/// The percentage by which one number exceeds another, as a whole number.
pub open spec fn percent_above(high: Number, low: Number, base: Number) -> nat {
    to_integer(multiple(quotient(difference(high, low), base), 100))
}

/// The change from one number to another in whole percent of the first, within
/// the range of a signed 64-bit integer.
pub open spec fn percent_change(from: Number, to: Number) -> int {
    if below(to, from) {
        let fall = percent_above(from, to, from);
        if fall < 0x8000_0000_0000_0000 {
            -(fall as int)
        } else {
            -0x8000_0000_0000_0000
        }
    } else {
        let rise = percent_above(to, from, from);
        if rise < 0x8000_0000_0000_0000 {
            rise as int
        } else {
            0x7fff_ffff_ffff_ffff
        }
    }
}

fn percent_above_of(high: Binary64, low: Binary64, base: Binary64) -> (percent: u64)
    requires
        high.within(0x400),
        low.within(0x400),
        base.within(0x400),
        high@.significand == 0 ==> high@.exponent == 0,
        low@.significand == 0 ==> low@.exponent == 0,
        base@.significand > 0,
    ensures
        percent == (if percent_above(high@, low@, base@) < 0x8000_0000_0000_0000 {
            percent_above(high@, low@, base@)
        } else {
            0x8000_0000_0000_0000
        }),
{
    let gap = high.difference(low);
    if gap.is_zero() {
        proof {
            lemma2_to64();
            let zero = Number { significand: 0, exponent: 0 };
            assert(quotient(gap@, base@) == zero);
            assert(pow2(0) == 1);
        }
        return 0;
    }
    gap.quotient(base).hundredfold().to_integer()
}

/// The change from one number to another in whole percent of the first.
pub fn percent_change_of(from: Binary64, to: Binary64) -> (change: i64)
    requires
        from.within(0x400),
        to.within(0x400),
        to@.significand == 0 ==> to@.exponent == 0,
        from@.significand > 0,
    ensures
        change == percent_change(from@, to@),
{
    if to.is_below(&from) {
        let fall = percent_above_of(from, to, from);
        if fall < 0x8000_0000_0000_0000 {
            -(fall as i64)
        } else {
            i64::MIN
        }
    } else {
        let rise = percent_above_of(to, from, from);
        if rise < 0x8000_0000_0000_0000 {
            rise as i64
        } else {
            i64::MAX
        }
    }
}

/// A number in parts of which a whole has `scale`, rounded to an integer: to
/// the nearer one, or the even one of two.
pub open spec fn to_parts(number: Number, scale: nat) -> nat {
    let parts = scale * number.significand;
    if number.exponent >= 0 {
        parts * pow2(number.exponent as nat)
    } else {
        let unit = pow2((-number.exponent) as nat);
        let rest = parts % unit;
        if 2 * rest > unit || (2 * rest == unit && (parts / unit) % 2 == 1) {
            parts / unit + 1
        } else {
            parts / unit
        }
    }
}

impl Binary64 {
    /// The number in parts of which a whole has `scale`.
    pub fn to_parts(self, scale: u64) -> (value: u128)
        requires
            self.within(0x1_0000),
            self@.exponent <= 50,
            scale <= 1_000_000,
        ensures
            value == to_parts(self@, scale as nat),
    {
        proof {
            lemma2_to64();
            lemma2_to64_rest();
            assert(scale * self.significand <= 1_000_000 * 0x20_0000_0000_0000)
                by (nonlinear_arith)
                requires
                    scale <= 1_000_000,
                    self.significand < 0x20_0000_0000_0000,
            ;
        }
        let parts: u128 = scale as u128 * self.significand as u128;
        if self.exponent >= 0 {
            let unit = Self::power(self.exponent as u32);
            proof {
                if self.exponent < 50 {
                    lemma_pow2_strictly_increases(self.exponent as nat, 50);
                }
                assert(parts * unit < 0x1_0000_0000_0000_0000_0000_0000_0000_0000)
                    by (nonlinear_arith)
                    requires
                        parts <= 1_000_000 * 0x20_0000_0000_0000,
                        unit <= 0x4_0000_0000_0000,
                ;
            }
            parts * unit
        } else {
            let shift: u32 = (-self.exponent) as u32;
            if shift >= 80 {
                proof {
                    let unit = pow2(shift as nat);
                    lemma_pow2_adds(60, 20);
                    if shift > 80 {
                        lemma_pow2_strictly_increases(80, shift as nat);
                    }
                    vstd::arithmetic::div_mod::lemma_fundamental_div_mod_converse(
                        parts as int,
                        unit as int,
                        0,
                        parts as int,
                    );
                }
                return 0;
            }
            let unit = Self::power(shift);
            proof {
                lemma_pow2_pos(shift as nat);
            }
            let whole: u128 = parts / unit;
            let rest: u128 = parts % unit;
            proof {
                assert(whole <= parts) by (nonlinear_arith)
                    requires
                        whole == parts as int / unit as int,
                        unit > 0,
                ;
            }
            if 2 * rest > unit || (2 * rest == unit && whole % 2 == 1) {
                whole + 1
            } else {
                whole
            }
        }
    }
}

/// A number does not change against itself.
pub proof fn no_change_against_itself(number: Number)
    ensures
        percent_change(number, number) == 0,
{
    lemma2_to64();
    assert(0 * pow2(0) == 0) by (nonlinear_arith);
}

proof fn lemma_quotient_of_equals(significand: nat)
    requires
        LOW <= significand < HIGH,
    ensures
        nearest(significand, significand, 0) == (Number { significand: LOW as nat, exponent: -52 }),
{
    let m = significand;
    assert(nearest(m, m, 0) == nearest_below(m, m, 0));
    reveal_with_fuel(nearest_below, 54);
    let n = 0x10_0000_0000_0000 * m;
    assert(nearest_below(m, m, 0) == rounded(n, m, -52));
    vstd::arithmetic::div_mod::lemma_fundamental_div_mod_converse(
        n as int,
        m as int,
        0x10_0000_0000_0000,
        0,
    );
}

/// A fall to nothing is a fall of a hundred percent.
pub proof fn falling_to_nothing(number: Number)
    requires
        number.normal(),
        number.significand > 0,
    ensures
        percent_change(number, Number { significand: 0, exponent: 0 }) == -100,
{
    let zero = Number { significand: 0, exponent: 0 };
    let exponent = lower_exponent(number, zero);
    let shift = (number.exponent - exponent) as nat;
    lemma2_to64();
    lemma2_to64_rest();
    lemma_pow2_pos(shift);
    assert(number.significand * pow2(shift) > 0) by (nonlinear_arith)
        requires
            number.significand > 0,
            pow2(shift) > 0,
    ;
    let back = (0 - exponent) as nat;
    assert(0 * pow2(back) == 0) by (nonlinear_arith);
    lemma_nearest_exact(number, shift);
    assert(difference(number, zero) == number);
    lemma_quotient_of_equals(number.significand);
    let one = Number { significand: LOW as nat, exponent: -52 };
    assert(quotient(number, number) == one);
    let n = 0x10_0000_0000_0000nat * 100;
    let hundred = Number { significand: 0x19_0000_0000_0000, exponent: -46 };
    assert(multiple(one, 100) == nearest(n, 1, -52));
    assert(rounded(n, 64, -46) == hundred);
    assert(nearest(n, 1, -52) == hundred) by {
        reveal_with_fuel(nearest, 8);
        reveal_with_fuel(nearest_below, 3);
    }
    assert(pow2(46) == 0x4000_0000_0000);
    vstd::arithmetic::div_mod::lemma_fundamental_div_mod_converse(
        (2 * hundred.significand + 0x4000_0000_0000) as int,
        0x8000_0000_0000,
        100,
        0x4000_0000_0000,
    );
    assert(to_integer(hundred) == 100);
    assert(scaled(zero, exponent) == 0);
    assert(below(zero, number));
}

proof fn lemma_rounded_is_normal(numerator: nat, denominator: nat, exponent: int)
    requires
        denominator > 0,
        0x10_0000_0000_0000 * denominator <= numerator < 0x20_0000_0000_0000 * denominator,
    ensures
        rounded(numerator, denominator, exponent).normal(),
        rounded(numerator, denominator, exponent).significand > 0,
{
    let q = numerator / denominator;
    assert(0x10_0000_0000_0000 <= q < 0x20_0000_0000_0000) by (nonlinear_arith)
        requires
            q == numerator / denominator,
            denominator > 0,
            0x10_0000_0000_0000 * denominator <= numerator,
            numerator < 0x20_0000_0000_0000 * denominator,
    ;
}

proof fn lemma_nearest_below_is_normal(numerator: nat, denominator: nat, exponent: int)
    requires
        0 < numerator < 0x20_0000_0000_0000 * denominator,
        denominator > 0,
    ensures
        nearest_below(numerator, denominator, exponent).normal(),
        nearest_below(numerator, denominator, exponent).significand > 0,
    decreases 0x20_0000_0000_0000 * denominator - numerator,
{
    if numerator < 0x10_0000_0000_0000 * denominator {
        lemma_nearest_below_is_normal(2 * numerator, denominator, exponent - 1);
    } else {
        lemma_rounded_is_normal(numerator, denominator, exponent);
    }
}

/// Rounding gives a normal number.
pub proof fn lemma_nearest_is_normal(numerator: nat, denominator: nat, exponent: int)
    requires
        numerator > 0,
        denominator > 0,
    ensures
        nearest(numerator, denominator, exponent).normal(),
        nearest(numerator, denominator, exponent).significand > 0,
    decreases numerator - denominator,
{
    if numerator >= 0x20_0000_0000_0000 * denominator {
        lemma_nearest_is_normal(numerator, 2 * denominator, exponent + 1);
    } else {
        lemma_nearest_below_is_normal(numerator, denominator, exponent);
    }
}

proof fn lemma_nearest_below_exponent(
    numerator: nat,
    denominator: nat,
    exponent: int,
    lower: nat,
    upper: nat,
)
    requires
        0 < numerator < 0x20_0000_0000_0000 * denominator,
        denominator > 0,
        numerator * pow2(upper) < 0x20_0000_0000_0000 * denominator,
        numerator * pow2(lower) >= 0x10_0000_0000_0000 * denominator,
    ensures
        exponent - lower <= nearest_below(numerator, denominator, exponent).exponent <= exponent
            - upper + 1,
    decreases 0x20_0000_0000_0000 * denominator - numerator,
{
    lemma2_to64();
    if numerator < 0x10_0000_0000_0000 * denominator {
        let next_upper: nat = if upper > 0 {
            (upper - 1) as nat
        } else {
            0
        };
        if upper > 0 {
            lemma_pow2_unfold(upper);
            assert((2 * numerator) * pow2(next_upper) == numerator * pow2(upper))
                by (nonlinear_arith)
                requires
                    pow2(upper) == 2 * pow2(next_upper),
            ;
        } else {
            assert((2 * numerator) * 1 == 2 * numerator);
        }
        assert(lower > 0) by {
            if lower == 0 {
                assert(numerator * 1 == numerator);
            }
        }
        lemma_pow2_unfold(lower);
        let next_lower = (lower - 1) as nat;
        assert((2 * numerator) * pow2(next_lower) == numerator * pow2(lower)) by (nonlinear_arith)
            requires
                pow2(lower) == 2 * pow2(next_lower),
        ;
        lemma_nearest_below_exponent(
            2 * numerator,
            denominator,
            exponent - 1,
            next_lower,
            next_upper,
        );
    } else if upper > 0 {
        lemma_pow2_unfold(upper);
        lemma_pow2_pos((upper - 1) as nat);
        assert(numerator * pow2(upper) >= 2 * numerator) by (nonlinear_arith)
            requires
                pow2(upper) >= 2,
        ;
    }
}

/// How far rounding moves the exponent, where the quotient lies between
/// `2^(52 - lower)` and `2^(53 + above - upper)`.
proof fn lemma_nearest_exponent(
    numerator: nat,
    denominator: nat,
    exponent: int,
    lower: nat,
    upper: nat,
    above: nat,
)
    requires
        numerator > 0,
        denominator > 0,
        above > 0 ==> upper == 0,
        numerator * pow2(upper) < 0x20_0000_0000_0000 * denominator * pow2(above),
        numerator * pow2(lower) >= 0x10_0000_0000_0000 * denominator,
    ensures
        exponent - lower <= nearest(numerator, denominator, exponent).exponent <= exponent + above
            - upper + 1,
    decreases numerator - denominator,
{
    lemma2_to64();
    lemma_pow2_pos(upper);
    assert(numerator <= numerator * pow2(upper)) by (nonlinear_arith)
        requires
            pow2(upper) >= 1,
    ;
    if numerator >= 0x20_0000_0000_0000 * denominator {
        assert(above > 0) by {
            if above == 0 {
                assert(0x20_0000_0000_0000 * denominator * 1 == 0x20_0000_0000_0000 * denominator);
            }
        }
        lemma_pow2_unfold(above);
        let next = (above - 1) as nat;
        assert(0x20_0000_0000_0000 * (2 * denominator) * pow2(next) == 0x20_0000_0000_0000
            * denominator * pow2(above)) by (nonlinear_arith)
            requires
                pow2(above) == 2 * pow2(next),
        ;
        assert(numerator * pow2(0) == numerator);
        lemma_nearest_exponent(numerator, 2 * denominator, exponent + 1, 0, 0, next);
    } else {
        let kept: nat = if above > 0 {
            0
        } else {
            upper
        };
        if above > 0 {
            assert(numerator * pow2(0) == numerator);
        } else {
            assert(0x20_0000_0000_0000 * denominator * 1 == 0x20_0000_0000_0000 * denominator);
        }
        lemma_nearest_below_exponent(numerator, denominator, exponent, lower, kept);
    }
}

/// The number of a positive integer is normal and positive.
pub proof fn lemma_of_integer(value: nat)
    requires
        value > 0,
    ensures
        of_integer(value).normal(),
        of_integer(value).significand > 0,
{
    lemma_nearest_is_normal(value, 1, 0);
}

/// The quotient of positive numbers is normal and positive.
pub proof fn lemma_quotient_is_normal(left: Number, right: Number)
    requires
        left.significand > 0,
        right.significand > 0,
    ensures
        quotient(left, right).normal(),
        quotient(left, right).significand > 0,
{
    lemma_nearest_is_normal(
        left.significand,
        right.significand,
        left.exponent - right.exponent,
    );
}

/// Rounding moves the exponent down by no more than the quotient needs.
proof fn lemma_nearest_below_at_least(numerator: nat, denominator: nat, exponent: int, lower: nat)
    requires
        numerator > 0,
        denominator > 0,
        numerator * pow2(lower) >= 0x10_0000_0000_0000 * denominator,
    ensures
        nearest_below(numerator, denominator, exponent).exponent >= exponent - lower,
    decreases 0x20_0000_0000_0000 * denominator - numerator,
{
    lemma2_to64();
    if numerator < 0x10_0000_0000_0000 * denominator {
        if lower == 0 {
            assert(numerator * pow2(0) == numerator);
        }
        lemma_pow2_unfold(lower);
        let rest = (lower - 1) as nat;
        assert((2 * numerator) * pow2(rest) == numerator * pow2(lower)) by (nonlinear_arith)
            requires
                pow2(lower) == 2 * pow2(rest),
        ;
        lemma_nearest_below_at_least(2 * numerator, denominator, exponent - 1, rest);
    }
}

proof fn lemma_nearest_at_least(numerator: nat, denominator: nat, exponent: int, lower: nat)
    requires
        numerator > 0,
        denominator > 0,
        numerator * pow2(lower) >= 0x10_0000_0000_0000 * denominator,
    ensures
        nearest(numerator, denominator, exponent).exponent >= exponent - lower,
    decreases numerator - denominator,
{
    if numerator >= 0x20_0000_0000_0000 * denominator {
        lemma_pow2_unfold(lower + 1);
        assert(numerator * pow2(lower + 1) >= 0x10_0000_0000_0000 * (2 * denominator))
            by (nonlinear_arith)
            requires
                numerator * pow2(lower) >= 0x10_0000_0000_0000 * denominator,
                pow2(lower + 1) == 2 * pow2(lower),
        ;
        lemma_nearest_at_least(numerator, 2 * denominator, exponent + 1, lower + 1);
    } else {
        lemma_nearest_below_at_least(numerator, denominator, exponent, lower);
    }
}

/// Whether a value differs from another by no more than one part in `parts` of
/// the latter.
pub open spec fn close(value: int, exact: int, parts: int) -> bool {
    &&& parts * (value - exact) <= exact
    &&& parts * (exact - value) <= exact
}

proof fn lemma_rounded_error(numerator: nat, denominator: nat, exponent: int, bottom: int)
    requires
        denominator > 0,
        0x10_0000_0000_0000 * denominator <= numerator < 0x20_0000_0000_0000 * denominator,
        bottom <= exponent,
    ensures
        close(
            scaled(rounded(numerator, denominator, exponent), bottom) * denominator as int,
            numerator * pow2((exponent - bottom) as nat) as int,
            0x20_0000_0000_0000,
        ),
{
    let q = numerator / denominator;
    let r = numerator % denominator;
    vstd::arithmetic::div_mod::lemma_fundamental_div_mod(numerator as int, denominator as int);
    assert(0x10_0000_0000_0000 <= q < 0x20_0000_0000_0000) by (nonlinear_arith)
        requires
            q == numerator / denominator,
            denominator > 0,
            0x10_0000_0000_0000 * denominator <= numerator,
            numerator < 0x20_0000_0000_0000 * denominator,
    ;
    let up = 2 * r > denominator || (2 * r == denominator && q % 2 == 1);
    let s: nat = if up {
        q + 1
    } else {
        q
    };
    let unit = pow2((exponent - bottom) as nat);
    lemma_pow2_pos((exponent - bottom) as nat);
    let number = rounded(numerator, denominator, exponent);
    assert(scaled(number, bottom) == s * unit) by {
        if s == HIGH {
            lemma_pow2_unfold((exponent + 1 - bottom) as nat);
            assert(0x10_0000_0000_0000 * pow2((exponent + 1 - bottom) as nat) == s * unit)
                by (nonlinear_arith)
                requires
                    pow2((exponent + 1 - bottom) as nat) == 2 * unit,
                    s == 0x20_0000_0000_0000,
            ;
        }
    }
    let sd = s * denominator;
    assert(2 * (sd - numerator) <= denominator && 2 * (numerator - sd) <= denominator)
        by (nonlinear_arith)
        requires
            numerator == denominator * q + r,
            sd == s * denominator,
            s == (if up {
                q + 1
            } else {
                q
            }),
            up ==> 2 * r >= denominator,
            !up ==> 2 * r <= denominator,
            0 <= r < denominator,
    ;
    let value = s * unit * denominator;
    let exact = numerator * unit;
    assert(value == sd * unit) by (nonlinear_arith)
        requires
            value == s * unit * denominator,
            sd == s * denominator,
    ;
    assert(0x20_0000_0000_0000 * (value - exact) <= exact && 0x20_0000_0000_0000 * (exact - value)
        <= exact) by (nonlinear_arith)
        requires
            value == sd * unit,
            exact == numerator * unit,
            unit > 0,
            2 * (sd - numerator) <= denominator,
            2 * (numerator - sd) <= denominator,
            0x10_0000_0000_0000 * denominator <= numerator,
    {
        let gap = sd - numerator;
        assert(0x20_0000_0000_0000 * gap <= numerator);
        assert(0x20_0000_0000_0000 * (0 - gap) <= numerator);
        assert(value - exact == gap * unit);
        assert((0x20_0000_0000_0000 * gap) * unit <= numerator * unit);
        assert((0x20_0000_0000_0000 * (0 - gap)) * unit <= numerator * unit);
    }
}

proof fn lemma_nearest_below_error(numerator: nat, denominator: nat, exponent: int, bottom: int)
    requires
        0 < numerator < 0x20_0000_0000_0000 * denominator,
        denominator > 0,
        bottom <= exponent,
        bottom < nearest_below(numerator, denominator, exponent).exponent,
    ensures
        close(
            scaled(nearest_below(numerator, denominator, exponent), bottom) * denominator as int,
            numerator * pow2((exponent - bottom) as nat) as int,
            0x20_0000_0000_0000,
        ),
    decreases 0x20_0000_0000_0000 * denominator - numerator,
{
    if numerator < 0x10_0000_0000_0000 * denominator {
        lemma_nearest_below_at_most(2 * numerator, denominator, exponent - 1);
        lemma_nearest_below_error(2 * numerator, denominator, exponent - 1, bottom);
        lemma_pow2_unfold((exponent - bottom) as nat);
        let unit = pow2((exponent - bottom) as nat);
        let half = pow2((exponent - 1 - bottom) as nat);
        assert((2 * numerator) * half == numerator * unit) by (nonlinear_arith)
            requires
                unit == 2 * half,
        ;
    } else {
        lemma_rounded_error(numerator, denominator, exponent, bottom);
    }
}

proof fn lemma_nearest_below_at_most(numerator: nat, denominator: nat, exponent: int)
    requires
        numerator > 0,
        denominator > 0,
    ensures
        nearest_below(numerator, denominator, exponent).exponent <= exponent + 1,
    decreases 0x20_0000_0000_0000 * denominator - numerator,
{
    if numerator < 0x10_0000_0000_0000 * denominator {
        lemma_nearest_below_at_most(2 * numerator, denominator, exponent - 1);
    }
}

/// The number nearest to a quotient is off by no more than one part in `2^53`.
pub proof fn rounding_is_close(numerator: nat, denominator: nat, exponent: int, bottom: int)
    requires
        numerator > 0,
        denominator > 0,
        bottom <= exponent,
        bottom < nearest(numerator, denominator, exponent).exponent,
    ensures
        close(
            scaled(nearest(numerator, denominator, exponent), bottom) * denominator as int,
            numerator * pow2((exponent - bottom) as nat) as int,
            0x20_0000_0000_0000,
        ),
    decreases numerator - denominator,
{
    if numerator >= 0x20_0000_0000_0000 * denominator {
        rounding_is_close(numerator, 2 * denominator, exponent + 1, bottom);
        let value = scaled(nearest(numerator, denominator, exponent), bottom);
        lemma_pow2_unfold((exponent + 1 - bottom) as nat);
        let unit = pow2((exponent - bottom) as nat);
        let twice = pow2((exponent + 1 - bottom) as nat);
        assert(value * (2 * denominator) == 2 * (value * denominator)) by (nonlinear_arith);
        assert(numerator * twice == 2 * (numerator * unit)) by (nonlinear_arith)
            requires
                twice == 2 * unit,
        ;
    } else {
        lemma_nearest_below_error(numerator, denominator, exponent, bottom);
    }
}

/// The unit in which the numbers of a percentage are compared: below the
/// exponent of each of them.
pub const BOTTOM: i32 = -0x2000;

/// A number in that unit.
pub open spec fn measure(number: Number) -> nat {
    scaled(number, BOTTOM as int)
}

/// One in that unit.
pub open spec fn one() -> nat {
    pow2(0x2000)
}

proof fn lemma_shift(value: nat, high: nat, low: nat)
    ensures
        value * pow2(high) * pow2(low) == value * pow2(high + low),
{
    lemma_pow2_adds(high, low);
    assert(value * pow2(high) * pow2(low) == value * (pow2(high) * pow2(low))) by (nonlinear_arith);
}

proof fn lemma_quotient_close(left: Number, right: Number)
    requires
        left.normal(),
        right.normal(),
        left.significand > 0,
        right.significand > 0,
        -0x1000 <= left.exponent - right.exponent,
        -0x1000 <= right.exponent,
        -0x1000 <= left.exponent,
    ensures
        close(
            measure(quotient(left, right)) * measure(right) as int,
            measure(left) * one() as int,
            0x20_0000_0000_0000,
        ),
        quotient(left, right).normal(),
        quotient(left, right).significand > 0,
        quotient(left, right).exponent >= left.exponent - right.exponent - 53,
{
    lemma2_to64();
    lemma2_to64_rest();
    let e = left.exponent - right.exponent;
    let bottom = BOTTOM as int;
    assert(left.significand * pow2(53) >= 0x10_0000_0000_0000 * right.significand)
        by (nonlinear_arith)
        requires
            left.significand >= 0x10_0000_0000_0000,
            right.significand < 0x20_0000_0000_0000,
            pow2(53) == 0x20_0000_0000_0000,
    ;
    lemma_nearest_at_least(left.significand, right.significand, e, 53);
    lemma_nearest_is_normal(left.significand, right.significand, e);
    rounding_is_close(left.significand, right.significand, e, bottom);
    let q = measure(quotient(left, right));
    let unit = pow2((right.exponent - bottom) as nat);
    lemma_pow2_pos((right.exponent - bottom) as nat);
    let a = q * right.significand;
    let b = left.significand * pow2((e - bottom) as nat);
    lemma_shift(left.significand, (e - bottom) as nat, (right.exponent - bottom) as nat);
    lemma_shift(left.significand, (left.exponent - bottom) as nat, 0x2000);
    assert(b * unit == measure(left) * one());
    assert(a * unit == q * measure(right)) by (nonlinear_arith)
        requires
            a == q * right.significand,
            measure(right) == right.significand * unit,
    ;
    lemma_close_times(a as int, b as int, 0x20_0000_0000_0000, unit as int);
}

proof fn lemma_close_times(value: int, exact: int, parts: int, factor: int)
    by (nonlinear_arith)
    requires
        close(value, exact, parts),
        factor >= 0,
    ensures
        close(value * factor, exact * factor, parts),
{
    assert((parts * (value - exact)) * factor <= exact * factor);
    assert((parts * (exact - value)) * factor <= exact * factor);
    assert(parts * (value * factor - exact * factor) == (parts * (value - exact)) * factor);
    assert(parts * (exact * factor - value * factor) == (parts * (exact - value)) * factor);
}

proof fn lemma_close_cancel(value: int, exact: int, parts: int, factor: int)
    by (nonlinear_arith)
    requires
        close(value * factor, exact * factor, parts),
        factor > 0,
    ensures
        close(value, exact, parts),
{
    assert((parts * (value - exact)) * factor <= exact * factor);
    assert((parts * (exact - value)) * factor <= exact * factor);
}

proof fn lemma_difference_close(high: Number, low: Number)
    requires
        -0x800 <= high.exponent,
        -0x800 <= low.exponent,
        measure(high) > measure(low),
    ensures
        close(
            measure(difference(high, low)) as int,
            measure(high) - measure(low),
            0x20_0000_0000_0000,
        ),
        difference(high, low).normal(),
        difference(high, low).significand > 0,
        difference(high, low).exponent >= -0x800 - 52,
{
    lemma2_to64();
    lemma2_to64_rest();
    let bottom = BOTTOM as int;
    let e = lower_exponent(high, low);
    let (a, b) = (scaled(high, e), scaled(low, e));
    let unit = pow2((e - bottom) as nat);
    lemma_pow2_pos((e - bottom) as nat);
    lemma_shift(high.significand, (high.exponent - e) as nat, (e - bottom) as nat);
    lemma_shift(low.significand, (low.exponent - e) as nat, (e - bottom) as nat);
    assert(a * unit == measure(high) && b * unit == measure(low));
    assert(a > b) by (nonlinear_arith)
        requires
            a * unit > b * unit,
            unit > 0,
    ;
    let n = (a - b) as nat;
    assert(n * unit == measure(high) - measure(low)) by (nonlinear_arith)
        requires
            n == a - b,
            a * unit == measure(high),
            b * unit == measure(low),
    ;
    assert(n * pow2(52) >= 0x10_0000_0000_0000 * 1) by (nonlinear_arith)
        requires
            n >= 1,
            pow2(52) == 0x10_0000_0000_0000,
    ;
    lemma_nearest_at_least(n, 1, e, 52);
    lemma_nearest_is_normal(n, 1, e);
    rounding_is_close(n, 1, e, bottom);
    let value = measure(difference(high, low));
    assert(value * 1 == value);
}

/// A hundred times a number is off by no more than one part in `2^53`.
pub proof fn hundredfolds_are_close(number: Number)
    requires
        number.normal(),
        number.significand > 0,
        -0x1800 <= number.exponent,
    ensures
        close(
            measure(multiple(number, 100)) as int,
            100 * measure(number) as int,
            0x20_0000_0000_0000,
        ),
        multiple(number, 100).exponent >= number.exponent,
{
    lemma2_to64();
    let bottom = BOTTOM as int;
    let n = number.significand * 100;
    assert(n * pow2(0) >= 0x10_0000_0000_0000 * 1) by (nonlinear_arith)
        requires
            n >= 0x10_0000_0000_0000,
            pow2(0) == 1,
    ;
    lemma_nearest_at_least(n, 1, number.exponent, 0);
    rounding_is_close(n, 1, number.exponent, bottom);
    let value = measure(multiple(number, 100));
    assert(value * 1 == value);
    let unit = pow2((number.exponent - bottom) as nat);
    assert(n * unit == 100 * measure(number)) by (nonlinear_arith)
        requires
            n == number.significand * 100,
            measure(number) == number.significand * unit,
    ;
}

/// The nearest integer is no further away than a half.
proof fn lemma_integer_close(number: Number)
    requires
        -0x2000 <= number.exponent,
    ensures
        2 * (to_integer(number) * one() - measure(number)) <= one(),
        2 * (measure(number) - to_integer(number) * one()) <= one(),
{
    let bottom = BOTTOM as int;
    let c = to_integer(number);
    lemma_pow2_pos(0x2000);
    if number.exponent >= 0 {
        lemma_shift(number.significand, number.exponent as nat, 0x2000);
    } else {
        let unit = pow2((-number.exponent) as nat);
        let rest = pow2((number.exponent - bottom) as nat);
        lemma_pow2_pos((-number.exponent) as nat);
        lemma_pow2_pos((number.exponent - bottom) as nat);
        lemma_pow2_adds((-number.exponent) as nat, (number.exponent - bottom) as nat);
        let top = 2 * number.significand + unit;
        vstd::arithmetic::div_mod::lemma_fundamental_div_mod(top as int, 2 * unit as int);
        vstd::arithmetic::div_mod::lemma_mod_bound(top as int, 2 * unit as int);
        let left = top % (2 * unit);
        assert(2 * (c * one() - measure(number)) <= one() && 2 * (measure(number) - c * one())
            <= one()) by (nonlinear_arith)
            requires
                top == 2 * unit * c + left,
                top == 2 * number.significand + unit,
                0 <= left < 2 * unit,
                one() == unit * rest,
                measure(number) == number.significand * rest,
                rest > 0,
        {
            let gap = 2 * number.significand - 2 * unit * c;
            assert(gap == left - unit);
            assert(gap <= unit && 0 - gap <= unit);
            assert(gap * rest <= unit * rest);
            assert((0 - gap) * rest <= unit * rest);
            assert(c * one() == unit * c * rest);
            assert(gap * rest == 2 * measure(number) - 2 * (c * one()));
        }
    }
}

proof fn lemma_percent_chain(w: int, f: int, g: int, d: int, q: int, m: int, c: int)
    requires
        w > 0,
        f > 0,
        g >= 0,
        d >= 0,
        q >= 0,
        close(d, g, 0x20_0000_0000_0000),
        close(q * f, d * w, 0x20_0000_0000_0000),
        close(m, 100 * q, 0x20_0000_0000_0000),
        2 * (c * w - m) <= w,
        2 * (m - c * w) <= w,
    ensures
        0x20_0000_0000_0000 * (2 * (c * f) - 200 * g) <= 0x20_0000_0000_0000 * f + 1400 * g,
        0x20_0000_0000_0000 * (200 * g - 2 * (c * f)) <= 0x20_0000_0000_0000 * f + 1400 * g,
{
    let (a, b, e) = (q * f, d * w, g * w);
    lemma_close_times(d, g, 0x20_0000_0000_0000, w);
    lemma_close_times(m, 100 * q, 0x20_0000_0000_0000, f);
    let (mf, cwf, wf) = (m * f, c * w * f, w * f);
    assert(100 * q * f == 100 * a) by (nonlinear_arith)
        requires
            a == q * f,
    ;
    assert(2 * (cwf - mf) <= wf && 2 * (mf - cwf) <= wf) by (nonlinear_arith)
        requires
            2 * (c * w - m) <= w,
            2 * (m - c * w) <= w,
            f > 0,
            mf == m * f,
            cwf == c * w * f,
            wf == w * f,
    {
        assert((2 * (c * w - m)) * f <= w * f);
        assert((2 * (m - c * w)) * f <= w * f);
    }
    assert(a >= 0 && b >= 0 && e >= 0) by (nonlinear_arith)
        requires
            a == q * f,
            b == d * w,
            e == g * w,
            q >= 0,
            f > 0,
            d >= 0,
            w > 0,
            g >= 0,
    ;
    let big = 0x20_0000_0000_0000int;
    assert(big * (2 * cwf - 200 * e) <= big * wf + 1400 * e);
    assert(big * (200 * e - 2 * cwf) <= big * wf + 1400 * e);
    let cf = c * f;
    assert(cwf == cf * w) by (nonlinear_arith)
        requires
            cwf == c * w * f,
            cf == c * f,
    ;
    assert(big * (2 * cf - 200 * g) <= big * f + 1400 * g && big * (200 * g - 2 * cf) <= big * f
        + 1400 * g) by (nonlinear_arith)
        requires
            big * (2 * cwf - 200 * e) <= big * wf + 1400 * e,
            big * (200 * e - 2 * cwf) <= big * wf + 1400 * e,
            cwf == cf * w,
            wf == f * w,
            e == g * w,
            w > 0,
    {
        assert((big * (2 * cf - 200 * g)) * w <= (big * f + 1400 * g) * w);
        assert((big * (200 * g - 2 * cf)) * w <= (big * f + 1400 * g) * w);
    }
}

/// A percentage is the exact one, rounded to a whole number, up to what the
/// rounding of the machine adds: with `change` percent shown, `change * from`
/// differs from `100 * (to - from)` by half of `from` and a share of
/// the difference below one in ten million million.
pub proof fn percentages_are_accurate(from: Number, to: Number)
    requires
        from.normal(),
        to.normal(),
        from.significand > 0,
        -0x400 <= from.exponent <= 0x400,
        -0x400 <= to.exponent <= 0x400,
    ensures
        ({
            let change = percent_change(from, to);
            let (f, t) = (measure(from) as int, measure(to) as int);
            let size = if t >= f {
                t - f
            } else {
                f - t
            };
            ||| change == 0x7fff_ffff_ffff_ffff
            ||| change == -0x8000_0000_0000_0000
            ||| {
                &&& 0x20_0000_0000_0000 * (2 * (change * f) - 200 * (t - f)) <= 0x20_0000_0000_0000
                    * f + 1400 * size
                &&& 0x20_0000_0000_0000 * (200 * (t - f) - 2 * (change * f))
                    <= 0x20_0000_0000_0000 * f + 1400 * size
            }
        }),
        measure(from) > 0,
        percent_change(from, to) < 0 ==> measure(to) < measure(from),
        percent_change(from, to) > 0 ==> measure(to) > measure(from),
{
    lemma2_to64();
    let bottom = BOTTOM as int;
    let (f, t) = (measure(from), measure(to));
    lemma_pow2_pos((from.exponent - bottom) as nat);
    lemma_pow2_pos(0x2000);
    assert(f > 0) by (nonlinear_arith)
        requires
            f == from.significand * pow2((from.exponent - bottom) as nat),
            from.significand > 0,
            pow2((from.exponent - bottom) as nat) > 0,
    ;
    lemma_below_measures(to, from);
    lemma_below_measures(from, to);
    if f == t {
        lemma_same_measure(from, to);
        lemma_nothing_above(to, from, from);
        assert(0 * f == 0);
    } else {
        let (high, low) = if t > f {
            (to, from)
        } else {
            (from, to)
        };
        lemma_difference_close(high, low);
        let gap = difference(high, low);
        lemma_quotient_close(gap, from);
        let share = quotient(gap, from);
        hundredfolds_are_close(share);
        let percent = multiple(share, 100);
        lemma_integer_close(percent);
        let c = to_integer(percent);
        assert(percent_above(high, low, from) == c);
        let g = measure(high) - measure(low);
        lemma_percent_chain(
            one() as int,
            f as int,
            g,
            measure(gap) as int,
            measure(share) as int,
            measure(percent) as int,
            c as int,
        );
        let minus = -(c as int);
        assert(minus * f == -(c * f)) by (nonlinear_arith)
            requires
                minus == -(c as int),
        ;
    }
}

proof fn lemma_below_measures(left: Number, right: Number)
    requires
        -0x2000 <= left.exponent,
        -0x2000 <= right.exponent,
    ensures
        below(left, right) <==> measure(left) < measure(right),
{
    let bottom = BOTTOM as int;
    let e = lower_exponent(left, right);
    let (a, b) = (scaled(left, e), scaled(right, e));
    let unit = pow2((e - bottom) as nat);
    lemma_pow2_pos((e - bottom) as nat);
    lemma_shift(left.significand, (left.exponent - e) as nat, (e - bottom) as nat);
    lemma_shift(right.significand, (right.exponent - e) as nat, (e - bottom) as nat);
    assert(a < b <==> a * unit < b * unit) by (nonlinear_arith)
        requires
            unit > 0,
    ;
}

proof fn lemma_same_measure(left: Number, right: Number)
    requires
        -0x2000 <= left.exponent,
        -0x2000 <= right.exponent,
        measure(left) == measure(right),
    ensures
        difference(left, right) == (Number { significand: 0, exponent: 0 }),
        difference(right, left) == (Number { significand: 0, exponent: 0 }),
{
    lemma_below_measures(left, right);
    lemma_below_measures(right, left);
}

proof fn lemma_nothing_above(high: Number, low: Number, base: Number)
    requires
        difference(high, low) == (Number { significand: 0, exponent: 0 }),
    ensures
        percent_above(high, low, base) == 0,
{
    lemma2_to64();
    assert(0 * pow2(0) == 0) by (nonlinear_arith);
}

/// The number of an integer is off by no more than one part in `2^53`.
pub proof fn integers_are_close(value: nat)
    requires
        0 < value <= u64::MAX,
    ensures
        close(measure(of_integer(value)) as int, value * one() as int, 0x20_0000_0000_0000),
        of_integer(value).normal(),
        of_integer(value).significand > 0,
        -52 <= of_integer(value).exponent <= 12,
{
    lemma2_to64();
    lemma2_to64_rest();
    assert(value * pow2(52) >= 0x10_0000_0000_0000 * 1) by (nonlinear_arith)
        requires
            value >= 1,
            pow2(52) == 0x10_0000_0000_0000,
    ;
    lemma_nearest_at_least(value, 1, 0, 52);
    lemma_nearest_is_normal(value, 1, 0);
    rounding_is_close(value, 1, 0, BOTTOM as int);
    let m = measure(of_integer(value));
    assert(m * 1 == m);
    assert(value * pow2(0) == value);
    lemma_nearest_exponent(value, 1, 0, 52, 0, 11);
}

/// The quotient of two integers is off by no more than one part in `2^49`.
pub proof fn shares_are_close(part: nat, whole: nat)
    requires
        0 < part <= u64::MAX,
        0 < whole <= u64::MAX,
    ensures
        ({
            let share = quotient(of_integer(part), of_integer(whole));
            &&& close(measure(share) * whole as int, part * one() as int, 0x2_0000_0000_0000)
            &&& share.normal()
            &&& share.significand > 0
            &&& -0x400 <= share.exponent <= 0x400
        }),
{
    integers_are_close(part);
    integers_are_close(whole);
    let (a, b) = (of_integer(part), of_integer(whole));
    lemma_quotient_close(a, b);
    lemma2_to64();
    lemma2_to64_rest();
    lemma_nearest_exponent(a.significand, b.significand, a.exponent - b.exponent, 53, 52, 0);
    let share = quotient(a, b);
    let (s, x, y, w) = (measure(share), measure(a), measure(b), one());
    lemma_pow2_pos(0x2000);
    let big = 0x20_0000_0000_0000int;
    let (p, q, r, z) = (s * whole * w, s * y, x * w, part * w * w);
    lemma_close_times(y as int, whole * w as int, big, s as int);
    assert(y * s == q && (whole * w) * s == p) by (nonlinear_arith)
        requires
            q == s * y,
            p == s * whole * w,
    ;
    lemma_close_times(x as int, part * w as int, big, w as int);
    assert(big * (q - p) <= p && big * (p - q) <= p);
    assert(big * (q - r) <= r && big * (r - q) <= r);
    assert(big * (r - z) <= z && big * (z - r) <= z);
    let parts = 0x2_0000_0000_0000int;
    assert(close(p as int, z as int, parts));
    assert(p == (s * whole) * w && z == (part * w) * w);
    lemma_close_cancel((s * whole) as int, (part * w) as int, parts, w as int);
}

/// Whether a change in percent from one share to another is the exact one,
/// rounded to a whole number, up to what the rounding of the machine adds. The
/// shares are given over a common denominator: `from` and `to` are their
/// numerators. A change beyond a signed 64-bit integer is the largest one.
pub open spec fn accurate_change(change: int, from: int, to: int) -> bool {
    ||| change == 0x7fff_ffff_ffff_ffff
    ||| change == -0x8000_0000_0000_0000
    ||| {
        &&& 0x2_0000_0000_0000 * (2 * (change * from) - 200 * (to - from)) <= 0x2_0000_0000_0000
            * from + 4000 * (from + to)
        &&& 0x2_0000_0000_0000 * (200 * (to - from) - 2 * (change * from)) <= 0x2_0000_0000_0000
            * from + 4000 * (from + to)
    }
}

proof fn lemma_scaled_change(c: int, f: int, t: int, p: int, r: int)
    requires
        f > 0,
        t >= 0,
        p > 0,
        r >= 0,
        close(f, p, 0x2_0000_0000_0000),
        close(t, r, 0x2_0000_0000_0000),
        0x20_0000_0000_0000 * (2 * (c * f) - 200 * (t - f)) <= 0x20_0000_0000_0000 * f + 1400 * (f
            + t),
        0x20_0000_0000_0000 * (200 * (t - f) - 2 * (c * f)) <= 0x20_0000_0000_0000 * f + 1400 * (f
            + t),
    ensures
        0x2_0000_0000_0000 * (2 * (c * p) - 200 * (r - p)) <= 0x2_0000_0000_0000 * p + 4000 * (p
            + r),
        0x2_0000_0000_0000 * (200 * (r - p) - 2 * (c * p)) <= 0x2_0000_0000_0000 * p + 4000 * (p
            + r),
{
    let parts = 0x2_0000_0000_0000int;
    let (cf, cp) = (c * f, c * p);
    let size = if c >= 0 {
        c
    } else {
        -c
    };
    let sf = size * f;
    assert(sf == cf || sf == -cf) by (nonlinear_arith)
        requires
            sf == size * f,
            cf == c * f,
            size == c || size == -c,
    ;
    assert(sf >= 0) by (nonlinear_arith)
        requires
            sf == size * f,
            size >= 0,
            f > 0,
    ;
    assert(2 * sf <= 202 * (t + f));
    assert(p <= 2 * f);
    assert(parts * (cf - cp) <= 2 * sf && parts * (cp - cf) <= 2 * sf) by (nonlinear_arith)
        requires
            cf == c * f,
            cp == c * p,
            sf == size * f,
            size >= 0,
            size == c || size == -c,
            parts * (f - p) <= p,
            parts * (p - f) <= p,
            p <= 2 * f,
    {
        let gap = parts * (f - p);
        assert(gap <= 2 * f && 0 - gap <= 2 * f);
        assert(size * gap <= size * (2 * f));
        assert(size * (0 - gap) <= size * (2 * f));
        assert(size * (2 * f) == 2 * sf);
        assert(parts * (cf - cp) == c * gap);
        assert(c * gap == size * gap || c * gap == size * (0 - gap));
    }
    assert(f <= 2 * p && t <= 2 * r);
}

/// The change of a count is accurate.
pub proof fn changes_of_counts_are_accurate(earlier: nat, later: nat)
    requires
        0 < earlier <= u64::MAX,
        later <= u64::MAX,
    ensures
        accurate_change(
            percent_change(of_integer(earlier), of_integer(later)),
            earlier as int,
            later as int,
        ),
{
    let (from, to) = (of_integer(earlier), of_integer(later));
    integers_are_close(earlier);
    lemma_pow2_pos(0x2000);
    let w = one() as int;
    let (f, t) = (measure(from) as int, measure(to) as int);
    if later > 0 {
        integers_are_close(later);
    } else {
        assert(t == 0) by (nonlinear_arith)
            requires
                t == 0 * pow2(0x2000),
        ;
        assert(0 * w == 0);
    }
    percentages_are_accurate(from, to);
    let c = percent_change(from, to);
    if c != 0x7fff_ffff_ffff_ffff && c != -0x8000_0000_0000_0000 {
        let (p, r) = (earlier * w, later * w);
        assert(p > 0 && r >= 0) by (nonlinear_arith)
            requires
                p == earlier * w,
                r == later * w,
                earlier > 0,
                later >= 0,
                w > 0,
        ;
        lemma_scaled_change(c, f, t, p, r);
        lemma_cancel_change(c, earlier as int, later as int, w);
    }
}

proof fn lemma_cancel_change(c: int, p: int, r: int, w: int)
    requires
        w > 0,
        0x2_0000_0000_0000 * (2 * (c * (p * w)) - 200 * (r * w - p * w)) <= 0x2_0000_0000_0000 * (p
            * w) + 4000 * (p * w + r * w),
        0x2_0000_0000_0000 * (200 * (r * w - p * w) - 2 * (c * (p * w))) <= 0x2_0000_0000_0000 * (p
            * w) + 4000 * (p * w + r * w),
    ensures
        0x2_0000_0000_0000 * (2 * (c * p) - 200 * (r - p)) <= 0x2_0000_0000_0000 * p + 4000 * (p
            + r),
        0x2_0000_0000_0000 * (200 * (r - p) - 2 * (c * p)) <= 0x2_0000_0000_0000 * p + 4000 * (p
            + r),
{
    let parts = 0x2_0000_0000_0000int;
    let (cp, pw, rw) = (c * p, p * w, r * w);
    assert(c * pw == cp * w) by (nonlinear_arith)
        requires
            cp == c * p,
            pw == p * w,
    ;
    let high = parts * (2 * cp - 200 * (r - p));
    let low = parts * (200 * (r - p) - 2 * cp);
    let bound = parts * p + 4000 * (p + r);
    assert(high * w <= bound * w && low * w <= bound * w) by (nonlinear_arith)
        requires
            high == parts * (2 * cp - 200 * (r - p)),
            low == parts * (200 * (r - p) - 2 * cp),
            bound == parts * p + 4000 * (p + r),
            pw == p * w,
            rw == r * w,
            parts * (2 * (cp * w) - 200 * (rw - pw)) <= parts * pw + 4000 * (pw + rw),
            parts * (200 * (rw - pw) - 2 * (cp * w)) <= parts * pw + 4000 * (pw + rw),
    {
        assert(high * w == parts * (2 * (cp * w) - 200 * (rw - pw)));
        assert(low * w == parts * (200 * (rw - pw) - 2 * (cp * w)));
        assert(bound * w == parts * pw + 4000 * (pw + rw));
    }
    assert(high <= bound && low <= bound) by (nonlinear_arith)
        requires
            high * w <= bound * w,
            low * w <= bound * w,
            w > 0,
    ;
}

/// The change of a share is accurate.
pub proof fn changes_of_shares_are_accurate(
    earlier_part: nat,
    earlier_whole: nat,
    later_part: nat,
    later_whole: nat,
)
    requires
        0 < earlier_part <= u64::MAX,
        0 < earlier_whole <= u64::MAX,
        later_part <= u64::MAX,
        0 < later_whole <= u64::MAX,
    ensures
        accurate_change(
            percent_change(
                quotient(of_integer(earlier_part), of_integer(earlier_whole)),
                quotient(of_integer(later_part), of_integer(later_whole)),
            ),
            (earlier_part * later_whole) as int,
            (later_part * earlier_whole) as int,
        ),
{
    let from = quotient(of_integer(earlier_part), of_integer(earlier_whole));
    let to = quotient(of_integer(later_part), of_integer(later_whole));
    shares_are_close(earlier_part, earlier_whole);
    lemma_pow2_pos(0x2000);
    let w = one() as int;
    let (f, t) = (measure(from) as int, measure(to) as int);
    let parts = 0x2_0000_0000_0000int;
    if later_part > 0 {
        shares_are_close(later_part, later_whole);
    } else {
        assert(t == 0) by (nonlinear_arith)
            requires
                t == 0 * pow2(0x2000),
        ;
        assert(0 * w == 0 && 0 * later_whole == 0);
    }
    percentages_are_accurate(from, to);
    let c = percent_change(from, to);
    if c != 0x7fff_ffff_ffff_ffff && c != -0x8000_0000_0000_0000 {
        let (ew, lw) = (earlier_whole as int, later_whole as int);
        let (ep, lp) = (earlier_part as int, later_part as int);
        let z = ew * lw;
        assert(z > 0) by (nonlinear_arith)
            requires
                z == ew * lw,
                ew > 0,
                lw > 0,
        ;
        let (p, r) = (ep * lw, lp * ew);
        assert(close(t * lw, lp * w, parts));
        lemma_close_times(f * ew, ep * w, parts, lw);
        lemma_close_times(t * lw, lp * w, parts, ew);
        assert(f * ew * lw == f * z && t * lw * ew == t * z) by (nonlinear_arith)
            requires
                z == ew * lw,
        ;
        assert(ep * w * lw == p * w && lp * w * ew == r * w) by (nonlinear_arith)
            requires
                p == ep * lw,
                r == lp * ew,
        ;
        let (fz, tz) = (f * z, t * z);
        let big = 0x20_0000_0000_0000int;
        let cf = c * f;
        assert(c * fz == cf * z) by (nonlinear_arith)
            requires
                fz == f * z,
                cf == c * f,
        ;
        assert(big * (2 * (cf * z) - 200 * (tz - fz)) <= big * fz + 1400 * (fz + tz) && big * (200
            * (tz - fz) - 2 * (cf * z)) <= big * fz + 1400 * (fz + tz)) by (nonlinear_arith)
            requires
                fz == f * z,
                tz == t * z,
                z > 0,
                big * (2 * cf - 200 * (t - f)) <= big * f + 1400 * (f + t),
                big * (200 * (t - f) - 2 * cf) <= big * f + 1400 * (f + t),
        {
            assert((big * (2 * cf - 200 * (t - f))) * z <= (big * f + 1400 * (f + t)) * z);
            assert((big * (200 * (t - f) - 2 * cf)) * z <= (big * f + 1400 * (f + t)) * z);
            assert((big * (2 * cf - 200 * (t - f))) * z == big * (2 * (cf * z) - 200 * (tz - fz)));
            assert((big * (200 * (t - f) - 2 * cf)) * z == big * (200 * (tz - fz) - 2 * (cf * z)));
            assert((big * f + 1400 * (f + t)) * z == big * fz + 1400 * (fz + tz));
        }
        assert(p > 0 && r >= 0 && p * w > 0 && r * w >= 0 && fz > 0 && tz >= 0) by (nonlinear_arith)
            requires
                p == ep * lw,
                r == lp * ew,
                fz == f * z,
                tz == t * z,
                ep > 0,
                lp >= 0,
                ew > 0,
                lw > 0,
                w > 0,
                z > 0,
                f > 0,
                t >= 0,
        ;
        lemma_scaled_change(c, fz, tz, p * w, r * w);
        lemma_cancel_change(c, p, r, w);
    }
}

proof fn lemma_rounded_times(numerator: nat, denominator: nat, exponent: int, factor: nat)
    requires
        denominator > 0,
        factor > 0,
    ensures
        rounded(factor * numerator, factor * denominator, exponent) == rounded(
            numerator,
            denominator,
            exponent,
        ),
{
    let q = numerator / denominator;
    let r = numerator % denominator;
    vstd::arithmetic::div_mod::lemma_fundamental_div_mod(numerator as int, denominator as int);
    let (n, d, s) = (factor * numerator, factor * denominator, factor * r);
    assert(n == q * d + s && d > 0 && 0 <= s < d) by (nonlinear_arith)
        requires
            n == factor * numerator,
            d == factor * denominator,
            s == factor * r,
            numerator == denominator * q + r,
            0 <= r < denominator,
            factor > 0,
    ;
    vstd::arithmetic::div_mod::lemma_fundamental_div_mod_converse(
        n as int,
        d as int,
        q as int,
        s as int,
    );
    assert((2 * s > d <==> 2 * r > denominator) && (2 * s == d <==> 2 * r == denominator))
        by (nonlinear_arith)
        requires
            d == factor * denominator,
            s == factor * r,
            factor > 0,
    ;
}

proof fn lemma_nearest_below_times(numerator: nat, denominator: nat, exponent: int, factor: nat)
    requires
        numerator > 0,
        denominator > 0,
        factor > 0,
    ensures
        nearest_below(factor * numerator, factor * denominator, exponent) == nearest_below(
            numerator,
            denominator,
            exponent,
        ),
    decreases 0x20_0000_0000_0000 * denominator - numerator,
{
    let (n, d) = (factor * numerator, factor * denominator);
    assert(n > 0 && d > 0 && (n < 0x10_0000_0000_0000 * d <==> numerator < 0x10_0000_0000_0000
        * denominator)) by (nonlinear_arith)
        requires
            n == factor * numerator,
            d == factor * denominator,
            numerator > 0,
            denominator > 0,
            factor > 0,
    ;
    if numerator < 0x10_0000_0000_0000 * denominator {
        assert(factor * (2 * numerator) == 2 * n) by (nonlinear_arith)
            requires
                n == factor * numerator,
        ;
        lemma_nearest_below_times(2 * numerator, denominator, exponent - 1, factor);
    } else {
        lemma_rounded_times(numerator, denominator, exponent, factor);
    }
}

proof fn lemma_nearest_times(numerator: nat, denominator: nat, exponent: int, factor: nat)
    requires
        numerator > 0,
        denominator > 0,
        factor > 0,
    ensures
        nearest(factor * numerator, factor * denominator, exponent) == nearest(
            numerator,
            denominator,
            exponent,
        ),
    decreases numerator - denominator,
{
    let (n, d) = (factor * numerator, factor * denominator);
    assert(n > 0 && d > 0 && (n >= 0x20_0000_0000_0000 * d <==> numerator >= 0x20_0000_0000_0000
        * denominator)) by (nonlinear_arith)
        requires
            n == factor * numerator,
            d == factor * denominator,
            numerator > 0,
            denominator > 0,
            factor > 0,
    ;
    if numerator >= 0x20_0000_0000_0000 * denominator {
        assert(factor * (2 * denominator) == 2 * d) by (nonlinear_arith)
            requires
                d == factor * denominator,
        ;
        lemma_nearest_times(numerator, 2 * denominator, exponent + 1, factor);
    } else {
        lemma_nearest_below_times(numerator, denominator, exponent, factor);
    }
}

/// An integer of 53 bits is kept as it is.
proof fn lemma_exact_below(value: nat, exponent: int) -> (shift: nat)
    requires
        0 < value < 0x20_0000_0000_0000,
    ensures
        nearest_below(value, 1, exponent) == (Number {
            significand: value * pow2(shift),
            exponent: exponent - shift,
        }),
    decreases 0x20_0000_0000_0000 - value,
{
    lemma2_to64();
    if value < 0x10_0000_0000_0000 {
        let rest = lemma_exact_below(2 * value, exponent - 1);
        lemma_pow2_unfold(rest + 1);
        assert((2 * value) * pow2(rest) == value * pow2(rest + 1)) by (nonlinear_arith)
            requires
                pow2(rest + 1) == 2 * pow2(rest),
        ;
        rest + 1
    } else {
        assert(value * pow2(0) == value);
        0
    }
}

proof fn lemma_nearest_denominator_shift(
    numerator: nat,
    denominator: nat,
    exponent: int,
    shift: nat,
)
    requires
        numerator > 0,
        denominator > 0,
    ensures
        denominator * pow2(shift) > 0,
        nearest(numerator, denominator * pow2(shift), exponent + shift) == nearest(
            numerator,
            denominator,
            exponent,
        ),
    decreases shift,
{
    lemma2_to64();
    if shift == 0 {
        assert(denominator * pow2(0) == denominator);
    } else {
        let rest = (shift - 1) as nat;
        lemma_nearest_denominator_shift(numerator, denominator, exponent, rest);
        lemma_pow2_unfold(shift);
        assert(denominator * pow2(shift) == 2 * (denominator * pow2(rest))) by (nonlinear_arith)
            requires
                pow2(shift) == 2 * pow2(rest),
        ;
        lemma_nearest_shift(numerator, denominator * pow2(rest), exponent + rest);
    }
}

/// The quotient of two integers of 53 bits is the number nearest to it.
pub proof fn quotients_of_integers_are_nearest(part: nat, whole: nat)
    requires
        0 < part < 0x20_0000_0000_0000,
        0 < whole < 0x20_0000_0000_0000,
    ensures
        quotient(of_integer(part), of_integer(whole)) == nearest(part, whole, 0),
{
    let x = lemma_exact_below(part, 0);
    let y = lemma_exact_below(whole, 0);
    lemma_pow2_pos(x);
    lemma_pow2_pos(y);
    let n = part * pow2(x);
    assert(n > 0) by (nonlinear_arith)
        requires
            n == part * pow2(x),
            part > 0,
            pow2(x) > 0,
    ;
    lemma_nearest_denominator_shift(n, whole, -x, y);
    lemma_nearest_denominator_shift(n, whole, -x, x);
    assert(n == pow2(x) * part && whole * pow2(x) == pow2(x) * whole) by (nonlinear_arith)
        requires
            n == part * pow2(x),
    ;
    lemma_nearest_times(part, whole, 0, pow2(x));
}

/// Equal shares are equal numbers.
pub proof fn equal_shares_are_equal(part: nat, whole: nat, other_part: nat, other_whole: nat)
    requires
        0 < part < 0x20_0000_0000_0000,
        0 < whole < 0x20_0000_0000_0000,
        0 < other_part < 0x20_0000_0000_0000,
        0 < other_whole < 0x20_0000_0000_0000,
        part * other_whole == other_part * whole,
    ensures
        quotient(of_integer(part), of_integer(whole)) == quotient(
            of_integer(other_part),
            of_integer(other_whole),
        ),
{
    quotients_of_integers_are_nearest(part, whole);
    quotients_of_integers_are_nearest(other_part, other_whole);
    lemma_nearest_times(part, whole, 0, other_whole);
    lemma_nearest_times(other_part, other_whole, 0, whole);
    assert(other_whole * part == whole * other_part && other_whole * whole == whole * other_whole)
        by (nonlinear_arith)
        requires
            part * other_whole == other_part * whole,
    ;
}

/// A share of a whole of up to a million million is compared with another one
/// as exactly as the two fractions are.
pub proof fn shares_are_compared_exactly(
    part: nat,
    whole: nat,
    other_part: nat,
    other_whole: nat,
)
    requires
        0 < part <= 0x100_0000_0000,
        0 < whole <= 0x100_0000_0000,
        0 < other_part <= 0x10,
        0 < other_whole <= 0x10,
        part <= whole,
        other_part <= other_whole,
    ensures
        below(
            quotient(of_integer(part), of_integer(whole)),
            quotient(of_integer(other_part), of_integer(other_whole)),
        ) <==> part * other_whole < other_part * whole,
{
    let left = quotient(of_integer(part), of_integer(whole));
    let right = quotient(of_integer(other_part), of_integer(other_whole));
    shares_are_close(part, whole);
    shares_are_close(other_part, other_whole);
    lemma_below_measures(left, right);
    lemma_pow2_pos(0x2000);
    let (x, y) = (part * other_whole, other_part * whole);
    if x == y {
        equal_shares_are_equal(part, whole, other_part, other_whole);
    } else {
        let w = one() as int;
        let (s, t) = (measure(left) as int, measure(right) as int);
        let parts = 0x2_0000_0000_0000int;
        lemma_close_times(s * whole, part * w, parts, other_whole as int);
        lemma_close_times(t * other_whole, other_part * w, parts, whole as int);
        let z = (whole * other_whole) as int;
        let (sz, tz, xw, yw) = (s * z, t * z, x * w, y * w);
        assert(s * whole * other_whole == sz && t * other_whole * whole == tz && part * w
            * other_whole == xw && other_part * w * whole == yw && z > 0) by (nonlinear_arith)
            requires
                z == whole * other_whole,
                sz == s * z,
                tz == t * z,
                x == part * other_whole,
                y == other_part * whole,
                xw == x * w,
                yw == y * w,
                whole > 0,
                other_whole > 0,
        ;
        assert(close(sz, xw, parts) && close(tz, yw, parts));
        assert(x <= 0x1000_0000_0000 && y <= 0x1000_0000_0000) by (nonlinear_arith)
            requires
                x == part * other_whole,
                y == other_part * whole,
                part <= 0x100_0000_0000,
                whole <= 0x100_0000_0000,
                other_part <= 0x10,
                other_whole <= 0x10,
        ;
        assert(xw <= 0x1000_0000_0000 * w && yw <= 0x1000_0000_0000 * w) by (nonlinear_arith)
            requires
                xw == x * w,
                yw == y * w,
                x <= 0x1000_0000_0000,
                y <= 0x1000_0000_0000,
                w > 0,
        ;
        if x < y {
            assert(xw + w <= yw) by (nonlinear_arith)
                requires
                    xw == x * w,
                    yw == y * w,
                    x + 1 <= y,
                    w > 0,
            ;
            assert(sz < tz);
        } else {
            assert(yw + w <= xw) by (nonlinear_arith)
                requires
                    xw == x * w,
                    yw == y * w,
                    y + 1 <= x,
                    w > 0,
            ;
            assert(tz < sz);
        }
        assert(s < t <==> sz < tz) by (nonlinear_arith)
            requires
                sz == s * z,
                tz == t * z,
                z > 0,
        ;
        assert(t < s <==> tz < sz) by (nonlinear_arith)
            requires
                sz == s * z,
                tz == t * z,
                z > 0,
        ;
    }
}

/// The nearest number of parts is no further away than a half.
pub proof fn parts_are_close(number: Number, scale: nat)
    requires
        -0x2000 <= number.exponent,
    ensures
        2 * (to_parts(number, scale) * one() - scale * measure(number)) <= one(),
        2 * (scale * measure(number) - to_parts(number, scale) * one()) <= one(),
{
    let bottom = BOTTOM as int;
    let c = to_parts(number, scale);
    let parts = scale * number.significand;
    lemma_pow2_pos(0x2000);
    if number.exponent >= 0 {
        lemma_shift(parts, number.exponent as nat, 0x2000);
        let unit = pow2((number.exponent - bottom) as nat);
        assert(parts * unit == scale * measure(number)) by (nonlinear_arith)
            requires
                parts == scale * number.significand,
                measure(number) == number.significand * unit,
        ;
    } else {
        let unit = pow2((-number.exponent) as nat);
        let rest = pow2((number.exponent - bottom) as nat);
        lemma_pow2_pos((-number.exponent) as nat);
        lemma_pow2_pos((number.exponent - bottom) as nat);
        lemma_pow2_adds((-number.exponent) as nat, (number.exponent - bottom) as nat);
        vstd::arithmetic::div_mod::lemma_fundamental_div_mod(parts as int, unit as int);
        vstd::arithmetic::div_mod::lemma_mod_bound(parts as int, unit as int);
        let (q, r) = (parts / unit, parts % unit);
        let gap = parts - unit * c;
        assert(2 * gap <= unit && 2 * (0 - gap) <= unit) by (nonlinear_arith)
            requires
                gap == parts - unit * c,
                parts == unit * q + r,
                0 <= r < unit,
                (c == q && 2 * r <= unit) || (c == q + 1 && 2 * r >= unit),
        ;
        assert(2 * (c * one() - scale * measure(number)) <= one() && 2 * (scale * measure(number)
            - c * one()) <= one()) by (nonlinear_arith)
            requires
                gap == parts - unit * c,
                2 * gap <= unit,
                2 * (0 - gap) <= unit,
                one() == unit * rest,
                measure(number) == number.significand * rest,
                parts == scale * number.significand,
                rest > 0,
        {
            assert((2 * gap) * rest <= unit * rest);
            assert((2 * (0 - gap)) * rest <= unit * rest);
            assert(c * one() == unit * c * rest);
            assert(scale * measure(number) == parts * rest);
            assert(gap * rest == scale * measure(number) - c * one());
        }
    }
}

} // verus!
