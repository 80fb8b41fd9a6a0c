//! Exact fractions of 64-bit numbers, used for voting power and prices.
//!
//! Every arithmetic operation checks each 64-bit step and hands its result
//! back in lowest terms; comparisons answer `false` where a cross product
//! does not fit 64 bits.

use crate::error::WeightTableError;
use crate::gcd::{gcd, in_lowest_terms, lemma_equal_values_reduce_alike, lemma_reduced_is_lowest};
use vstd::prelude::*;
use vstd::std_specs::convert::{FromSpec, FromSpecImpl};

verus! {

/// A fraction of natural numbers: what a [`Weight`] stands for.
pub struct Ratio {
    pub num: nat,
    pub den: nat,
}

impl Ratio {
    /// Both parts fit 64 bits.
    pub open spec fn fits(self) -> bool {
        self.num <= u64::MAX && self.den <= u64::MAX
    }

    /// The two fractions denote the same rational number.
    pub open spec fn same_value(self, other: Ratio) -> bool {
        self.num * other.den == other.num * self.den
    }

    /// Both parts divided by their greatest common divisor.
    pub open spec fn reduced(self) -> Ratio {
        Ratio {
            num: self.num / gcd(self.num, self.den),
            den: self.den / gcd(self.num, self.den),
        }
    }

    /// The fraction cannot be reduced any further.
    pub open spec fn is_lowest_terms(self) -> bool {
        in_lowest_terms(self.num, self.den)
    }

    /// The greatest common divisor of the two parts, which a zero denominator
    /// does not have.
    pub open spec fn gcd(self) -> Result<nat, WeightTableError> {
        if self.den == 0 {
            Err(WeightTableError::DenominatorIsZero)
        } else {
            Ok(gcd(self.num, self.den))
        }
    }

    /// The lowest-terms form, which a zero denominator does not have.
    pub open spec fn simplify(self) -> Result<Ratio, WeightTableError> {
        if self.den == 0 {
            Err(WeightTableError::DenominatorIsZero)
        } else {
            Ok(self.reduced())
        }
    }

    /// The cross products `a * d` and `b * c` of `a/b` and `c/d`, where both
    /// fit 64 bits.
    pub open spec fn cross_products(self, other: Ratio) -> Option<(nat, nat)> {
        if self.num * other.den > u64::MAX || self.den * other.num > u64::MAX {
            None
        } else {
            Some((self.num * other.den, self.den * other.num))
        }
    }

    /// `a/b + c/d` as `(ad + bc) / bd` in lowest terms, where every step fits
    /// 64 bits.
    pub open spec fn checked_add(self, other: Ratio) -> Result<Ratio, WeightTableError> {
        let (a, b, c, d) = (self.num, self.den, other.num, other.den);
        if a * d > u64::MAX || b * c > u64::MAX || a * d + b * c > u64::MAX || b * d > u64::MAX {
            Err(WeightTableError::ArithmeticOverflow)
        } else {
            Ratio { num: a * d + b * c, den: b * d }.simplify()
        }
    }

    /// `a/b - c/d` as `(ad - bc) / bd` in lowest terms, where every step fits
    /// 64 bits and the difference is not negative. A difference of zero is
    /// `0/1`.
    pub open spec fn checked_sub(self, other: Ratio) -> Result<Ratio, WeightTableError> {
        let (a, b, c, d) = (self.num, self.den, other.num, other.den);
        if a * d > u64::MAX || b * c > u64::MAX || a * d < b * c || b * d > u64::MAX {
            Err(WeightTableError::ArithmeticOverflow)
        } else if a * d == b * c {
            Ok(Ratio { num: 0, den: 1 })
        } else {
            Ratio { num: (a * d - b * c) as nat, den: b * d }.simplify()
        }
    }

    /// `a/b * c/d` as `ac / bd` in lowest terms, where both products fit 64
    /// bits.
    pub open spec fn checked_mul(self, other: Ratio) -> Result<Ratio, WeightTableError> {
        let (a, b, c, d) = (self.num, self.den, other.num, other.den);
        if a * c > u64::MAX || b * d > u64::MAX {
            Err(WeightTableError::ArithmeticOverflow)
        } else {
            Ratio { num: a * c, den: b * d }.simplify()
        }
    }

    /// `a/b / c/d` as `ad / bc` in lowest terms, where the divisor is not zero
    /// and both products fit 64 bits.
    pub open spec fn checked_div(self, other: Ratio) -> Result<Ratio, WeightTableError> {
        let (a, b, c, d) = (self.num, self.den, other.num, other.den);
        if c == 0 {
            Err(WeightTableError::DenominatorIsZero)
        } else if a * d > u64::MAX || b * c > u64::MAX {
            Err(WeightTableError::ArithmeticOverflow)
        } else {
            Ratio { num: a * d, den: b * c }.simplify()
        }
    }
}

/// A fraction `numerator / denominator` of 64-bit numbers.
///
/// [`Weight::new`] refuses a zero denominator, and every operation that
/// succeeds returns a weight with a denominator other than zero.
#[derive(Debug, Clone, Copy, PartialEq, Eq)]
pub struct Weight {
    numerator: u64,
    denominator: u64,
}

impl View for Weight {
    type V = Ratio;

    closed spec fn view(&self) -> Ratio {
        Ratio { num: self.numerator as nat, den: self.denominator as nat }
    }
}

/// The outcome of an operation with each weight replaced by the fraction it
/// stands for.
pub open spec fn ratio_of(r: Result<Weight, WeightTableError>) -> Result<Ratio, WeightTableError> {
    match r {
        Ok(w) => Ok(w@),
        Err(e) => Err(e),
    }
}

/// `ad >= bc`.
fn at_least(ad: u64, bc: u64) -> (res: bool)
    ensures
        res == (ad >= bc),
{
    ad >= bc
}

/// `ad > bc`.
fn above(ad: u64, bc: u64) -> (res: bool)
    ensures
        res == (ad > bc),
{
    ad > bc
}

/// `ad < bc`.
fn below(ad: u64, bc: u64) -> (res: bool)
    ensures
        res == (ad < bc),
{
    ad < bc
}

/// `ad <= bc`.
fn at_most(ad: u64, bc: u64) -> (res: bool)
    ensures
        res == (ad <= bc),
{
    ad <= bc
}

/// `ad == bc`.
fn equal(ad: u64, bc: u64) -> (res: bool)
    ensures
        res == (ad == bc),
{
    ad == bc
}

/// `ad != bc`.
fn unequal(ad: u64, bc: u64) -> (res: bool)
    ensures
        res == (ad != bc),
{
    ad != bc
}

impl Weight {
    /// The denominator is not zero.
    pub open spec fn wf(&self) -> bool {
        self@.den != 0
    }

    /// The weight with exactly these parts.
    pub closed spec fn spec_from_parts(numerator: u64, denominator: u64) -> Weight {
        Weight { numerator, denominator }
    }

    /// The upper part of the fraction.
    pub fn numerator(&self) -> (n: u64)
        ensures
            n == self@.num,
    {
        self.numerator
    }

    /// The lower part of the fraction.
    pub fn denominator(&self) -> (d: u64)
        ensures
            d == self@.den,
    {
        self.denominator
    }

    /// The fraction `numerator / denominator`, unless the denominator is zero.
    pub fn new(numerator: u64, denominator: u64) -> (r: Result<Self, WeightTableError>)
        ensures
            denominator != 0 ==> ratio_of(r) == Ok::<Ratio, WeightTableError>(
                Ratio { num: numerator as nat, den: denominator as nat },
            ),
            denominator == 0 ==> r == Err::<Self, WeightTableError>(
                WeightTableError::DenominatorIsZero,
            ),
    {
        if denominator == 0 {
            return Err(WeightTableError::DenominatorIsZero);
        }
        Ok(Self { numerator, denominator })
    }

    /// The weight with exactly these parts, as it is read from a stored
    /// record. A zero denominator is kept as it is.
    pub fn from_parts(numerator: u64, denominator: u64) -> (w: Self)
        ensures
            w == Self::spec_from_parts(numerator, denominator),
            w@ == (Ratio { num: numerator as nat, den: denominator as nat }),
    {
        Self { numerator, denominator }
    }

    /// Tells whether the numerator is zero.
    pub fn is_zero(&self) -> (zero: bool)
        ensures
            zero == (self@.num == 0),
    {
        self.numerator == 0
    }

    /// The greatest common divisor of numerator and denominator.
    pub fn gcd(&self) -> (r: Result<u64, WeightTableError>)
        ensures
            match r {
                Ok(g) => self@.gcd() == Ok::<nat, WeightTableError>(g as nat),
                Err(e) => self@.gcd() == Err::<nat, WeightTableError>(e),
            },
    {
        if self.denominator == 0 {
            return Err(WeightTableError::DenominatorIsZero);
        }
        let mut a: u64 = self.numerator;
        let mut b: u64 = self.denominator;
        while a != 0
            invariant
                gcd(a as nat, b as nat) == gcd(self.numerator as nat, self.denominator as nat),
            decreases a,
        {
            let r: u64 = b % a;
            b = a;
            a = r;
        }
        Ok(b)
    }

    /// The same value in lowest terms.
    pub fn simplify(&self) -> (r: Result<Self, WeightTableError>)
        ensures
            ratio_of(r) == self@.simplify(),
            r is Ok ==> r->Ok_0@.is_lowest_terms() && r->Ok_0.wf(),
    {
        let gcd_value = self.gcd()?;
        proof {
            lemma_reduced_is_lowest(self@.num, self@.den);
        }
        Ok(
            Self {
                numerator: self.numerator / gcd_value,
                denominator: self.denominator / gcd_value,
            },
        )
    }

    /// Applies `compare` to the cross products `a * d` and `b * c` of
    /// `self = a/b` and `other = c/d`; `false` where one of them does not fit
    /// 64 bits.
    fn compare_weights<F>(&self, other: &Self, compare: F) -> (r: bool) where
        F: Fn(u64, u64) -> bool,

        requires
            forall|x: u64, y: u64| call_requires(compare, (x, y)),
        ensures
            match self@.cross_products(other@) {
                Some((ad, bc)) => call_ensures(compare, (ad as u64, bc as u64), r),
                None => !r,
            },
    {
        let ad = self.numerator.checked_mul(other.denominator);
        let bc = self.denominator.checked_mul(other.numerator);
        match (ad, bc) {
            (Some(ad), Some(bc)) => compare(ad, bc),
            _ => false,
        }
    }

    /// `self >= other`, decided by cross products; `false` where a cross
    /// product does not fit 64 bits.
    pub fn gte(&self, other: &Self) -> (r: bool)
        ensures
            r == (self@.cross_products(other@) matches Some((ad, bc)) && ad >= bc),
    {
        self.compare_weights(other, at_least)
    }

    /// `self > other`, decided by cross products; `false` where a cross
    /// product does not fit 64 bits.
    pub fn gt(&self, other: &Self) -> (r: bool)
        ensures
            r == (self@.cross_products(other@) matches Some((ad, bc)) && ad > bc),
    {
        self.compare_weights(other, above)
    }

    /// `self < other`, decided by cross products; `false` where a cross
    /// product does not fit 64 bits.
    pub fn lt(&self, other: &Self) -> (r: bool)
        ensures
            r == (self@.cross_products(other@) matches Some((ad, bc)) && ad < bc),
    {
        self.compare_weights(other, below)
    }

    /// `self <= other`, decided by cross products; `false` where a cross
    /// product does not fit 64 bits.
    pub fn lte(&self, other: &Self) -> (r: bool)
        ensures
            r == (self@.cross_products(other@) matches Some((ad, bc)) && ad <= bc),
    {
        self.compare_weights(other, at_most)
    }

    /// The two weights have the same value, decided by cross products;
    /// `false` where a cross product does not fit 64 bits.
    pub fn eq(&self, other: &Self) -> (r: bool)
        ensures
            r == (self@.cross_products(other@) matches Some((ad, bc)) && ad == bc),
    {
        self.compare_weights(other, equal)
    }

    /// The two weights differ in value, decided by cross products; `false`
    /// where a cross product does not fit 64 bits.
    pub fn neq(&self, other: &Self) -> (r: bool)
        ensures
            r == (self@.cross_products(other@) matches Some((ad, bc)) && ad != bc),
    {
        self.compare_weights(other, unequal)
    }

    /// `self > other` as rational numbers, whatever the size of the parts.
    pub fn exceeds(&self, other: &Self) -> (r: bool)
        ensures
            r == (self@.num * other@.den > other@.num * self@.den),
    {
        let (a, b) = (self.numerator as u128, self.denominator as u128);
        let (c, d) = (other.numerator as u128, other.denominator as u128);
        assert(a * d <= u128::MAX && c * b <= u128::MAX) by (nonlinear_arith)
            requires
                a <= u64::MAX,
                b <= u64::MAX,
                c <= u64::MAX,
                d <= u64::MAX,
        ;
        a * d > c * b
    }

    /// The sum of the two weights in lowest terms.
    pub fn checked_add(&self, other: &Self) -> (r: Result<Self, WeightTableError>)
        ensures
            ratio_of(r) == self@.checked_add(other@),
            r is Ok ==> r->Ok_0@.is_lowest_terms() && r->Ok_0.wf(),
    {
        let a = self.numerator;
        let b = self.denominator;
        let c = other.numerator;
        let d = other.denominator;

        let ad = a.checked_mul(d).ok_or(WeightTableError::ArithmeticOverflow)?;
        let bc = b.checked_mul(c).ok_or(WeightTableError::ArithmeticOverflow)?;
        let numerator = ad.checked_add(bc).ok_or(WeightTableError::ArithmeticOverflow)?;
        let denominator = b.checked_mul(d).ok_or(WeightTableError::ArithmeticOverflow)?;

        let weight = Self { numerator, denominator };
        weight.simplify()
    }

    /// The difference of the two weights in lowest terms.
    pub fn checked_sub(&self, other: &Self) -> (r: Result<Self, WeightTableError>)
        ensures
            ratio_of(r) == self@.checked_sub(other@),
            r is Ok ==> r->Ok_0@.is_lowest_terms() && r->Ok_0.wf(),
    {
        let a = self.numerator;
        let b = self.denominator;
        let c = other.numerator;
        let d = other.denominator;

        let ad = a.checked_mul(d).ok_or(WeightTableError::ArithmeticOverflow)?;
        let bc = b.checked_mul(c).ok_or(WeightTableError::ArithmeticOverflow)?;
        let numerator = ad.checked_sub(bc).ok_or(WeightTableError::ArithmeticOverflow)?;
        let denominator = b.checked_mul(d).ok_or(WeightTableError::ArithmeticOverflow)?;

        if numerator == 0 {
            assert(gcd(0, 1) == 1) by {
                reveal_with_fuel(gcd, 2);
            }
            return Ok(Self { numerator: 0, denominator: 1 });
        }
        let weight = Self { numerator, denominator };
        weight.simplify()
    }

    /// The product of the two weights in lowest terms.
    pub fn checked_mul(&self, other: &Self) -> (r: Result<Self, WeightTableError>)
        ensures
            ratio_of(r) == self@.checked_mul(other@),
            r is Ok ==> r->Ok_0@.is_lowest_terms() && r->Ok_0.wf(),
    {
        let a = self.numerator;
        let b = self.denominator;
        let c = other.numerator;
        let d = other.denominator;

        let numerator = a.checked_mul(c).ok_or(WeightTableError::ArithmeticOverflow)?;
        let denominator = b.checked_mul(d).ok_or(WeightTableError::ArithmeticOverflow)?;

        let weight = Self { numerator, denominator };
        weight.simplify()
    }

    /// The quotient of the two weights in lowest terms.
    pub fn checked_div(&self, other: &Self) -> (r: Result<Self, WeightTableError>)
        ensures
            ratio_of(r) == self@.checked_div(other@),
            r is Ok ==> r->Ok_0@.is_lowest_terms() && r->Ok_0.wf(),
    {
        if other.is_zero() {
            return Err(WeightTableError::DenominatorIsZero);
        }
        let a = self.numerator;
        let b = self.denominator;
        let c = other.numerator;
        let d = other.denominator;

        let numerator = a.checked_mul(d).ok_or(WeightTableError::ArithmeticOverflow)?;
        let denominator = b.checked_mul(c).ok_or(WeightTableError::ArithmeticOverflow)?;

        let weight = Self { numerator, denominator };
        weight.simplify()
    }

    /// Two weights that stand for the same fraction are the same weight, and
    /// the parts of a weight fit 64 bits.
    pub proof fn lemma_view_injective(a: Weight, b: Weight)
        ensures
            a@ == b@ ==> a == b,
            a@.fits(),
    {
    }

    /// The weight with given parts stands for the fraction with these parts.
    pub proof fn lemma_from_parts(numerator: u64, denominator: u64)
        ensures
            Self::spec_from_parts(numerator, denominator)@ == (Ratio {
                num: numerator as nat,
                den: denominator as nat,
            }),
    {
    }
}

impl Default for Weight {
    /// The zero weight `0/1`.
    fn default() -> (w: Self)
        ensures
            w@ == (Ratio { num: 0, den: 1 }),
    {
        Self { numerator: 0, denominator: 1 }
    }
}

impl From<u64> for Weight {
    /// The whole number `weight` as `weight/1`.
    fn from(weight: u64) -> (w: Self) {
        Self { numerator: weight, denominator: 1 }
    }
}

impl FromSpecImpl<u64> for Weight {
    open spec fn obeys_from_spec() -> bool {
        true
    }

    closed spec fn from_spec(weight: u64) -> Weight {
        Weight { numerator: weight, denominator: 1 }
    }
}

/// The weight made from a whole number stands for that number over one.
pub proof fn lemma_from_whole_number(value: u64)
    ensures
        <Weight as FromSpec<u64>>::from_spec(value)@ == (Ratio { num: value as nat, den: 1 }),
{
}

/// Every sum, difference, product and quotient that is computed is in lowest
/// terms and has a denominator other than zero.
pub proof fn lemma_results_in_lowest_terms(x: Ratio, y: Ratio)
    ensures
        x.checked_add(y) matches Ok(r) ==> r.is_lowest_terms() && r.den > 0 && r.fits(),
        x.checked_sub(y) matches Ok(r) ==> r.is_lowest_terms() && r.den > 0 && r.fits(),
        x.checked_mul(y) matches Ok(r) ==> r.is_lowest_terms() && r.den > 0 && r.fits(),
        x.checked_div(y) matches Ok(r) ==> r.is_lowest_terms() && r.den > 0 && r.fits(),
{
    let (a, b, c, d) = (x.num, x.den, y.num, y.den);
    assert(gcd(0, 1) == 1) by {
        reveal_with_fuel(gcd, 2);
    }
    if x.checked_add(y) is Ok {
        lemma_reduced_fits(Ratio { num: a * d + b * c, den: b * d });
    }
    if x.checked_sub(y) is Ok && a * d != b * c {
        lemma_reduced_fits(Ratio { num: (a * d - b * c) as nat, den: b * d });
    }
    if x.checked_mul(y) is Ok {
        lemma_reduced_fits(Ratio { num: a * c, den: b * d });
    }
    if x.checked_div(y) is Ok {
        lemma_reduced_fits(Ratio { num: a * d, den: b * c });
    }
}

/// Every sum, difference, product and quotient that is computed is exact: it
/// has the value of `(ad + bc) / bd`, `(ad - bc) / bd`, `ac / bd` and
/// `ad / bc` for the operands `a/b` and `c/d`.
pub proof fn lemma_results_are_exact(x: Ratio, y: Ratio)
    ensures
        x.checked_add(y) matches Ok(r) ==> r.same_value(
            Ratio { num: x.num * y.den + x.den * y.num, den: x.den * y.den },
        ),
        x.checked_sub(y) matches Ok(r) ==> x.num * y.den >= x.den * y.num && r.same_value(
            Ratio { num: (x.num * y.den - x.den * y.num) as nat, den: x.den * y.den },
        ),
        x.checked_mul(y) matches Ok(r) ==> r.same_value(
            Ratio { num: x.num * y.num, den: x.den * y.den },
        ),
        x.checked_div(y) matches Ok(r) ==> r.same_value(
            Ratio { num: x.num * y.den, den: x.den * y.num },
        ),
{
    let (a, b, c, d) = (x.num, x.den, y.num, y.den);
    if x.checked_add(y) is Ok {
        lemma_reduced_fits(Ratio { num: a * d + b * c, den: b * d });
    }
    if x.checked_sub(y) is Ok {
        if a * d == b * c {
            assert(0 * (b * d) == 0 && ((a * d - b * c) as nat) * 1 == 0) by (nonlinear_arith)
                requires
                    a * d == b * c,
            ;
        } else {
            lemma_reduced_fits(Ratio { num: (a * d - b * c) as nat, den: b * d });
        }
    }
    if x.checked_mul(y) is Ok {
        lemma_reduced_fits(Ratio { num: a * c, den: b * d });
    }
    if x.checked_div(y) is Ok {
        lemma_reduced_fits(Ratio { num: a * d, den: b * c });
    }
}

/// Reducing a fraction keeps its value and does not enlarge its parts.
pub proof fn lemma_reduced_fits(x: Ratio)
    requires
        x.den > 0,
    ensures
        x.reduced().is_lowest_terms(),
        x.reduced().den > 0,
        x.reduced().same_value(x),
        x.reduced().num <= x.num,
        x.reduced().den <= x.den,
{
    lemma_reduced_is_lowest(x.num, x.den);
    let g = gcd(x.num, x.den);
    let r = x.reduced();
    assert(r.num <= x.num && r.den <= x.den && r.num * x.den == x.num * r.den)
        by (nonlinear_arith)
        requires
            x.num == g * r.num,
            x.den == g * r.den,
            g > 0,
    ;
}

/// Where `sn/sd` is the sum `(ad + bc) / bd` with both parts divided by `g`,
/// the difference `sn/sd - c/d` has the parts `a * d * d` and `b * d * d`
/// divided by `g`.
proof fn lemma_difference_of_sum(a: int, b: int, c: int, d: int, g: int, sn: int, sd: int)
    requires
        a * d + b * c == g * sn,
        b * d == g * sd,
    ensures
        (sn * d - sd * c) * g == a * (d * d),
        (sd * d) * g == b * (d * d),
{
    assert((sn * d - sd * c) * g == (g * sn) * d - (g * sd) * c) by (nonlinear_arith);
    assert((a * d + b * c) * d - (b * d) * c == a * (d * d)) by (nonlinear_arith);
    assert((sd * d) * g == (g * sd) * d) by (nonlinear_arith);
    assert((b * d) * d == b * (d * d)) by (nonlinear_arith);
}

/// Adding a weight and then subtracting it again gives back the first weight
/// in lowest terms, where neither step overflows.
pub proof fn lemma_add_then_sub_round_trips(x: Ratio, y: Ratio)
    requires
        x.den > 0,
        y.den > 0,
        x.checked_add(y) is Ok,
        x.checked_add(y)->Ok_0.checked_sub(y) is Ok,
    ensures
        x.checked_add(y)->Ok_0.checked_sub(y)->Ok_0 == x.reduced(),
{
    let (a, b, c, d) = (x.num, x.den, y.num, y.den);
    let sum = Ratio { num: a * d + b * c, den: b * d };
    assert(sum.den > 0) by (nonlinear_arith)
        requires
            sum.den == b * d,
            b > 0,
            d > 0,
    ;
    let s = sum.reduced();
    assert(x.checked_add(y) == Ok::<Ratio, WeightTableError>(s));
    lemma_reduced_is_lowest(sum.num, sum.den);
    let g = gcd(sum.num, sum.den);
    // the parts of the difference before it is reduced, each times g
    let n2 = s.num * d - s.den * c;
    let d2 = s.den * d;
    lemma_difference_of_sum(
        a as int,
        b as int,
        c as int,
        d as int,
        g as int,
        s.num as int,
        s.den as int,
    );
    if n2 == 0 {
        assert(a == 0) by (nonlinear_arith)
            requires
                n2 * g == a * (d * d),
                n2 == 0,
                d > 0,
        ;
        assert(gcd(0, b) == b);
        assert(b / b == 1 && 0nat / b == 0) by (nonlinear_arith)
            requires
                b > 0,
        ;
    } else {
        assert(n2 > 0 && d2 > 0 && n2 * b == a * d2) by (nonlinear_arith)
            requires
                n2 * g == a * (d * d),
                d2 * g == b * (d * d),
                g > 0,
                n2 != 0,
                b > 0,
                d > 0,
                a >= 0,
        ;
        lemma_equal_values_reduce_alike(n2 as nat, d2, a, b);
    }
}

} // verus!
