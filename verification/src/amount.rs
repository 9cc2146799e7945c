//! Fixed-precision decimal amounts.
//!
//! An [`Amount`] is a 96-bit signed mantissa together with a scale between 0
//! and 28: the number `mantissa / 10^scale`. Its arithmetic is carried out by
//! the `rust_decimal` crate; this module states what that arithmetic returns
//! over the mathematical model [`Dec`].

use rust_decimal::Decimal;
use vstd::arithmetic::power::pow;
use vstd::prelude::*;

verus! {

/// The largest number of fractional digits an amount can carry.
pub const MAX_SCALE: u32 = 28;

/// Two to the power 96: every mantissa lies strictly between the negative of
/// this value and this value.
pub const MANTISSA_LIMIT: i128 = 79_228_162_514_264_337_593_543_950_336;

/// The mathematical model of an amount: the number `mantissa / 10^scale`.
pub struct Dec {
    pub mantissa: int,
    pub scale: nat,
}

impl Dec {
    /// The representation fits the 96 bits and 28 digits of a stored amount.
    pub open spec fn wf(self) -> bool {
        &&& self.scale <= MAX_SCALE
        &&& -MANTISSA_LIMIT < self.mantissa < MANTISSA_LIMIT
    }

    /// The mantissa that this number has when it is written with `scale`
    /// fractional digits, for a `scale` that is not below its own.
    pub open spec fn aligned(self, scale: nat) -> int {
        self.mantissa * pow(10, (scale - self.scale) as nat)
    }

    /// The number in units of `10^-28`, in which any two amounts compare.
    pub open spec fn units(self) -> int {
        self.aligned(MAX_SCALE as nat)
    }

    /// Both representations stand for the same number.
    pub open spec fn same_value(self, other: Dec) -> bool {
        self.units() == other.units()
    }

    /// This number is strictly below `other`.
    pub open spec fn less_than(self, other: Dec) -> bool {
        self.units() < other.units()
    }

    /// The larger of the two scales.
    pub open spec fn common_scale(self, other: Dec) -> nat {
        if self.scale >= other.scale {
            self.scale
        } else {
            other.scale
        }
    }

    /// The same number with the opposite sign.
    pub open spec fn negated(self) -> Dec {
        Dec { mantissa: -self.mantissa, scale: self.scale }
    }

    /// The sum without any rounding. A zero operand leaves the other operand
    /// as it is; otherwise the sum is written at the larger of the two scales.
    pub open spec fn exact_plus(self, other: Dec) -> Dec {
        if self.mantissa == 0 {
            other
        } else if other.mantissa == 0 {
            self
        } else {
            let scale = self.common_scale(other);
            Dec { mantissa: self.aligned(scale) + other.aligned(scale), scale }
        }
    }

    /// The difference without any rounding, written as `exact_plus` writes a
    /// sum.
    pub open spec fn exact_minus(self, other: Dec) -> Dec {
        if self.mantissa == 0 {
            other.negated()
        } else if other.mantissa == 0 {
            self
        } else {
            let scale = self.common_scale(other);
            Dec { mantissa: self.aligned(scale) - other.aligned(scale), scale }
        }
    }

    /// The unrounded sum can be stored.
    pub open spec fn adds_exactly(self, other: Dec) -> bool {
        self.exact_plus(other).wf()
    }

    /// The unrounded difference can be stored.
    pub open spec fn subtracts_exactly(self, other: Dec) -> bool {
        self.exact_minus(other).wf()
    }

    /// The number written with `scale` fractional digits, for a `scale` of at
    /// most 28. Digits that are dropped round half away from zero. Digits are
    /// added only as far as the mantissa stays within 96 bits, so the result
    /// may have fewer than `scale` of them.
    pub open spec fn rescaled(self, scale: nat) -> Dec {
        if self.scale == scale {
            self
        } else if self.mantissa == 0 {
            Dec { mantissa: 0, scale }
        } else if self.scale > scale {
            Dec {
                mantissa: round_half_away(
                    self.mantissa,
                    pow(10, (self.scale - scale) as nat),
                ),
                scale,
            }
        } else {
            let digits = headroom(self.mantissa, (scale - self.scale) as nat);
            Dec { mantissa: self.mantissa * pow(10, digits), scale: self.scale + digits }
        }
    }

    /// The sum as decimal arithmetic delivers it: the unrounded sum where it
    /// can be stored, else the rounded sum that `rust_decimal` computes, and
    /// `None` where even that overflows.
    pub open spec fn plus(self, other: Dec) -> Option<Dec> {
        if self.adds_exactly(other) {
            Some(self.exact_plus(other))
        } else {
            match decimal_sum(self.mantissa, self.scale, other.mantissa, other.scale) {
                Some((mantissa, scale)) => Some(Dec { mantissa, scale }),
                None => None,
            }
        }
    }

    /// The difference as decimal arithmetic delivers it, in the way of `plus`.
    pub open spec fn minus(self, other: Dec) -> Option<Dec> {
        if self.subtracts_exactly(other) {
            Some(self.exact_minus(other))
        } else {
            match decimal_difference(self.mantissa, self.scale, other.mantissa, other.scale) {
                Some((mantissa, scale)) => Some(Dec { mantissa, scale }),
                None => None,
            }
        }
    }
}

/// The quotient of `mantissa` by a positive `divisor`, rounded to the nearest
/// integer, a half going away from zero.
pub open spec fn round_half_away(mantissa: int, divisor: int) -> int {
    if mantissa >= 0 {
        (mantissa + divisor / 2) / divisor
    } else {
        -((-mantissa + divisor / 2) / divisor)
    }
}

/// How many times, at most `digits` times, `mantissa` can be multiplied by ten
/// and stay within 96 bits.
pub open spec fn headroom(mantissa: int, digits: nat) -> nat
    decreases digits,
{
    if digits == 0 || mantissa * 10 >= MANTISSA_LIMIT || mantissa * 10 <= -MANTISSA_LIMIT {
        0
    } else {
        1 + headroom(mantissa * 10, (digits - 1) as nat)
    }
}

/// What `Decimal::checked_add` returns for `a_mantissa / 10^a_scale` and
/// `b_mantissa / 10^b_scale`: mantissa and scale of the sum, or `None` on
/// overflow.
pub uninterp spec fn decimal_sum(a_mantissa: int, a_scale: nat, b_mantissa: int, b_scale: nat)
    -> Option<(int, nat)>;

/// What `Decimal::checked_sub` returns for `a_mantissa / 10^a_scale` and
/// `b_mantissa / 10^b_scale`: mantissa and scale of the difference, or `None`
/// on overflow.
pub uninterp spec fn decimal_difference(
    a_mantissa: int,
    a_scale: nat,
    b_mantissa: int,
    b_scale: nat,
) -> Option<(int, nat)>;

/// Two numbers of one scale add and subtract mantissa by mantissa.
pub proof fn lemma_equal_scales(a: Dec, d: Dec)
    requires
        a.scale == d.scale,
    ensures
        a.exact_plus(d) == (Dec { mantissa: a.mantissa + d.mantissa, scale: a.scale }),
        a.exact_minus(d) == (Dec { mantissa: a.mantissa - d.mantissa, scale: a.scale }),
        a.less_than(d) == (a.mantissa < d.mantissa),
        a.same_value(d) == (a.mantissa == d.mantissa),
{
    lemma_aligned_at_own_scale(a);
    lemma_aligned_at_own_scale(d);
    let unit = pow(10, (MAX_SCALE - a.scale) as nat);
    vstd::arithmetic::power::lemma_pow_positive(10, (MAX_SCALE - a.scale) as nat);
    assert((a.mantissa * unit < d.mantissa * unit) == (a.mantissa < d.mantissa))
        by (nonlinear_arith)
        requires
            unit > 0,
    ;
    assert((a.mantissa * unit == d.mantissa * unit) == (a.mantissa == d.mantissa))
        by (nonlinear_arith)
        requires
            unit > 0,
    ;
}

/// Taking an amount away and adding it again gives back the number one
/// started from, as long as nothing is rounded.
pub proof fn lemma_minus_then_plus(a: Dec, d: Dec)
    requires
        a.wf(),
        d.wf(),
    ensures
        a.exact_minus(d).exact_plus(d).same_value(a),
{
    let between = a.exact_minus(d);
    let back = between.exact_plus(d);
    lemma_aligned_at_own_scale(between);
    lemma_aligned_at_own_scale(d);
    if d.mantissa == 0 {
        if a.mantissa == 0 {
            lemma_zero_units(back);
            lemma_zero_units(a);
        }
    } else if a.mantissa == 0 {
        assert(back.mantissa == 0) by {
            assert(between.aligned(d.scale) == -d.mantissa);
            assert(d.aligned(d.scale) == d.mantissa);
        }
        lemma_zero_units(back);
        lemma_zero_units(a);
    } else {
        let scale = a.common_scale(d);
        lemma_realign(a, scale);
        lemma_realign(d, scale);
        if between.mantissa != 0 {
            assert(between.aligned(scale) == between.mantissa);
            assert(back == Dec { mantissa: a.aligned(scale), scale });
            lemma_realign(back, scale);
            lemma_aligned_at_own_scale(back);
        }
    }
}

/// Adding an amount and taking it away again gives back the number one
/// started from, as long as nothing is rounded.
pub proof fn lemma_plus_then_minus(a: Dec, d: Dec)
    requires
        a.wf(),
        d.wf(),
    ensures
        a.exact_plus(d).exact_minus(d).same_value(a),
{
    let between = a.exact_plus(d);
    let back = between.exact_minus(d);
    lemma_aligned_at_own_scale(between);
    lemma_aligned_at_own_scale(d);
    if d.mantissa == 0 {
        if a.mantissa == 0 {
            lemma_zero_units(back);
            lemma_zero_units(a);
        }
    } else if a.mantissa == 0 {
        assert(back.mantissa == 0) by {
            assert(between.aligned(d.scale) == d.mantissa);
            assert(d.aligned(d.scale) == d.mantissa);
        }
        lemma_zero_units(back);
        lemma_zero_units(a);
    } else {
        let scale = a.common_scale(d);
        lemma_realign(a, scale);
        lemma_realign(d, scale);
        if between.mantissa == 0 {
            assert(back == d.negated());
            assert(a.aligned(scale) == -d.aligned(scale));
            assert(back.units() == -d.units()) by (nonlinear_arith)
                requires
                    back.units() == (-d.mantissa) * pow(10, (MAX_SCALE - d.scale) as nat),
                    d.units() == d.mantissa * pow(10, (MAX_SCALE - d.scale) as nat),
            ;
            assert(a.units() == -d.units()) by (nonlinear_arith)
                requires
                    a.aligned(scale) == -d.aligned(scale),
                    a.aligned(scale) * pow(10, (MAX_SCALE - scale) as nat) == a.units(),
                    d.aligned(scale) * pow(10, (MAX_SCALE - scale) as nat) == d.units(),
            ;
        } else {
            assert(between.aligned(scale) == between.mantissa);
            assert(back == Dec { mantissa: a.aligned(scale), scale });
            lemma_realign(back, scale);
            lemma_aligned_at_own_scale(back);
        }
    }
}

/// At its own scale a number has its own mantissa.
proof fn lemma_aligned_at_own_scale(a: Dec)
    ensures
        a.aligned(a.scale) == a.mantissa,
{
    vstd::arithmetic::power::lemma_pow0(10);
    assert(a.mantissa * pow(10, 0) == a.mantissa) by (nonlinear_arith)
        requires
            pow(10, 0) == 1,
    ;
}

/// Zero is zero at every scale.
proof fn lemma_zero_units(a: Dec)
    requires
        a.mantissa == 0,
    ensures
        a.units() == 0,
{
}

/// Writing a number with `scale` digits first and with 28 digits then gives
/// its mantissa at 28 digits.
proof fn lemma_realign(a: Dec, scale: nat)
    requires
        a.scale <= scale <= MAX_SCALE,
    ensures
        a.aligned(scale) * pow(10, (MAX_SCALE - scale) as nat) == a.units(),
{
    let up = (scale - a.scale) as nat;
    let rest = (MAX_SCALE - scale) as nat;
    vstd::arithmetic::power::lemma_pow_adds(10, up, rest);
    assert(a.mantissa * pow(10, up) * pow(10, rest) == a.mantissa * (pow(10, up) * pow(10, rest)))
        by (nonlinear_arith);
}

/// A decimal number with a 96-bit mantissa and at most 28 fractional digits.
#[derive(Clone, Copy, Debug)]
pub struct Amount {
    mantissa: i128,
    scale: u32,
}

impl View for Amount {
    type V = Dec;

    closed spec fn view(&self) -> Dec {
        Dec { mantissa: self.mantissa as int, scale: self.scale as nat }
    }
}

impl Amount {
    #[verifier::type_invariant]
    spec fn representable(self) -> bool {
        self@.wf()
    }

    /// The amount `mantissa / 10^scale`, if it can be stored.
    pub fn new(mantissa: i128, scale: u32) -> (r: Option<Amount>)
        ensures
            r is Some <==> (Dec { mantissa: mantissa as int, scale: scale as nat }).wf(),
            r matches Some(a) ==> a@ == (Dec { mantissa: mantissa as int, scale: scale as nat }),
    {
        if scale <= MAX_SCALE && -MANTISSA_LIMIT < mantissa && mantissa < MANTISSA_LIMIT {
            Some(Amount { mantissa, scale })
        } else {
            None
        }
    }

    /// Zero, with no fractional digits.
    pub fn zero() -> (r: Amount)
        ensures
            r@ == (Dec { mantissa: 0, scale: 0 }),
    {
        Amount { mantissa: 0, scale: 0 }
    }

    /// The mantissa of this amount.
    pub fn mantissa(&self) -> (r: i128)
        ensures
            r == self@.mantissa,
            self@.wf(),
    {
        proof {
            use_type_invariant(self);
        }
        self.mantissa
    }

    /// The number of fractional digits of this amount.
    pub fn scale(&self) -> (r: u32)
        ensures
            r == self@.scale,
            self@.wf(),
    {
        proof {
            use_type_invariant(self);
        }
        self.scale
    }

    /// The sum of two amounts, or `None` where it overflows.
    pub fn checked_add(self, other: Amount) -> (r: Option<Amount>)
        ensures
            r is Some <==> self@.plus(other@) is Some,
            r matches Some(sum) ==> self@.plus(other@) == Some(sum@) && sum@.wf(),
    {
        proof {
            use_type_invariant(&self);
            use_type_invariant(&other);
        }
        decimal_checked_add(self, other)
    }

    /// The difference of two amounts, or `None` where it overflows.
    pub fn checked_sub(self, other: Amount) -> (r: Option<Amount>)
        ensures
            r is Some <==> self@.minus(other@) is Some,
            r matches Some(difference) ==> self@.minus(other@) == Some(difference@)
                && difference@.wf(),
    {
        proof {
            use_type_invariant(&self);
            use_type_invariant(&other);
        }
        decimal_checked_sub(self, other)
    }

    /// Whether this amount is strictly below `other`.
    pub fn less_than(&self, other: &Amount) -> (r: bool)
        ensures
            r == self@.less_than(other@),
    {
        proof {
            use_type_invariant(self);
            use_type_invariant(other);
        }
        decimal_lt(*self, *other)
    }

    /// This amount written with `scale` fractional digits.
    pub fn rescale(self, scale: u32) -> (r: Amount)
        requires
            scale <= MAX_SCALE,
        ensures
            r@ == self@.rescaled(scale as nat),
            r@.wf(),
    {
        proof {
            use_type_invariant(&self);
        }
        let r = decimal_rescale(self, scale);
        proof {
            use_type_invariant(&r);
        }
        r
    }
}

impl PartialEq for Amount {
    /// Two amounts are equal when they stand for the same number, whatever
    /// their scales.
    fn eq(&self, other: &Amount) -> (r: bool) {
        proof {
            use_type_invariant(self);
            use_type_invariant(other);
        }
        decimal_eq(*self, *other)
    }
}

impl vstd::std_specs::cmp::PartialEqSpecImpl for Amount {
    open spec fn obeys_eq_spec() -> bool {
        true
    }

    open spec fn eq_spec(&self, other: &Amount) -> bool {
        self@.same_value(other@)
    }
}

impl From<i32> for Amount {
    /// The whole number `n`, with no fractional digits.
    fn from(n: i32) -> (r: Amount)
        ensures
            r@ == (Dec { mantissa: n as int, scale: 0 }),
    {
        Amount { mantissa: n as i128, scale: 0 }
    }
}

impl vstd::std_specs::convert::FromSpecImpl<i32> for Amount {
    open spec fn obeys_from_spec() -> bool {
        true
    }

    closed spec fn from_spec(n: i32) -> Amount {
        Amount { mantissa: n as i128, scale: 0 }
    }
}

/// Calls `Decimal::checked_add` on the two amounts. The contract claims that
/// the result is the named sum of the operands' mantissas and scales; that a
/// result is again a 96-bit mantissa with a scale of at most 28; and that
/// where the unrounded sum can be stored the call returns exactly it: the other
/// operand where one is zero, else the sum at the larger scale.
#[verifier::external_body]
fn decimal_checked_add(a: Amount, b: Amount) -> (r: Option<Amount>)
    requires
        a@.wf(),
        b@.wf(),
    ensures
        match r {
            Some(c) => c@.wf() && decimal_sum(a@.mantissa, a@.scale, b@.mantissa, b@.scale)
                == Some((c@.mantissa, c@.scale)),
            None => decimal_sum(a@.mantissa, a@.scale, b@.mantissa, b@.scale) is None,
        },
        a@.adds_exactly(b@) ==> r is Some && r->0@ == a@.exact_plus(b@),
{
    let x = Decimal::from_i128_with_scale(a.mantissa, a.scale);
    let y = Decimal::from_i128_with_scale(b.mantissa, b.scale);
    match x.checked_add(y) {
        Some(d) => Some(Amount { mantissa: d.mantissa(), scale: d.scale() }),
        None => None,
    }
}

/// Calls `Decimal::checked_sub` on the two amounts. The contract claims of the
/// difference what `decimal_checked_add` claims of the sum; with a zero first
/// operand the unrounded difference is the second operand with its sign
/// turned.
#[verifier::external_body]
fn decimal_checked_sub(a: Amount, b: Amount) -> (r: Option<Amount>)
    requires
        a@.wf(),
        b@.wf(),
    ensures
        match r {
            Some(c) => c@.wf() && decimal_difference(a@.mantissa, a@.scale, b@.mantissa, b@.scale)
                == Some((c@.mantissa, c@.scale)),
            None => decimal_difference(a@.mantissa, a@.scale, b@.mantissa, b@.scale) is None,
        },
        a@.subtracts_exactly(b@) ==> r is Some && r->0@ == a@.exact_minus(b@),
{
    let x = Decimal::from_i128_with_scale(a.mantissa, a.scale);
    let y = Decimal::from_i128_with_scale(b.mantissa, b.scale);
    match x.checked_sub(y) {
        Some(d) => Some(Amount { mantissa: d.mantissa(), scale: d.scale() }),
        None => None,
    }
}

/// Compares the two amounts with `<` of `Decimal`. The contract claims that
/// the comparison is that of the two numbers, whatever their scales.
#[verifier::external_body]
fn decimal_lt(a: Amount, b: Amount) -> (r: bool)
    requires
        a@.wf(),
        b@.wf(),
    ensures
        r == a@.less_than(b@),
{
    let x = Decimal::from_i128_with_scale(a.mantissa, a.scale);
    let y = Decimal::from_i128_with_scale(b.mantissa, b.scale);
    x < y
}

/// Compares the two amounts with `==` of `Decimal`. The contract claims that
/// two amounts are equal exactly when they stand for the same number.
#[verifier::external_body]
fn decimal_eq(a: Amount, b: Amount) -> (r: bool)
    requires
        a@.wf(),
        b@.wf(),
    ensures
        r == a@.same_value(b@),
{
    let x = Decimal::from_i128_with_scale(a.mantissa, a.scale);
    let y = Decimal::from_i128_with_scale(b.mantissa, b.scale);
    x == y
}

/// Calls `Decimal::rescale` on the amount. The contract claims what the
/// method's documentation says: an equal scale changes nothing, zero takes the
/// new scale, a smaller scale rounds half away from zero, and a larger scale
/// adds as many zero digits as the 96 bits of the mantissa allow.
#[verifier::external_body]
fn decimal_rescale(a: Amount, scale: u32) -> (r: Amount)
    requires
        a@.wf(),
        scale <= MAX_SCALE,
    ensures
        r@ == a@.rescaled(scale as nat),
{
    let mut d = Decimal::from_i128_with_scale(a.mantissa, a.scale);
    d.rescale(scale);
    Amount { mantissa: d.mantissa(), scale: d.scale() }
}

} // verus!
