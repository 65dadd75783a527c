//! Fixed-point decimal numbers with fifteen decimal places.
//!
//! The value of a `Number` is an unsigned integer below 2^192, read as that
//! integer divided by 10^15. The arithmetic itself is done by
//! `jet_proto_math::Number`; the functions here convert to and from that type
//! and state, for each operation, the result it computes and the inputs on
//! which it panics (an `Option` that is `None` exactly there).
use vstd::prelude::*;

verus! {

/// The raw value of `Number::ONE`: ten to the fifteenth.
pub open spec fn one() -> nat {
    1_000_000_000_000_000
}

/// Raw values are unsigned 192-bit integers: they stay below this bound.
pub open spec fn limit() -> nat {
    0x1_0000_0000_0000_0000_0000_0000_0000_0000_0000_0000_0000_0000nat
}

/// One more than the largest `u64`.
pub open spec fn u64_limit() -> nat {
    0x1_0000_0000_0000_0000
}

/// Ten to the power `n`.
pub open spec fn pow10(n: nat) -> nat
    decreases n,
{
    if n == 0 {
        1
    } else {
        10 * pow10((n - 1) as nat)
    }
}

/// Raw value of the sum, unless it overflows 192 bits.
pub open spec fn add_spec(a: nat, b: nat) -> Option<nat> {
    if a + b < limit() {
        Some(a + b)
    } else {
        None
    }
}

/// Raw value of the difference, unless it would be negative.
pub open spec fn sub_spec(a: nat, b: nat) -> Option<nat> {
    if b <= a {
        Some((a - b) as nat)
    } else {
        None
    }
}

/// Raw value of the fixed-point product: the raw product, truncated by one
/// unit of precision; `None` where the raw product overflows 192 bits.
pub open spec fn mul_spec(a: nat, b: nat) -> Option<nat> {
    if a * b < limit() {
        Some(a * b / one())
    } else {
        None
    }
}

/// Raw value of the fixed-point quotient; `None` for a zero divisor or where
/// the scaled dividend overflows 192 bits.
pub open spec fn div_spec(a: nat, b: nat) -> Option<nat> {
    if b != 0 && a * one() < limit() {
        Some(a * one() / b)
    } else {
        None
    }
}

/// `add_spec` lifted to results that may already have failed.
pub open spec fn add_o(a: Option<nat>, b: Option<nat>) -> Option<nat> {
    match (a, b) {
        (Some(x), Some(y)) => add_spec(x, y),
        _ => None,
    }
}

/// `sub_spec` lifted to results that may already have failed.
pub open spec fn sub_o(a: Option<nat>, b: Option<nat>) -> Option<nat> {
    match (a, b) {
        (Some(x), Some(y)) => sub_spec(x, y),
        _ => None,
    }
}

/// `mul_spec` lifted to results that may already have failed.
pub open spec fn mul_o(a: Option<nat>, b: Option<nat>) -> Option<nat> {
    match (a, b) {
        (Some(x), Some(y)) => mul_spec(x, y),
        _ => None,
    }
}

/// `div_spec` lifted to results that may already have failed.
pub open spec fn div_o(a: Option<nat>, b: Option<nat>) -> Option<nat> {
    match (a, b) {
        (Some(x), Some(y)) => div_spec(x, y),
        _ => None,
    }
}

/// `as_u64_spec` lifted to results that may already have failed.
pub open spec fn as_u64_o(v: Option<nat>, exponent: int) -> Option<nat> {
    match v {
        Some(x) => as_u64_spec(x, exponent),
        None => None,
    }
}

/// The smaller of two values (the first where they are equal).
pub open spec fn min_nat(a: nat, b: nat) -> nat {
    if a <= b {
        a
    } else {
        b
    }
}

/// Raw value of `from_decimal(value, exponent)`: the value scaled to fifteen
/// decimals from `exponent` decimals, truncated; `None` where the exponent is
/// outside what the conversion supports.
pub open spec fn from_decimal_spec(value: nat, exponent: int) -> Option<nat> {
    let extra = 15 + exponent;
    if extra < -16 || extra > 16 {
        None
    } else if extra < 0 {
        Some(value / pow10((-extra) as nat))
    } else {
        Some(value * pow10(extra as nat))
    }
}

/// Convert a raw value (already rounded up front by `rounding`) to an
/// integer with `exponent` decimals; `None` on overflow or an unsupported
/// exponent.
pub open spec fn to_u64_core(v: nat, extra: int) -> Option<nat> {
    if extra < -16 || extra > 16 {
        None
    } else if extra < 0 {
        let t = v * pow10((-extra) as nat);
        if t >= limit() || t >= u64_limit() {
            None
        } else {
            Some(t)
        }
    } else {
        let t = v / pow10(extra as nat);
        if t >= u64_limit() {
            None
        } else {
            Some(t)
        }
    }
}

/// The value as an integer with `exponent` decimals, truncated.
pub open spec fn as_u64_spec(v: nat, exponent: int) -> Option<nat> {
    to_u64_core(v, 15 + exponent)
}

/// The value as an integer with `exponent` decimals, rounded half up.
pub open spec fn as_u64_rounded_spec(v: nat, exponent: int) -> Option<nat> {
    let extra = 15 + exponent;
    if extra < -16 || extra > 16 {
        None
    } else {
        let rounding: nat = if extra > 0 {
            pow10(extra as nat) / 2
        } else {
            0
        };
        if v + rounding >= limit() {
            None
        } else {
            to_u64_core(v + rounding, extra)
        }
    }
}

/// A non-negative decimal number with fifteen decimal places, held as the
/// three 64-bit words (least significant first) of its raw value.
#[derive(Clone, Copy, Debug, PartialEq, Eq, Structural)]
pub struct Number {
    lo: u64,
    mid: u64,
    hi: u64,
}

impl View for Number {
    type V = nat;

    /// The raw value: the number times 10^15.
    closed spec fn view(&self) -> nat {
        (self.lo + self.mid * 0x1_0000_0000_0000_0000 + self.hi
            * 0x1_0000_0000_0000_0000_0000_0000_0000_0000nat) as nat
    }
}

/// Two numbers with the same value are the same number.
pub proof fn lemma_view_injective(a: Number, b: Number)
    requires
        a@ == b@,
    ensures
        a == b,
{
    let base: int = 0x1_0000_0000_0000_0000;
    let v = a@ as int;
    let qa = a.mid + a.hi * base;
    let qb = b.mid + b.hi * base;
    assert(v == qa * base + a.lo) by (nonlinear_arith)
        requires
            v == a.lo + a.mid * base + a.hi * (base * base),
            qa == a.mid + a.hi * base,
    ;
    assert(v == qb * base + b.lo) by (nonlinear_arith)
        requires
            v == b.lo + b.mid * base + b.hi * (base * base),
            qb == b.mid + b.hi * base,
    ;
    vstd::arithmetic::div_mod::lemma_fundamental_div_mod_converse(v, base, qa, a.lo as int);
    vstd::arithmetic::div_mod::lemma_fundamental_div_mod_converse(v, base, qb, b.lo as int);
    vstd::arithmetic::div_mod::lemma_fundamental_div_mod_converse(qa, base, a.hi as int, a.mid as int);
    vstd::arithmetic::div_mod::lemma_fundamental_div_mod_converse(qb, base, b.hi as int, b.mid as int);
}

/// Number::mul of jet_proto_math: the raw values are multiplied as 192-bit
/// integers (panicking on overflow) and the product divided by 10^15.
#[verifier::external_body]
fn ext_mul(a: Number, b: Number) -> (r: Number)
    requires
        mul_spec(a@, b@) is Some,
    ensures
        r@ == mul_spec(a@, b@)->0,
{
    let x: jet_proto_math::Number = bytemuck::cast([a.lo, a.mid, a.hi]);
    let y: jet_proto_math::Number = bytemuck::cast([b.lo, b.mid, b.hi]);
    let w: [u64; 3] = bytemuck::cast(x * y);
    Number { lo: w[0], mid: w[1], hi: w[2] }
}

/// Number::div of jet_proto_math: the dividend's raw value is multiplied by
/// 10^15 (panicking on overflow) and divided by the divisor's raw value
/// (panicking on zero).
#[verifier::external_body]
fn ext_div(a: Number, b: Number) -> (r: Number)
    requires
        div_spec(a@, b@) is Some,
    ensures
        r@ == div_spec(a@, b@)->0,
{
    let x: jet_proto_math::Number = bytemuck::cast([a.lo, a.mid, a.hi]);
    let y: jet_proto_math::Number = bytemuck::cast([b.lo, b.mid, b.hi]);
    let w: [u64; 3] = bytemuck::cast(x / y);
    Number { lo: w[0], mid: w[1], hi: w[2] }
}

/// Number::add of jet_proto_math: 192-bit addition, panicking on overflow.
#[verifier::external_body]
fn ext_add(a: Number, b: Number) -> (r: Number)
    requires
        add_spec(a@, b@) is Some,
    ensures
        r@ == add_spec(a@, b@)->0,
{
    let x: jet_proto_math::Number = bytemuck::cast([a.lo, a.mid, a.hi]);
    let y: jet_proto_math::Number = bytemuck::cast([b.lo, b.mid, b.hi]);
    let w: [u64; 3] = bytemuck::cast(x + y);
    Number { lo: w[0], mid: w[1], hi: w[2] }
}

/// Number::sub of jet_proto_math: 192-bit subtraction, panicking when the
/// result would be negative.
#[verifier::external_body]
fn ext_sub(a: Number, b: Number) -> (r: Number)
    requires
        sub_spec(a@, b@) is Some,
    ensures
        r@ == sub_spec(a@, b@)->0,
{
    let x: jet_proto_math::Number = bytemuck::cast([a.lo, a.mid, a.hi]);
    let y: jet_proto_math::Number = bytemuck::cast([b.lo, b.mid, b.hi]);
    let w: [u64; 3] = bytemuck::cast(x - y);
    Number { lo: w[0], mid: w[1], hi: w[2] }
}

/// `From<u64>` for jet_proto_math's Number: the integer times 10^15.
#[verifier::external_body]
fn ext_from_u64(n: u64) -> (r: Number)
    ensures
        r@ == n * one(),
{
    let w: [u64; 3] = bytemuck::cast(jet_proto_math::Number::from(n));
    Number { lo: w[0], mid: w[1], hi: w[2] }
}

/// Number::from_decimal of jet_proto_math on a `u64` value.
#[verifier::external_body]
fn ext_from_decimal(value: u64, exponent: i32) -> (r: Number)
    requires
        from_decimal_spec(value as nat, exponent as int) is Some,
    ensures
        r@ == from_decimal_spec(value as nat, exponent as int)->0,
{
    let w: [u64; 3] = bytemuck::cast(jet_proto_math::Number::from_decimal(value, exponent));
    Number { lo: w[0], mid: w[1], hi: w[2] }
}

/// Number::from_bps of jet_proto_math: basis points as a decimal
/// (`from_decimal` with exponent -4).
#[verifier::external_body]
fn ext_from_bps(bps: u16) -> (r: Number)
    ensures
        r@ == from_decimal_spec(bps as nat, -4)->0,
{
    let w: [u64; 3] = bytemuck::cast(jet_proto_math::Number::from_bps(bps));
    Number { lo: w[0], mid: w[1], hi: w[2] }
}

/// Number::as_u64 of jet_proto_math: truncating conversion to an integer
/// with `exponent` decimals, panicking on overflow.
#[verifier::external_body]
fn ext_as_u64(a: Number, exponent: i32) -> (r: u64)
    requires
        as_u64_spec(a@, exponent as int) is Some,
    ensures
        r == as_u64_spec(a@, exponent as int)->0,
{
    let x: jet_proto_math::Number = bytemuck::cast([a.lo, a.mid, a.hi]);
    x.as_u64(exponent)
}

/// Number::as_u64_rounded of jet_proto_math: conversion rounded half up to
/// an integer with `exponent` decimals, panicking on overflow.
#[verifier::external_body]
fn ext_as_u64_rounded(a: Number, exponent: i32) -> (r: u64)
    requires
        as_u64_rounded_spec(a@, exponent as int) is Some,
    ensures
        r == as_u64_rounded_spec(a@, exponent as int)->0,
{
    let x: jet_proto_math::Number = bytemuck::cast([a.lo, a.mid, a.hi]);
    x.as_u64_rounded(exponent)
}

/// The derived `<` of jet_proto_math's Number, which orders by raw value.
#[verifier::external_body]
fn ext_lt(a: Number, b: Number) -> (r: bool)
    ensures
        r == (a@ < b@),
{
    let x: jet_proto_math::Number = bytemuck::cast([a.lo, a.mid, a.hi]);
    let y: jet_proto_math::Number = bytemuck::cast([b.lo, b.mid, b.hi]);
    x < y
}

impl Number {
    /// Zero.
    pub fn zero() -> (r: Number)
        ensures
            r@ == 0,
    {
        Number { lo: 0, mid: 0, hi: 0 }
    }

    /// One.
    pub fn one() -> (r: Number)
        ensures
            r@ == one(),
    {
        Number { lo: 1_000_000_000_000_000, mid: 0, hi: 0 }
    }

    /// The number whose raw 192-bit value has these words, least significant
    /// first.
    pub fn from_words(lo: u64, mid: u64, hi: u64) -> (r: Number)
        ensures
            r@ == lo + mid * 0x1_0000_0000_0000_0000 + hi
                * 0x1_0000_0000_0000_0000_0000_0000_0000_0000nat,
    {
        Number { lo, mid, hi }
    }

    /// The words of the raw value, least significant first.
    pub fn words(&self) -> (r: (u64, u64, u64))
        ensures
            self@ == r.0 + r.1 * 0x1_0000_0000_0000_0000 + r.2
                * 0x1_0000_0000_0000_0000_0000_0000_0000_0000nat,
    {
        (self.lo, self.mid, self.hi)
    }

    /// An integer as a number.
    pub fn from_u64(n: u64) -> (r: Number)
        ensures
            r@ == n * one(),
    {
        ext_from_u64(n)
    }

    /// An integer with `exponent` decimals as a number.
    pub fn from_decimal(value: u64, exponent: i32) -> (r: Number)
        requires
            -31 <= exponent <= 1,
        ensures
            r@ == from_decimal_spec(value as nat, exponent as int)->0,
    {
        ext_from_decimal(value, exponent)
    }

    /// Basis points as a number (10000 basis points are one).
    pub fn from_bps(bps: u16) -> (r: Number)
        ensures
            r@ == bps * 100_000_000_000,
    {
        let r = ext_from_bps(bps);
        proof {
            reveal_with_fuel(pow10, 12);
        }
        r
    }

    /// Sum.
    pub fn add(self, rhs: Number) -> (r: Number)
        requires
            add_spec(self@, rhs@) is Some,
        ensures
            r@ == self@ + rhs@,
    {
        ext_add(self, rhs)
    }

    /// Difference.
    pub fn sub(self, rhs: Number) -> (r: Number)
        requires
            rhs@ <= self@,
        ensures
            r@ == self@ - rhs@,
    {
        ext_sub(self, rhs)
    }

    /// Product.
    pub fn mul(self, rhs: Number) -> (r: Number)
        requires
            mul_spec(self@, rhs@) is Some,
        ensures
            r@ == mul_spec(self@, rhs@)->0,
    {
        ext_mul(self, rhs)
    }

    /// Quotient.
    pub fn div(self, rhs: Number) -> (r: Number)
        requires
            div_spec(self@, rhs@) is Some,
        ensures
            r@ == div_spec(self@, rhs@)->0,
    {
        ext_div(self, rhs)
    }

    /// The number as an integer with `exponent` decimals, truncated.
    pub fn as_u64(&self, exponent: i32) -> (r: u64)
        requires
            as_u64_spec(self@, exponent as int) is Some,
        ensures
            r == as_u64_spec(self@, exponent as int)->0,
    {
        ext_as_u64(*self, exponent)
    }

    /// The number as an integer with `exponent` decimals, rounded half up.
    pub fn as_u64_rounded(&self, exponent: i32) -> (r: u64)
        requires
            as_u64_rounded_spec(self@, exponent as int) is Some,
        ensures
            r == as_u64_rounded_spec(self@, exponent as int)->0,
    {
        ext_as_u64_rounded(*self, exponent)
    }

    /// Whether this number is smaller than `other`.
    pub fn lt(&self, other: &Number) -> (r: bool)
        ensures
            r == (self@ < other@),
    {
        ext_lt(*self, *other)
    }

    /// Whether this number is at most `other`.
    pub fn le(&self, other: &Number) -> (r: bool)
        ensures
            r == (self@ <= other@),
    {
        !ext_lt(*other, *self)
    }

    /// The smaller of two numbers (the first where they are equal).
    pub fn min(self, other: Number) -> (r: Number)
        ensures
            r@ == min_nat(self@, other@),
            r == self || r == other,
    {
        if self.le(&other) {
            self
        } else {
            other
        }
    }

    /// The larger of two numbers (the second where they are equal).
    pub fn max(self, other: Number) -> (r: Number)
        ensures
            r@ == (if other@ < self@ {
                self@
            } else {
                other@
            }),
            r == self || r == other,
    {
        if other.lt(&self) {
            self
        } else {
            other
        }
    }
}

} // verus!
