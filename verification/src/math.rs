//! Overflow-safe `i128` arithmetic.
//!
//! Financial contracts must never rely on wrapping arithmetic. Every value
//! computation routes through these helpers, which return an [`Error`] instead
//! of panicking, so that callers fail safely and deterministically.
use crate::errors::Error;
use vstd::prelude::*;

verus! {

/// Whether an integer is representable as an `i128`.
pub open spec fn in_range(x: int) -> bool {
    i128::MIN <= x <= i128::MAX
}

/// The integer as an `i128`, or the given error where it does not fit.
pub open spec fn narrow(x: int, e: Error) -> Result<i128, Error> {
    if in_range(x) {
        Ok(x as i128)
    } else {
        Err(e)
    }
}

/// The quotient rounded toward zero, for a non-zero divisor.
pub open spec fn quotient(a: int, b: int) -> int {
    if a >= 0 {
        if b > 0 {
            a / b
        } else {
            -(a / (-b))
        }
    } else {
        if b > 0 {
            -((-a) / b)
        } else {
            (-a) / (-b)
        }
    }
}

pub trait SafeAdd: Sized {
    spec fn safe_add_spec(self, other: Self) -> Result<Self, Error>;

    fn safe_add(self, other: Self) -> (r: Result<Self, Error>)
        ensures
            r == self.safe_add_spec(other),
    ;
}

pub trait SafeSub: Sized {
    spec fn safe_sub_spec(self, other: Self) -> Result<Self, Error>;

    fn safe_sub(self, other: Self) -> (r: Result<Self, Error>)
        ensures
            r == self.safe_sub_spec(other),
    ;
}

pub trait SafeMul: Sized {
    spec fn safe_mul_spec(self, other: Self) -> Result<Self, Error>;

    fn safe_mul(self, other: Self) -> (r: Result<Self, Error>)
        ensures
            r == self.safe_mul_spec(other),
    ;
}

pub trait SafeDiv: Sized {
    spec fn safe_div_spec(self, other: Self) -> Result<Self, Error>;

    fn safe_div(self, other: Self) -> (r: Result<Self, Error>)
        ensures
            r == self.safe_div_spec(other),
    ;
}

impl SafeAdd for i128 {
    open spec fn safe_add_spec(self, other: i128) -> Result<i128, Error> {
        narrow(self + other, Error::MathOverflow)
    }

    fn safe_add(self, other: i128) -> Result<i128, Error> {
        match self.checked_add(other) {
            Some(v) => Ok(v),
            None => Err(Error::MathOverflow),
        }
    }
}

impl SafeSub for i128 {
    open spec fn safe_sub_spec(self, other: i128) -> Result<i128, Error> {
        narrow(self - other, Error::Underflow)
    }

    fn safe_sub(self, other: i128) -> Result<i128, Error> {
        match self.checked_sub(other) {
            Some(v) => Ok(v),
            None => Err(Error::Underflow),
        }
    }
}

impl SafeMul for i128 {
    open spec fn safe_mul_spec(self, other: i128) -> Result<i128, Error> {
        narrow(self * other, Error::MathOverflow)
    }

    fn safe_mul(self, other: i128) -> Result<i128, Error> {
        match self.checked_mul(other) {
            Some(v) => Ok(v),
            None => Err(Error::MathOverflow),
        }
    }
}

impl SafeDiv for i128 {
    open spec fn safe_div_spec(self, other: i128) -> Result<i128, Error> {
        if other == 0 {
            Err(Error::DivisionByZero)
        } else {
            narrow(quotient(self as int, other as int), Error::MathOverflow)
        }
    }

    fn safe_div(self, other: i128) -> Result<i128, Error> {
        if other == 0 {
            return Err(Error::DivisionByZero);
        }
        match self.checked_div(other) {
            Some(v) => Ok(v),
            None => Err(Error::MathOverflow),
        }
    }
}

/// The sum, or [`Error::Overflow`].
pub fn checked_add(a: i128, b: i128) -> (r: Result<i128, Error>)
    ensures
        r == narrow(a + b, Error::Overflow),
{
    match a.safe_add(b) {
        Ok(v) => Ok(v),
        Err(_) => Err(Error::Overflow),
    }
}

/// The difference, or [`Error::Underflow`].
pub fn checked_sub(a: i128, b: i128) -> (r: Result<i128, Error>)
    ensures
        r == narrow(a - b, Error::Underflow),
{
    a.safe_sub(b)
}

/// The product, or [`Error::Overflow`].
pub fn checked_mul(a: i128, b: i128) -> (r: Result<i128, Error>)
    ensures
        r == narrow(a * b, Error::Overflow),
{
    match a.safe_mul(b) {
        Ok(v) => Ok(v),
        Err(_) => Err(Error::Overflow),
    }
}

/// The quotient rounded toward zero: [`Error::InvalidInput`] for a zero
/// divisor, [`Error::Overflow`] where the quotient does not fit.
pub fn checked_div(a: i128, b: i128) -> (r: Result<i128, Error>)
    ensures
        r == (if b == 0 {
            Err(Error::InvalidInput)
        } else {
            narrow(quotient(a as int, b as int), Error::Overflow)
        }),
{
    match a.safe_div(b) {
        Ok(v) => Ok(v),
        Err(e) => if e == Error::DivisionByZero {
            Err(Error::InvalidInput)
        } else {
            Err(Error::Overflow)
        },
    }
}

/// `a * b / d` rounded down, for a fraction `b / d` of at most one. The product
/// itself need not fit.
pub fn mul_div(a: i128, b: u64, d: u64) -> (r: i128)
    requires
        a >= 0,
        0 < d,
        b <= d,
    ensures
        r == (a as int * b as int) / d as int,
        0 <= r <= a,
{
    let whole: u128 = a as u128;
    let (part, of): (u128, u128) = (b as u128, d as u128);
    let q: u128 = whole / of;
    let m: u128 = whole % of;
    proof {
        lemma_mul_div(a as int, b as int, d as int);
        assert(m * part <= 0xffff_ffff_ffff_ffff * 0xffff_ffff_ffff_ffff) by (nonlinear_arith)
            requires
                m <= 0xffff_ffff_ffff_ffff,
                part <= 0xffff_ffff_ffff_ffff,
        ;
    }
    (q * part + m * part / of) as i128
}

proof fn lemma_mul_div(a: int, b: int, d: int)
    requires
        0 <= a,
        0 < d,
        0 <= b <= d,
    ensures
        (a * b) / d == (a / d) * b + ((a % d) * b) / d,
        0 <= (a * b) / d <= a,
        0 <= (a / d) * b <= a,
        0 <= ((a % d) * b) / d <= a,
{
    let q = a / d;
    let m = a % d;
    vstd::arithmetic::div_mod::lemma_fundamental_div_mod(a, d);
    assert(a * b == d * (q * b) + m * b) by (nonlinear_arith)
        requires
            a == d * q + m,
    ;
    assert(0 <= m * b) by (nonlinear_arith)
        requires
            0 <= m,
            0 <= b,
    ;
    vstd::arithmetic::div_mod::lemma_hoist_over_denominator(m * b, q * b, d as nat);
    assert(d * (q * b) == (q * b) * d) by (nonlinear_arith);
    assert(0 <= q) by (nonlinear_arith)
        requires
            a == d * q + m,
            m < d,
            0 <= a,
            0 < d,
    ;
    assert(0 <= q * b) by (nonlinear_arith)
        requires
            0 <= q,
            0 <= b,
    ;
    assert(a * b <= a * d) by (nonlinear_arith)
        requires
            0 <= a,
            b <= d,
    ;
    assert(0 <= a * b) by (nonlinear_arith)
        requires
            0 <= a,
            0 <= b,
    ;
    vstd::arithmetic::div_mod::lemma_div_is_ordered(a * b, a * d, d);
    vstd::arithmetic::div_mod::lemma_div_by_multiple(a, d);
    vstd::arithmetic::div_mod::lemma_div_pos_is_pos(a * b, d);
    vstd::arithmetic::div_mod::lemma_div_pos_is_pos(m * b, d);
}

/// The next identifier of a counter that starts at one, or
/// [`Error::Overflow`] once every identifier has been used.
pub fn next_id(count: u64) -> (r: Result<u64, Error>)
    ensures
        r == (if count == u64::MAX {
            Err::<u64, Error>(Error::Overflow)
        } else {
            Ok((count + 1) as u64)
        }),
{
    match count.checked_add(1) {
        Some(id) => Ok(id),
        None => Err(Error::Overflow),
    }
}

/// The results of the checked operations are the exact ones, wherever those fit;
/// a quotient is rounded toward zero.
pub proof fn checked_results_are_exact(x: int, e: Error, a: int, b: int)
    requires
        b != 0,
    ensures
        narrow(x, e) is Ok <==> i128::MIN <= x <= i128::MAX,
        narrow(x, e) is Ok ==> narrow(x, e)->Ok_0 == x,
        narrow(x, e) is Err ==> narrow(x, e)->Err_0 == e,
        ({
            let rest = a - quotient(a, b) * b;
            &&& a >= 0 ==> 0 <= rest
            &&& a <= 0 ==> rest <= 0
            &&& b > 0 ==> -b < rest < b
            &&& b < 0 ==> b < rest < -b
        }),
{
    let m = if a >= 0 {
        a
    } else {
        -a
    };
    let d = if b > 0 {
        b
    } else {
        -b
    };
    let q = m / d;
    vstd::arithmetic::div_mod::lemma_fundamental_div_mod(m, d);
    vstd::arithmetic::div_mod::lemma_mod_bound(m, d);
    assert(quotient(a, b) * b == (if a >= 0 {
        d * q
    } else {
        -(d * q)
    })) by (nonlinear_arith)
        requires
            quotient(a, b) == (if (a >= 0) == (b > 0) {
                q
            } else {
                -q
            }),
            d == (if b > 0 {
                b
            } else {
                -b
            }),
    ;
}

} // verus!
