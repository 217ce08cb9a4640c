//! Big integers, from `malachite`.
//!
//! ## Euclidean division
//!
//! By convention, the modulo is always non-negative. This implies that
//! division rounds down when divisor is positive, and rounds up when divisor
//! is negative.

use vstd::prelude::*;

verus! {

#[verifier::external_type_specification]
#[verifier::external_body]
pub struct ExInteger(malachite::Integer);

/// The value of a big integer.
pub uninterp spec fn int_value(i: malachite::Integer) -> int;

/// `malachite::Integer::from(isize)`: the integer of the given value.
#[verifier::external_body]
pub(crate) fn integer_from_isize(i: isize) -> (r: malachite::Integer)
    ensures
        int_value(r) == i,
{
    malachite::Integer::from(i)
}

/// `<malachite::Integer as PartialOrd>::lt`: compares two integers by value.
#[verifier::external_body]
pub(crate) fn integer_lt(a: &malachite::Integer, b: &malachite::Integer) -> (r: bool)
    ensures
        r == (int_value(*a) < int_value(*b)),
{
    a < b
}

/// `<&malachite::Integer as Rem>::rem`: the remainder of truncated division,
/// which has the sign of the dividend.
#[verifier::external_body]
pub(crate) fn integer_rem(a: &malachite::Integer, b: &malachite::Integer) -> (r: malachite::Integer)
    requires
        int_value(*b) != 0,
    ensures
        int_value(r) == if int_value(*a) >= 0 {
            int_value(*a) % abs(int_value(*b))
        } else {
            -((-int_value(*a)) % abs(int_value(*b)))
        },
{
    a % b
}

/// `<&malachite::Integer as Add>::add`: the sum of two integers.
#[verifier::external_body]
pub(crate) fn integer_add(a: &malachite::Integer, b: &malachite::Integer) -> (r: malachite::Integer)
    ensures
        int_value(r) == int_value(*a) + int_value(*b),
{
    a + b
}

/// `<&malachite::Integer as Mul>::mul`: the product of two integers.
#[verifier::external_body]
pub(crate) fn integer_mul(a: &malachite::Integer, b: &malachite::Integer) -> (r: malachite::Integer)
    ensures
        int_value(r) == int_value(*a) * int_value(*b),
{
    a * b
}

/// `<malachite::Integer as Neg>::neg`: the opposite of an integer.
#[verifier::external_body]
pub(crate) fn integer_neg(a: malachite::Integer) -> (r: malachite::Integer)
    ensures
        int_value(r) == -int_value(a),
{
    -a
}

/// `<&malachite::Integer as Abs>::abs`: the absolute value of an integer.
#[verifier::external_body]
pub(crate) fn integer_abs(a: &malachite::Integer) -> (r: malachite::Integer)
    ensures
        int_value(r) == abs(int_value(*a)),
{
    malachite::base::num::arithmetic::traits::Abs::abs(a)
}

/// `<malachite::Integer as PowerOf2<u64>>::power_of_2`: two to the given power.
#[verifier::external_body]
pub(crate) fn integer_power_of_2(n: u64) -> (r: malachite::Integer)
    ensures
        int_value(r) == vstd::arithmetic::power2::pow2(n as nat),
{
    <malachite::Integer as malachite::base::num::arithmetic::traits::PowerOf2<u64>>::power_of_2(n)
}

/// `<&malachite::Integer as Pow<u64>>::pow`: an integer raised to the given power.
#[verifier::external_body]
pub(crate) fn integer_pow(a: &malachite::Integer, n: u64) -> (r: malachite::Integer)
    ensures
        int_value(r) == vstd::arithmetic::power::pow(int_value(*a), n as nat),
{
    malachite::base::num::arithmetic::traits::Pow::pow(a, n)
}

/// `<malachite::Integer as PartialEq>::eq`: compares two integers by value.
#[verifier::external_body]
pub(crate) fn integer_eq(a: &malachite::Integer, b: &malachite::Integer) -> (r: bool)
    ensures
        r == (int_value(*a) == int_value(*b)),
{
    a == b
}

/// `u64::try_from(malachite::Integer::unsigned_abs_ref(..))`: the absolute value
/// of an integer, when it fits in a `u64`.
#[verifier::external_body]
pub(crate) fn integer_unsigned_abs_u64(a: &malachite::Integer) -> (r: Option<u64>)
    ensures
        r == if abs(int_value(*a)) <= u64::MAX {
            Some(abs(int_value(*a)) as u64)
        } else {
            None::<u64>
        },
{
    u64::try_from(a.unsigned_abs_ref()).ok()
}

/// `usize::try_from(malachite::Integer::unsigned_abs_ref(..))`: the absolute
/// value of an integer, when it fits in a `usize`.
#[verifier::external_body]
pub(crate) fn integer_unsigned_abs_usize(a: &malachite::Integer) -> (r: Option<usize>)
    ensures
        r == if abs(int_value(*a)) <= usize::MAX {
            Some(abs(int_value(*a)) as usize)
        } else {
            None::<usize>
        },
{
    usize::try_from(a.unsigned_abs_ref()).ok()
}

/// `isize::try_from(&malachite::Integer)`: the integer, when it fits in an `isize`.
#[verifier::external_body]
pub(crate) fn integer_to_isize(a: &malachite::Integer) -> (r: Option<isize>)
    ensures
        r == if isize::MIN <= int_value(*a) <= isize::MAX {
            Some(int_value(*a) as isize)
        } else {
            None::<isize>
        },
{
    isize::try_from(a).ok()
}

/// `<malachite::Integer as Display>`: the decimal notation of an integer, with
/// a leading `-` when it is negative.
#[verifier::external_body]
pub(crate) fn integer_to_string(a: &malachite::Integer) -> (r: String)
    ensures
        r@ == crate::text::decimal(int_value(*a)),
{
    a.to_string()
}

/// `<malachite::Integer as ToStringBase>::to_string_base_upper`: the digits of a
/// non-negative integer in the given base, with upper-case letters.
#[verifier::external_body]
pub(crate) fn integer_to_string_base_upper(a: &malachite::Integer, base: u8) -> (r: String)
    requires
        int_value(*a) >= 0,
        2 <= base <= 36,
    ensures
        r@ == crate::number_spec::base_digits(int_value(*a) as nat, base as nat),
{
    malachite::base::num::conversion::traits::ToStringBase::to_string_base_upper(a, base)
}

/// `<malachite::Integer as Clone>::clone` gives an integer of the same value.
pub assume_specification[ <malachite::Integer as Clone>::clone ](a: &malachite::Integer) -> (r: malachite::Integer)
    ensures
        int_value(r) == int_value(*a),
;

pub open spec fn abs(i: int) -> int {
    if i < 0 {
        -i
    } else {
        i
    }
}

/// `<&malachite::Integer as Sub>::sub`: the difference of two integers.
#[verifier::external_body]
pub(crate) fn integer_sub(a: &malachite::Integer, b: &malachite::Integer) -> (r: malachite::Integer)
    ensures
        int_value(r) == int_value(*a) - int_value(*b),
{
    a - b
}

proof fn lemma_neg_mod(x: int, y: int)
    requires
        y > 0,
        x < 0,
        (-x) % y != 0,
    ensures
        x % y == y - (-x) % y,
{
    let q = (-x) % y;
    vstd::arithmetic::div_mod::lemma_fundamental_div_mod(-x, y);
    vstd::arithmetic::div_mod::lemma_mod_bound(-x, y);
    let d = (-x) / y;
    assert(x == y * (-d - 1) + (y - q)) by (nonlinear_arith)
        requires
            (-x) == y * d + q,
    ;
    vstd::arithmetic::div_mod::lemma_fundamental_div_mod_converse(x, y, -d - 1, y - q);
}

/// Euclidean division: the remainder is always non-negative, so that the
/// quotient rounds down when the divisor is positive and up when it is
/// negative.
pub trait RemN<Rhs>: Sized {
    type Output;

    /// Whether the remainder of `self` by `rhs` is defined.
    spec fn euclidean_mod_defined(&self, rhs: &Rhs) -> bool;

    /// The Euclidean remainder of `self` by `rhs`.
    fn euclidean_mod(self, rhs: Rhs) -> Self::Output
        requires
            self.euclidean_mod_defined(&rhs),
    ;
}

impl<'a> RemN<&'a malachite::Integer> for malachite::Integer {
    type Output = malachite::Integer;

    /// Defined for every divisor but zero.
    open spec fn euclidean_mod_defined(&self, rhs: &&'a malachite::Integer) -> bool {
        int_value(**rhs) != 0
    }

    /// The Euclidean remainder of `self` by `b`: always non-negative.
    fn euclidean_mod(self, b: &'a malachite::Integer) -> (r: malachite::Integer)
        ensures
            int_value(r) == int_value(self) % abs(int_value(*b)),
    {
        let a = self;
        let zero = integer_from_isize(0);
        let m = integer_rem(&a, b);
        if integer_lt(&m, &zero) {
            let r = if integer_lt(&zero, b) {
                integer_add(&m, b)
            } else {
                integer_sub(&m, b)
            };
            proof {
                let x = int_value(a);
                let y = abs(int_value(*b));
                vstd::arithmetic::div_mod::lemma_mod_bound(-x, y);
                lemma_neg_mod(x, y);
            }
            r
        } else {
            proof {
                let x = int_value(a);
                let y = abs(int_value(*b));
                if x < 0 {
                    vstd::arithmetic::div_mod::lemma_mod_bound(-x, y);
                    assert((-x) % y == 0);
                    vstd::arithmetic::div_mod::lemma_fundamental_div_mod(-x, y);
                    let d = (-x) / y;
                    assert(x == y * (-d) + 0) by (nonlinear_arith)
                        requires
                            (-x) == y * d + 0,
                    ;
                    vstd::arithmetic::div_mod::lemma_fundamental_div_mod_converse(x, y, -d, 0);
                }
            }
            m
        }
    }
}

/// The Euclidean remainder of `a` by `b` is never negative and below `|b|`,
/// and `a` minus it is a multiple of `b`.
pub proof fn law_euclidean_mod(a: int, b: int)
    requires
        b != 0,
    ensures
        0 <= a % abs(b) < abs(b),
        exists|q: int| a - a % abs(b) == #[trigger] (q * b),
{
    let y = abs(b);
    vstd::arithmetic::div_mod::lemma_fundamental_div_mod(a, y);
    vstd::arithmetic::div_mod::lemma_mod_bound(a, y);
    let d = a / y;
    if b > 0 {
        assert(a - a % y == d * b);
    } else {
        assert(a - a % y == (-d) * b) by (nonlinear_arith)
            requires
                a == y * d + a % y,
                y == -b,
        ;
    }
}

} // verus!
