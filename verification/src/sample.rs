//! The abstract scalar that images are made of.

use vstd::prelude::*;

verus! {

/// Arithmetic over image samples, supplied by the embedding.
///
/// The resamplers in this crate are generic over the scalar type; a host
/// instantiates it with its machine scalar (typically a 32-bit float) by
/// implementing this trait outside the verified library. Each executable
/// method is pinned to an abstract specification counterpart, so every
/// contract in the crate can state exactly which composition of scalar
/// operations a result is — without assuming anything about what the
/// operations compute. The specification members are never executed; a
/// host implements them as copies of the executable ones, and what is
/// proved here holds of an implementation exactly insofar as each method
/// is a function of its arguments.
///
/// Construction methods mirror the constants the algorithms need; `tiny`
/// stands for the small positive floor used to guard divisions (a machine
/// epsilon for floats).
pub trait Sample: Copy {
    /// The value of the additive identity.
    spec fn spec_zero() -> Self;

    /// The value of the multiplicative identity.
    spec fn spec_one() -> Self;

    /// The value of the division guard.
    spec fn spec_tiny() -> Self;

    /// The scalar standing for the count `n`.
    spec fn spec_from_count(n: usize) -> Self;

    /// The scalar standing for the signed offset `n`.
    spec fn spec_from_offset(n: isize) -> Self;

    /// The value of addition.
    spec fn spec_plus(self, o: Self) -> Self;

    /// The value of subtraction.
    spec fn spec_minus(self, o: Self) -> Self;

    /// The value of multiplication.
    spec fn spec_times(self, o: Self) -> Self;

    /// The value of division.
    spec fn spec_over(self, o: Self) -> Self;

    /// The larger of two scalars.
    spec fn spec_maxv(self, o: Self) -> Self;

    /// The smaller of two scalars.
    spec fn spec_minv(self, o: Self) -> Self;

    /// The value of the absolute value.
    spec fn spec_absv(self) -> Self;

    /// The value of the square root.
    spec fn spec_sqrtv(self) -> Self;

    /// The value of exponentiation.
    spec fn spec_powv(self, e: Self) -> Self;

    /// The scalar's `<=` order test.
    spec fn spec_lev(self, o: Self) -> bool;

    /// The scalar's `<` order test.
    spec fn spec_ltv(self, o: Self) -> bool;

    /// The scalar's equality test.
    spec fn spec_eqv(self, o: Self) -> bool;

    /// The floor of the scalar as a signed offset.
    spec fn spec_floor_offset(self) -> isize;

    /// The ceiling of the scalar as a count.
    spec fn spec_ceil_count(self) -> usize;

    /// The additive identity.
    fn zero() -> (r: Self)
        ensures
            r == Self::spec_zero(),
    ;

    /// The multiplicative identity.
    fn one() -> (r: Self)
        ensures
            r == Self::spec_one(),
    ;

    /// The small positive guard used as a division floor.
    fn tiny() -> (r: Self)
        ensures
            r == Self::spec_tiny(),
    ;

    /// The scalar standing for a nonnegative count.
    fn from_count(n: usize) -> (r: Self)
        ensures
            r == Self::spec_from_count(n),
    ;

    /// The scalar standing for a signed offset.
    fn from_offset(n: isize) -> (r: Self)
        ensures
            r == Self::spec_from_offset(n),
    ;

    /// Addition.
    fn plus(self, o: Self) -> (r: Self)
        ensures
            r == self.spec_plus(o),
    ;

    /// Subtraction.
    fn minus(self, o: Self) -> (r: Self)
        ensures
            r == self.spec_minus(o),
    ;

    /// Multiplication.
    fn times(self, o: Self) -> (r: Self)
        ensures
            r == self.spec_times(o),
    ;

    /// Division; callers guard the divisor themselves.
    fn over(self, o: Self) -> (r: Self)
        ensures
            r == self.spec_over(o),
    ;

    /// The larger of the two scalars.
    fn maxv(self, o: Self) -> (r: Self)
        ensures
            r == self.spec_maxv(o),
    ;

    /// The smaller of the two scalars.
    fn minv(self, o: Self) -> (r: Self)
        ensures
            r == self.spec_minv(o),
    ;

    /// Absolute value.
    fn absv(self) -> (r: Self)
        ensures
            r == self.spec_absv(),
    ;

    /// Nonnegative square root.
    fn sqrtv(self) -> (r: Self)
        ensures
            r == self.spec_sqrtv(),
    ;

    /// `self` raised to the power `e`.
    fn powv(self, e: Self) -> (r: Self)
        ensures
            r == self.spec_powv(e),
    ;

    /// Whether `self <= o` in the scalar's order.
    fn lev(self, o: Self) -> (r: bool)
        ensures
            r == self.spec_lev(o),
    ;

    /// Whether `self < o` in the scalar's order.
    fn ltv(self, o: Self) -> (r: bool)
        ensures
            r == self.spec_ltv(o),
    ;

    /// Whether `self == o` in the scalar's equality.
    fn eqv(self, o: Self) -> (r: bool)
        ensures
            r == self.spec_eqv(o),
    ;

    /// The floor of the scalar as a signed offset, saturating at the
    /// offset type's range.
    fn floor_offset(self) -> (r: isize)
        ensures
            r == self.spec_floor_offset(),
    ;

    /// The ceiling of the scalar as a count, saturating at zero and at the
    /// count type's range.
    fn ceil_count(self) -> (r: usize)
        ensures
            r == self.spec_ceil_count(),
    ;
}

} // verus!
