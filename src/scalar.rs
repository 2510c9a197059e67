use vstd::prelude::*;

verus! {

/// The arithmetic that the numerical engine is written against.
///
/// Each operation is a function of its arguments: `spec_*` names its result,
/// and the executable operation returns exactly that. Implementations decide
/// how numbers are represented and rounded; the engine relies on no
/// algebraic law of these operations.
pub trait Scalar: Copy + Sized + Send + Sync {
    spec fn spec_zero() -> Self;

    fn zero() -> (r: Self)
        ensures
            r == Self::spec_zero(),
    ;

    spec fn spec_one() -> Self;

    fn one() -> (r: Self)
        ensures
            r == Self::spec_one(),
    ;

    /// The number closest to `n`.
    spec fn spec_from_usize(n: usize) -> Self;

    fn from_usize(n: usize) -> (r: Self)
        ensures
            r == Self::spec_from_usize(n),
    ;

    spec fn spec_add(self, other: Self) -> Self;

    fn add(self, other: Self) -> (r: Self)
        ensures
            r == self.spec_add(other),
    ;

    spec fn spec_sub(self, other: Self) -> Self;

    fn sub(self, other: Self) -> (r: Self)
        ensures
            r == self.spec_sub(other),
    ;

    spec fn spec_mul(self, other: Self) -> Self;

    fn mul(self, other: Self) -> (r: Self)
        ensures
            r == self.spec_mul(other),
    ;

    spec fn spec_div(self, other: Self) -> Self;

    fn div(self, other: Self) -> (r: Self)
        ensures
            r == self.spec_div(other),
    ;

    spec fn spec_neg(self) -> Self;

    fn neg(self) -> (r: Self)
        ensures
            r == self.spec_neg(),
    ;

    /// Whether the value is exactly zero.
    spec fn spec_is_zero(self) -> bool;

    fn is_zero(self) -> (r: bool)
        ensures
            r == self.spec_is_zero(),
    ;

    /// Strict ordering.
    spec fn spec_less_than(self, other: Self) -> bool;

    fn less_than(self, other: Self) -> (r: bool)
        ensures
            r == self.spec_less_than(other),
    ;

    /// The integer part of a value, saturating at `0` below and at
    /// `usize::MAX` above.
    spec fn spec_floor_index(self) -> usize;

    fn floor_index(self) -> (r: usize)
        ensures
            r == self.spec_floor_index(),
    ;

    /// The fractional part of a value.
    spec fn spec_fract(self) -> Self;

    fn fract(self) -> (r: Self)
        ensures
            r == self.spec_fract(),
    ;

    spec fn spec_cos(self) -> Self;

    fn cos(self) -> (r: Self)
        ensures
            r == self.spec_cos(),
    ;

    /// The circle constant.
    spec fn spec_pi() -> Self;

    fn pi() -> (r: Self)
        ensures
            r == Self::spec_pi(),
    ;
}

} // verus!
