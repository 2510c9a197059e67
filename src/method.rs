use vstd::prelude::*;
use crate::functions::{Function, PointFunction};
use crate::galerkin::EvenPowerPolynomial;
use crate::galerkin_fourier::CosineSeries;
use crate::linear_equation::SolveError;
use crate::scalar::Scalar;

verus! {

/// The approximate solution that a method returns.
pub enum Solution<T> {
    /// Samples on a uniform grid of `[0, width]`.
    Points(PointFunction<T>),
    /// Coefficients of `Σ c_n·x^{2n}`.
    EvenPowers(EvenPowerPolynomial<T>),
    /// Coefficients of `Σ c_n·cos(n·π·x/width)`.
    Cosines(CosineSeries<T>),
}

impl<T: Scalar> Function<T> for Solution<T> {
    open spec fn spec_get(&self, x: T) -> T {
        match self {
            Solution::Points(p) => p.spec_get(x),
            Solution::EvenPowers(p) => p.spec_get(x),
            Solution::Cosines(c) => c.spec_get(x),
        }
    }

    fn get(&self, x: T) -> (r: T) {
        match self {
            Solution::Points(p) => p.get(x),
            Solution::EvenPowers(p) => p.get(x),
            Solution::Cosines(c) => c.get(x),
        }
    }
}

/// A way of solving `u(x)·(1 + death(x)) = ∫ birth(t − x)·u(t) dt +
/// birth(x)·parameter − death(x)` over `[-width, width]`.
///
/// The systems a method builds always have matching dimensions, so a
/// method never reports a dimension mismatch; each implementation states
/// exactly what it returns.
pub trait Method<T: Scalar> {
    fn solve<B: Function<T>, D: Function<T>>(
        &self,
        birth_probability: &B,
        death_probability: &D,
        parameter: T,
        width: T,
    ) -> (r: Result<Solution<T>, SolveError>)
        ensures
            r != Err::<Solution<T>, SolveError>(SolveError::DimensionMismatch),
    ;
}

/// The kernel `birth(y − x) / (1 + death(x))`.
pub open spec fn kernel_spec<T: Scalar, B: Function<T>, D: Function<T>>(
    birth: &B,
    death: &D,
    x: T,
    y: T,
) -> T {
    birth.spec_get(y.spec_sub(x)).spec_div(T::spec_one().spec_add(death.spec_get(x)))
}

/// The free term `(birth(x)·parameter − death(x)) / (1 + death(x))`.
pub open spec fn free_term_spec<T: Scalar, B: Function<T>, D: Function<T>>(
    birth: &B,
    death: &D,
    parameter: T,
    x: T,
) -> T {
    birth.spec_get(x).spec_mul(parameter).spec_sub(death.spec_get(x)).spec_div(
        T::spec_one().spec_add(death.spec_get(x)),
    )
}

/// Each value plus one.
pub open spec fn plus_one_spec<T: Scalar>(v: Seq<T>) -> Seq<T> {
    Seq::new(v.len(), |i: int| v[i].spec_add(T::spec_one()))
}

pub(crate) fn kernel<T: Scalar, B: Function<T>, D: Function<T>>(
    birth: &B,
    death: &D,
    x: T,
    y: T,
) -> (r: T)
    ensures
        r == kernel_spec(birth, death, x, y),
{
    birth.get(y.sub(x)).div(T::one().add(death.get(x)))
}

pub(crate) fn free_term<T: Scalar, B: Function<T>, D: Function<T>>(
    birth: &B,
    death: &D,
    parameter: T,
    x: T,
) -> (r: T)
    ensures
        r == free_term_spec(birth, death, parameter, x),
{
    birth.get(x).mul(parameter).sub(death.get(x)).div(T::one().add(death.get(x)))
}

/// Each value plus one: the solution `u = 1 + v` from the auxiliary `v`.
pub(crate) fn plus_one<T: Scalar>(v: &Vec<T>) -> (r: Vec<T>)
    ensures
        r@ == plus_one_spec(v@),
{
    let mut out: Vec<T> = Vec::new();
    let mut i: usize = 0;
    while i < v.len()
        invariant
            i <= v@.len(),
            out@.len() == i,
            forall|k: int| 0 <= k < i ==> #[trigger] out@[k] == v@[k].spec_add(T::spec_one()),
        decreases v@.len() - i,
    {
        out.push(v[i].add(T::one()));
        i = i + 1;
    }
    assert(out@ =~= plus_one_spec(v@));
    out
}

} // verus!
