use vstd::prelude::*;
use crate::functions::Function;
use crate::galerkin::{degree_ok, galerkin_coefficients, galerkin_solve_spec, offset_first, Basis};
use crate::integrals::Integrator;
use crate::linear_equation::{LinearEquationSolver, SolveError};
use crate::method::{Method, Solution};
use crate::scalar::Scalar;

verus! {

/// `cos(x·n·π/width)`.
pub open spec fn cosine_term_spec<T: Scalar>(x: T, n: nat, width: T) -> T {
    x.spec_mul(T::spec_from_usize(n as usize)).spec_mul(T::spec_pi()).spec_div(width).spec_cos()
}

/// `Σ_{n<k} c_n·cos(x·n·π/width)`, added from `n = 0` on.
pub open spec fn cosine_sum<T: Scalar>(c: Seq<T>, x: T, width: T, k: nat) -> T
    decreases k,
{
    if k == 0 {
        T::spec_zero()
    } else {
        cosine_sum(c, x, width, (k - 1) as nat).spec_add(
            c[k - 1].spec_mul(cosine_term_spec(x, (k - 1) as nat, width)),
        )
    }
}

/// `cos(x·n·π/width)`.
pub fn cosine_term<T: Scalar>(x: T, n: usize, width: T) -> (r: T)
    ensures
        r == cosine_term_spec(x, n as nat, width),
{
    x.mul(T::from_usize(n)).mul(T::pi()).div(width).cos()
}

/// The cosines `cos(n·π·x/width)`.
pub struct Cosines<T> {
    pub width: T,
}

impl<T: Scalar> Basis<T> for Cosines<T> {
    open spec fn spec_base(&self, x: T, n: usize) -> T {
        cosine_term_spec(x, n as nat, self.width)
    }

    fn base(&self, x: T, n: usize) -> (r: T) {
        cosine_term(x, n, self.width)
    }
}

/// The cosine basis of half-width `width`.
pub open spec fn cosines<T>(width: T) -> Cosines<T> {
    Cosines { width }
}

/// `Σ c_n·cos(n·π·x/width)` over the stored coefficients.
pub struct CosineSeries<T> {
    coefs: Vec<T>,
    width: T,
}

impl<T> CosineSeries<T> {
    pub closed spec fn coefficients(self) -> Seq<T> {
        self.coefs@
    }

    pub closed spec fn half_width(self) -> T {
        self.width
    }
}

impl<T: Scalar> CosineSeries<T> {
    pub fn new(coefs: Vec<T>, width: T) -> (r: Self)
        ensures
            r.coefficients() == coefs@,
            r.half_width() == width,
    {
        CosineSeries { coefs, width }
    }

    pub fn coefficient_count(&self) -> (r: usize)
        ensures
            r == self.coefficients().len(),
    {
        self.coefs.len()
    }
}

impl<T: Scalar> Function<T> for CosineSeries<T> {
    open spec fn spec_get(&self, x: T) -> T {
        cosine_sum(self.coefficients(), x, self.half_width(), self.coefficients().len())
    }

    fn get(&self, x: T) -> (r: T) {
        let mut sum = T::zero();
        let mut n: usize = 0;
        while n < self.coefs.len()
            invariant
                n <= self.coefs@.len(),
                sum == cosine_sum(self.coefs@, x, self.width, n as nat),
            decreases self.coefs@.len() - n,
        {
            sum = sum.add(self.coefs[n].mul(cosine_term(x, n, self.width)));
            n = n + 1;
        }
        sum
    }
}

/// Galerkin projection onto the cosines `cos(n·π·x/width)`,
/// `n < degree/2`.
pub struct GalerkinMethodWithFourier<I, S, W> {
    integrator: I,
    equation_solver: S,
    weight_func: W,
    polynome_degree: usize,
}

impl<I, S, W> GalerkinMethodWithFourier<I, S, W> {
    #[verifier::type_invariant]
    spec fn inv(self) -> bool {
        degree_ok(self.polynome_degree as nat)
    }

    pub closed spec fn degree(self) -> nat {
        self.polynome_degree as nat
    }

    pub closed spec fn integrator(self) -> I {
        self.integrator
    }

    pub closed spec fn solver(self) -> S {
        self.equation_solver
    }

    pub closed spec fn weight(self) -> W {
        self.weight_func
    }

    pub fn new(integrator: I, equation_solver: S, weight_func: W, polynome_degree: usize) -> (r:
        Self)
        requires
            degree_ok(polynome_degree as nat),
        ensures
            r.degree() == polynome_degree,
    {
        GalerkinMethodWithFourier { integrator, equation_solver, weight_func, polynome_degree }
    }
}

impl<T: Scalar, I: Integrator<T>, S: LinearEquationSolver<T>, W: Function<T>> Method<
    T,
> for GalerkinMethodWithFourier<I, S, W> {
    fn solve<B: Function<T>, D: Function<T>>(
        &self,
        birth_probability: &B,
        death_probability: &D,
        parameter: T,
        width: T,
    ) -> (r: Result<Solution<T>, SolveError>)
        ensures
            r matches Ok(s) ==> s matches Solution::Cosines(c) && c.coefficients().len()
                == self.degree() / 2 && c.half_width() == width,
            match galerkin_solve_spec(
                &self.integrator(),
                &self.solver(),
                &self.weight(),
                &cosines(width),
                birth_probability,
                death_probability,
                parameter,
                width,
                self.degree() / 2,
            ) {
                Ok(c) => r matches Ok(s) && s matches Solution::Cosines(cs) && cs.coefficients()
                    == offset_first(c) && cs.half_width() == width,
                Err(e) => r == Err::<Solution<T>, SolveError>(e),
            },
    {
        proof {
            use_type_invariant(self);
        }
        let size = self.polynome_degree / 2;
        match galerkin_coefficients(
            &self.integrator,
            &self.equation_solver,
            &self.weight_func,
            &Cosines { width },
            birth_probability,
            death_probability,
            parameter,
            width,
            size,
        ) {
            Err(e) => Err(e),
            Ok(c) => Ok(Solution::Cosines(CosineSeries::new(c, width))),
        }
    }
}

} // verus!
