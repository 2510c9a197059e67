use vstd::prelude::*;
use crate::functions::{values_of, Function};
use crate::integrals::Integrator;
use crate::linear_equation::{row_major, LinearEquationSolver, SolveError};
use crate::method::{free_term, free_term_spec, Method, Solution};
use crate::parallel::par_map;
use crate::scalar::Scalar;

verus! {

/// A family of basis functions `base(x, n)`, `n = 0, 1, ...`.
pub trait Basis<T: Scalar>: Sync {
    /// The value of basis function `n` at `x`.
    spec fn spec_base(&self, x: T, n: usize) -> T;

    fn base(&self, x: T, n: usize) -> (r: T)
        ensures
            r == self.spec_base(x, n),
    ;
}

/// `square^n`, multiplied up from one.
pub open spec fn power_spec<T: Scalar>(square: T, n: nat) -> T
    decreases n,
{
    if n == 0 {
        T::spec_one()
    } else {
        power_spec(square, (n - 1) as nat).spec_mul(square)
    }
}

/// `x^{2n}` as `(x·x)^n`.
pub open spec fn even_power_spec<T: Scalar>(x: T, n: nat) -> T {
    power_spec(x.spec_mul(x), n)
}

/// `x^{2n}`, by repeated multiplication.
pub fn even_power<T: Scalar>(x: T, n: usize) -> (r: T)
    ensures
        r == even_power_spec(x, n as nat),
{
    let square = x.mul(x);
    let mut p = T::one();
    let mut i: usize = 0;
    while i < n
        invariant
            i <= n,
            square == x.spec_mul(x),
            p == power_spec(square, i as nat),
        decreases n - i,
    {
        p = p.mul(square);
        i = i + 1;
    }
    p
}

/// The even powers `x^{2n}`.
pub struct EvenPowers;

impl<T: Scalar> Basis<T> for EvenPowers {
    open spec fn spec_base(&self, x: T, n: usize) -> T {
        even_power_spec(x, n as nat)
    }

    fn base(&self, x: T, n: usize) -> (r: T) {
        even_power(x, n)
    }
}

/// `Σ_{n<k} c_n·x^{2n}`, added from `n = 0` on.
pub open spec fn even_power_sum<T: Scalar>(c: Seq<T>, x: T, k: nat) -> T
    decreases k,
{
    if k == 0 {
        T::spec_zero()
    } else {
        even_power_sum(c, x, (k - 1) as nat).spec_add(
            even_power_spec(x, (k - 1) as nat).spec_mul(c[k - 1]),
        )
    }
}

/// `Σ c_n·x^{2n}` over the stored coefficients.
pub struct EvenPowerPolynomial<T> {
    coefficients: Vec<T>,
}

impl<T> EvenPowerPolynomial<T> {
    pub closed spec fn coefficients(self) -> Seq<T> {
        self.coefficients@
    }
}

impl<T: Scalar> EvenPowerPolynomial<T> {
    pub fn new(coefficients: Vec<T>) -> (r: Self)
        ensures
            r.coefficients() == coefficients@,
    {
        EvenPowerPolynomial { coefficients }
    }

    pub fn coefficient_count(&self) -> (r: usize)
        ensures
            r == self.coefficients().len(),
    {
        self.coefficients.len()
    }
}

impl<T: Scalar> Function<T> for EvenPowerPolynomial<T> {
    open spec fn spec_get(&self, x: T) -> T {
        even_power_sum(self.coefficients(), x, self.coefficients().len())
    }

    fn get(&self, x: T) -> (r: T) {
        let mut sum = T::zero();
        let mut n: usize = 0;
        while n < self.coefficients.len()
            invariant
                n <= self.coefficients@.len(),
                sum == even_power_sum(self.coefficients@, x, n as nat),
            decreases self.coefficients@.len() - n,
        {
            sum = sum.add(even_power(x, n).mul(self.coefficients[n]));
            n = n + 1;
        }
        sum
    }
}

/// `v` held to `[-1, 1]`: `−1` below it, `1` above it, else `v`.
pub open spec fn clamp_unit_spec<T: Scalar>(v: T) -> T {
    let lower = T::spec_one().spec_neg();
    if v.spec_less_than(lower) {
        lower
    } else if T::spec_one().spec_less_than(v) {
        T::spec_one()
    } else {
        v
    }
}

/// `v` held to `[-1, 1]`.
pub fn clamp_unit<T: Scalar>(v: T) -> (r: T)
    ensures
        r == clamp_unit_spec(v),
{
    let lower = T::one().neg();
    let upper = T::one();
    if v.less_than(lower) {
        lower
    } else if upper.less_than(v) {
        upper
    } else {
        v
    }
}

/// `t ↦ −birth(t − x)/(1 + death(x))·base(t, k)`, for a fixed `x`.
pub struct InnerIntegrand<'a, T, Bs, B, D> {
    pub basis: &'a Bs,
    pub birth: &'a B,
    pub death: &'a D,
    pub x: T,
    pub k: usize,
}

impl<'a, T: Scalar, Bs: Basis<T>, B: Function<T>, D: Function<T>> Function<T> for InnerIntegrand<
    'a,
    T,
    Bs,
    B,
    D,
> {
    open spec fn spec_get(&self, t: T) -> T {
        self.birth.spec_get(t.spec_sub(self.x)).spec_neg().spec_div(
            T::spec_one().spec_add(self.death.spec_get(self.x)),
        ).spec_mul(self.basis.spec_base(t, self.k))
    }

    fn get(&self, t: T) -> (r: T) {
        let h = self.birth.get(t.sub(self.x)).neg().div(T::one().add(self.death.get(self.x)));
        h.mul(self.basis.base(t, self.k))
    }
}

/// `x ↦ w(x/width)·base(x, j)·(base(x, k) + ∫ h(t, x)·base(t, k) dt)`.
pub struct MatrixIntegrand<'a, T, I, W, Bs, B, D> {
    pub integrator: &'a I,
    pub weight: &'a W,
    pub basis: &'a Bs,
    pub birth: &'a B,
    pub death: &'a D,
    pub width: T,
    pub j: usize,
    pub k: usize,
}

impl<
    'a,
    T: Scalar,
    I: Integrator<T>,
    W: Function<T>,
    Bs: Basis<T>,
    B: Function<T>,
    D: Function<T>,
> Function<T> for MatrixIntegrand<'a, T, I, W, Bs, B, D> {
    open spec fn spec_get(&self, x: T) -> T {
        let inner = InnerIntegrand {
            basis: self.basis,
            birth: self.birth,
            death: self.death,
            x,
            k: self.k,
        };
        let w = self.weight.spec_get(clamp_unit_spec(x.spec_div(self.width)));
        let integral = self.integrator.spec_integrate(
            values_of(&inner),
            self.width.spec_neg(),
            self.width,
        );
        w.spec_mul(self.basis.spec_base(x, self.j)).spec_mul(
            self.basis.spec_base(x, self.k).spec_add(integral),
        )
    }

    fn get(&self, x: T) -> (r: T) {
        let inner = InnerIntegrand {
            basis: self.basis,
            birth: self.birth,
            death: self.death,
            x,
            k: self.k,
        };
        let w = self.weight.get(clamp_unit(x.div(self.width)));
        let integral = self.integrator.integrate(&inner, self.width.neg(), self.width);
        w.mul(self.basis.base(x, self.j)).mul(self.basis.base(x, self.k).add(integral))
    }
}

/// `x ↦ w(x/width)·y(x)·base(x, j)`.
pub struct VectorIntegrand<'a, T, W, Bs, B, D> {
    pub weight: &'a W,
    pub basis: &'a Bs,
    pub birth: &'a B,
    pub death: &'a D,
    pub parameter: T,
    pub width: T,
    pub j: usize,
}

impl<'a, T: Scalar, W: Function<T>, Bs: Basis<T>, B: Function<T>, D: Function<T>> Function<
    T,
> for VectorIntegrand<'a, T, W, Bs, B, D> {
    open spec fn spec_get(&self, x: T) -> T {
        let w = self.weight.spec_get(clamp_unit_spec(x.spec_div(self.width)));
        w.spec_mul(free_term_spec(self.birth, self.death, self.parameter, x)).spec_mul(
            self.basis.spec_base(x, self.j),
        )
    }

    fn get(&self, x: T) -> (r: T) {
        let w = self.weight.get(clamp_unit(x.div(self.width)));
        w.mul(free_term(self.birth, self.death, self.parameter, x)).mul(self.basis.base(x, self.j))
    }
}

/// Galerkin matrix entry `A[j, k] = ∫ w(x/width)·base(x, j)·(base(x, k) +
/// ∫ h(t, x)·base(t, k) dt) dx` over `[−width, width]`.
pub open spec fn galerkin_matrix_entry<
    T: Scalar,
    I: Integrator<T>,
    W: Function<T>,
    Bs: Basis<T>,
    B: Function<T>,
    D: Function<T>,
>(integrator: &I, weight: &W, basis: &Bs, birth: &B, death: &D, width: T, j: nat, k: nat) -> T {
    let f = MatrixIntegrand {
        integrator,
        weight,
        basis,
        birth,
        death,
        width,
        j: j as usize,
        k: k as usize,
    };
    integrator.spec_integrate(values_of(&f), width.spec_neg(), width)
}

/// Galerkin vector entry `b[j] = ∫ w(x/width)·y(x)·base(x, j) dx` over
/// `[−width, width]`.
pub open spec fn galerkin_vector_entry<
    T: Scalar,
    I: Integrator<T>,
    W: Function<T>,
    Bs: Basis<T>,
    B: Function<T>,
    D: Function<T>,
>(integrator: &I, weight: &W, basis: &Bs, birth: &B, death: &D, parameter: T, width: T, j: nat) -> T {
    let f = VectorIntegrand { weight, basis, birth, death, parameter, width, j: j as usize };
    integrator.spec_integrate(values_of(&f), width.spec_neg(), width)
}

/// The `size × size` Galerkin matrix, row-major.
pub open spec fn galerkin_matrix<
    T: Scalar,
    I: Integrator<T>,
    W: Function<T>,
    Bs: Basis<T>,
    B: Function<T>,
    D: Function<T>,
>(integrator: &I, weight: &W, basis: &Bs, birth: &B, death: &D, width: T, size: nat) -> Seq<T> {
    row_major(
        size,
        |j: nat, k: nat| galerkin_matrix_entry(integrator, weight, basis, birth, death, width, j, k),
    )
}

/// The Galerkin right-hand side.
pub open spec fn galerkin_vector<
    T: Scalar,
    I: Integrator<T>,
    W: Function<T>,
    Bs: Basis<T>,
    B: Function<T>,
    D: Function<T>,
>(
    integrator: &I,
    weight: &W,
    basis: &Bs,
    birth: &B,
    death: &D,
    parameter: T,
    width: T,
    size: nat,
) -> Seq<T> {
    Seq::new(
        size,
        |j: int|
            galerkin_vector_entry(integrator, weight, basis, birth, death, parameter, width, j as nat),
    )
}

/// What `solver` returns for the `size × size` Galerkin system of `basis`.
pub open spec fn galerkin_solve_spec<
    T: Scalar,
    I: Integrator<T>,
    S: LinearEquationSolver<T>,
    W: Function<T>,
    Bs: Basis<T>,
    B: Function<T>,
    D: Function<T>,
>(
    integrator: &I,
    solver: &S,
    weight: &W,
    basis: &Bs,
    birth: &B,
    death: &D,
    parameter: T,
    width: T,
    size: nat,
) -> Result<Seq<T>, SolveError> {
    solver.spec_solve(
        galerkin_matrix(integrator, weight, basis, birth, death, width, size),
        size,
        galerkin_vector(integrator, weight, basis, birth, death, parameter, width, size),
    )
}

/// The solver's coefficients with one added to the constant one.
pub open spec fn offset_first<T: Scalar>(c: Seq<T>) -> Seq<T> {
    c.update(0, c[0].spec_add(T::spec_one()))
}

/// Builds the `size × size` Galerkin system of `basis`, solves it, and adds
/// one to the constant coefficient.
pub(crate) fn galerkin_coefficients<
    T: Scalar,
    I: Integrator<T>,
    S: LinearEquationSolver<T>,
    W: Function<T>,
    Bs: Basis<T>,
    B: Function<T>,
    D: Function<T>,
>(
    integrator: &I,
    solver: &S,
    weight: &W,
    basis: &Bs,
    birth: &B,
    death: &D,
    parameter: T,
    width: T,
    size: usize,
) -> (r: Result<Vec<T>, SolveError>)
    requires
        size >= 1,
        size * size <= usize::MAX,
    ensures
        r != Err::<Vec<T>, SolveError>(SolveError::DimensionMismatch),
        r is Ok ==> r->Ok_0@.len() == size,
        match galerkin_solve_spec(
            integrator,
            solver,
            weight,
            basis,
            birth,
            death,
            parameter,
            width,
            size as nat,
        ) {
            Ok(c) => r matches Ok(v) && v@ == offset_first(c),
            Err(e) => r == Err::<Vec<T>, SolveError>(e),
        },
{
    let entry = move |i: usize| -> (r: T)
        requires
            size >= 1,
        ensures
            r == galerkin_matrix_entry(
                integrator,
                weight,
                basis,
                birth,
                death,
                width,
                (i / size) as nat,
                (i % size) as nat,
            ),
        {
            let f = MatrixIntegrand {
                integrator,
                weight,
                basis,
                birth,
                death,
                width,
                j: i / size,
                k: i % size,
            };
            integrator.integrate(&f, width.neg(), width)
        };
    let mat = par_map(size * size, entry);
    let rhs = move |j: usize| -> (r: T)
        ensures
            r == galerkin_vector_entry(integrator, weight, basis, birth, death, parameter, width, j as nat),
        {
            let f = VectorIntegrand { weight, basis, birth, death, parameter, width, j };
            integrator.integrate(&f, width.neg(), width)
        };
    let b = par_map(size, rhs);
    proof {
        let gm = galerkin_matrix(integrator, weight, basis, birth, death, width, size as nat);
        assert forall|i: int| 0 <= i < size * size implies #[trigger] mat@[i] == gm[i] by {
            assert(entry.ensures((i as usize,), mat@[i]));
        }
        assert(mat@ =~= gm);
        let gv = galerkin_vector(integrator, weight, basis, birth, death, parameter, width, size as nat);
        assert forall|i: int| 0 <= i < size implies #[trigger] b@[i] == gv[i] by {
            assert(rhs.ensures((i as usize,), b@[i]));
        }
        assert(b@ =~= gv);
    }
    match solver.solve(mat.as_slice(), size, b.as_slice()) {
        Err(e) => Err(e),
        Ok(c) => {
            let ghost old_c = c@;
            let mut c = c;
            let c0 = c[0].add(T::one());
            c.set(0, c0);
            assert(c@ =~= offset_first(old_c));
            Ok(c)
        },
    }
}

/// Galerkin projection onto the even powers `1, x², ..., x^{degree−2}`.
pub struct GalerkinMethod<I, S, W> {
    integrator: I,
    equation_solver: S,
    weight_func: W,
    polynome_degree: usize,
}

/// Whether a Galerkin method of this degree has a non-empty system whose
/// matrix fits in memory.
pub open spec fn degree_ok(degree: nat) -> bool {
    degree / 2 >= 1 && (degree / 2) * (degree / 2) <= usize::MAX
}

impl<I, S, W> GalerkinMethod<I, S, W> {
    #[verifier::type_invariant]
    spec fn inv(self) -> bool {
        degree_ok(self.polynome_degree as nat)
    }

    pub closed spec fn degree(self) -> nat {
        self.polynome_degree as nat
    }

    pub closed spec fn integrator(self) -> I {
        self.integrator
    }

    pub closed spec fn solver(self) -> S {
        self.equation_solver
    }

    pub closed spec fn weight(self) -> W {
        self.weight_func
    }

    pub fn new(integrator: I, equation_solver: S, weight_func: W, polynome_degree: usize) -> (r:
        Self)
        requires
            degree_ok(polynome_degree as nat),
        ensures
            r.degree() == polynome_degree,
    {
        GalerkinMethod { integrator, equation_solver, weight_func, polynome_degree }
    }
}

impl<T: Scalar, I: Integrator<T>, S: LinearEquationSolver<T>, W: Function<T>> Method<
    T,
> for GalerkinMethod<I, S, W> {
    fn solve<B: Function<T>, D: Function<T>>(
        &self,
        birth_probability: &B,
        death_probability: &D,
        parameter: T,
        width: T,
    ) -> (r: Result<Solution<T>, SolveError>)
        ensures
            r matches Ok(s) ==> s matches Solution::EvenPowers(p) && p.coefficients().len()
                == self.degree() / 2,
            match galerkin_solve_spec(
                &self.integrator(),
                &self.solver(),
                &self.weight(),
                &EvenPowers,
                birth_probability,
                death_probability,
                parameter,
                width,
                self.degree() / 2,
            ) {
                Ok(c) => r matches Ok(s) && s matches Solution::EvenPowers(p) && p.coefficients()
                    == offset_first(c),
                Err(e) => r == Err::<Solution<T>, SolveError>(e),
            },
    {
        proof {
            use_type_invariant(self);
        }
        let size = self.polynome_degree / 2;
        match galerkin_coefficients(
            &self.integrator,
            &self.equation_solver,
            &self.weight_func,
            &EvenPowers,
            birth_probability,
            death_probability,
            parameter,
            width,
            size,
        ) {
            Err(e) => Err(e),
            Ok(c) => Ok(Solution::EvenPowers(EvenPowerPolynomial::new(c))),
        }
    }
}

} // verus!
