use vstd::prelude::*;
use crate::functions::{values_of, Function, PointFunction};
use crate::integrals::Integrator;
use crate::linear_equation::{filled, SolveError};
use crate::method::{plus_one, plus_one_spec, Method, Solution};
use crate::nystrom::{node_at, nystrom_step};
use crate::parallel::par_map;
use crate::scalar::Scalar;

verus! {

/// The grid index that a lookup at raw index `raw` reads, on a grid of
/// `n` values: `raw` itself, or the last index where `raw` lies past it.
pub fn lower_grid_index(raw: usize, n: usize) -> (r: usize)
    requires
        n >= 1,
    ensures
        r == (if raw < n {
            raw
        } else {
            (n - 1) as usize
        }),
        r < n,
{
    if raw < n {
        raw
    } else {
        n - 1
    }
}

/// `t ↦ (birth(t − x) + birth(t + x))·c(t)`, where `c` reads the previous
/// iterate at the grid index just below `t`.
pub struct NeumannIntegrand<'a, T, B> {
    pub birth: &'a B,
    pub x: T,
    pub previous: &'a [T],
    pub step: T,
}

/// The previous iterate's value that the Neumann integrand reads at `t`.
pub open spec fn lookup_spec<T: Scalar>(previous: Seq<T>, step: T, t: T) -> T {
    let raw = t.spec_div(step).spec_floor_index();
    if previous.len() == 0 {
        T::spec_zero()
    } else if raw < previous.len() {
        previous[raw as int]
    } else {
        previous[previous.len() - 1]
    }
}

/// `(birth(t − x) + birth(t + x))·c(t)`.
pub open spec fn neumann_integrand_spec<T: Scalar, B: Function<T>>(
    birth: &B,
    x: T,
    previous: Seq<T>,
    step: T,
    t: T,
) -> T {
    birth.spec_get(t.spec_sub(x)).spec_add(birth.spec_get(t.spec_add(x))).spec_mul(
        lookup_spec(previous, step, t),
    )
}

impl<'a, T: Scalar, B: Function<T>> Function<T> for NeumannIntegrand<'a, T, B> {
    open spec fn spec_get(&self, t: T) -> T {
        neumann_integrand_spec(self.birth, self.x, self.previous@, self.step, t)
    }

    fn get(&self, t: T) -> (r: T) {
        let n = self.previous.len();
        let c = if n == 0 {
            T::zero()
        } else {
            self.previous[lower_grid_index(t.div(self.step).floor_index(), n)]
        };
        self.birth.get(t.sub(self.x)).add(self.birth.get(t.add(self.x))).mul(c)
    }
}

/// The new value at node `i` of `n` over `[0, width]`, from the previous
/// iterate: `[∫_0^width (birth(t − x) + birth(t + x))·c(t) dt + birth(x)·parameter
/// − death(x)] / (1 + death(x))` at `x = x_i`.
pub open spec fn neumann_node_value<T: Scalar, I: Integrator<T>, B: Function<T>, D: Function<T>>(
    integrator: &I,
    birth: &B,
    death: &D,
    parameter: T,
    width: T,
    n: nat,
    previous: Seq<T>,
    i: nat,
) -> T {
    let step = nystrom_step(width, n);
    let x = node_at(step, i);
    let integral = integrator.spec_integrate(
        |t: T| neumann_integrand_spec(birth, x, previous, step, t),
        T::spec_zero(),
        width,
    );
    let rest = birth.spec_get(x).spec_mul(parameter).spec_sub(death.spec_get(x));
    integral.spec_add(rest).spec_div(T::spec_one().spec_add(death.spec_get(x)))
}

/// One round of the iteration: every node from the previous iterate.
pub open spec fn neumann_round<T: Scalar, I: Integrator<T>, B: Function<T>, D: Function<T>>(
    integrator: &I,
    birth: &B,
    death: &D,
    parameter: T,
    width: T,
    n: nat,
    previous: Seq<T>,
) -> Seq<T> {
    Seq::new(
        n,
        |i: int| neumann_node_value(integrator, birth, death, parameter, width, n, previous, i as nat),
    )
}

/// The iterate after `rounds` rounds from `v ≡ 0`.
pub open spec fn neumann_iterate<T: Scalar, I: Integrator<T>, B: Function<T>, D: Function<T>>(
    integrator: &I,
    birth: &B,
    death: &D,
    parameter: T,
    width: T,
    n: nat,
    rounds: nat,
) -> Seq<T>
    decreases rounds,
{
    if rounds == 0 {
        Seq::new(n, |i: int| T::spec_zero())
    } else {
        neumann_round(
            integrator,
            birth,
            death,
            parameter,
            width,
            n,
            neumann_iterate(integrator, birth, death, parameter, width, n, (rounds - 1) as nat),
        )
    }
}

/// Fixed-point (Neumann series) iteration on `node_count` uniform nodes of
/// `[0, width]`, run exactly `iter_count` times from `v ≡ 0`.
pub struct NeumannMethod<I> {
    iter_count: usize,
    node_count: usize,
    integrator: I,
}

impl<I> NeumannMethod<I> {
    #[verifier::type_invariant]
    spec fn inv(self) -> bool {
        self.node_count >= 2
    }

    pub closed spec fn nodes(self) -> nat {
        self.node_count as nat
    }

    pub closed spec fn iterations(self) -> nat {
        self.iter_count as nat
    }

    pub closed spec fn integrator(self) -> I {
        self.integrator
    }

    pub fn new(iter_count: usize, node_count: usize, integrator: I) -> (r: Self)
        requires
            node_count >= 2,
        ensures
            r.nodes() == node_count,
            r.iterations() == iter_count,
    {
        NeumannMethod { iter_count, node_count, integrator }
    }
}

impl<I> NeumannMethod<I> {
    /// One round: the new value at every node, from the previous iterate.
    pub fn step<T: Scalar, B: Function<T>, D: Function<T>>(
        &self,
        previous: &Vec<T>,
        birth_probability: &B,
        death_probability: &D,
        parameter: T,
        width: T,
    ) -> (r: Vec<T>) where I: Integrator<T>
        requires
            previous@.len() == self.nodes(),
        ensures
            r@ == neumann_round(
                &self.integrator(),
                birth_probability,
                death_probability,
                parameter,
                width,
                self.nodes(),
                previous@,
            ),
    {
        proof {
            use_type_invariant(self);
        }
        let n = self.node_count;
        let step = width.div(T::from_usize(n - 1));
        let integrator = &self.integrator;
        let previous = previous.as_slice();
        let ghost prev = previous@;
        let node_value = move |i: usize| -> (r: T)
            ensures
                r == neumann_node_value(
                    integrator,
                    birth_probability,
                    death_probability,
                    parameter,
                    width,
                    n as nat,
                    previous@,
                    i as nat,
                ),
            {
                let x = T::from_usize(i).mul(step);
                let f = NeumannIntegrand { birth: birth_probability, x, previous, step };
                let integral = integrator.integrate(&f, T::zero(), width);
                assert(values_of(&f) =~= (|t: T| neumann_integrand_spec(birth_probability, x, previous@, step, t)));
                let rest = birth_probability.get(x).mul(parameter).sub(death_probability.get(x));
                integral.add(rest).div(T::one().add(death_probability.get(x)))
            };
        let next = par_map(n, node_value);
        proof {
            let want = neumann_round(integrator, birth_probability, death_probability, parameter, width, n as nat, prev);
            assert forall|i: int| 0 <= i < n implies #[trigger] next@[i] == want[i] by {
                assert(node_value.ensures((i as usize,), next@[i]));
            }
            assert(next@ =~= want);
        }
        next
    }
}

impl<T: Scalar, I: Integrator<T>> Method<T> for NeumannMethod<I> {
    fn solve<B: Function<T>, D: Function<T>>(
        &self,
        birth_probability: &B,
        death_probability: &D,
        parameter: T,
        width: T,
    ) -> (r: Result<Solution<T>, SolveError>)
        ensures
            r matches Ok(s) && s matches Solution::Points(p) && p.samples() == plus_one_spec(
                neumann_iterate(
                    &self.integrator(),
                    birth_probability,
                    death_probability,
                    parameter,
                    width,
                    self.nodes(),
                    self.iterations(),
                ),
            ) && p.lower() == T::spec_zero() && p.upper() == width,
    {
        proof {
            use_type_invariant(self);
        }
        let mut v = filled(T::zero(), self.node_count);
        let ghost it = self.integrator();
        assert(v@ =~= neumann_iterate(&it, birth_probability, death_probability, parameter, width, self.nodes(), 0));
        let mut round: usize = 0;
        while round < self.iter_count
            invariant
                round <= self.iter_count,
                v@.len() == self.nodes(),
                self.nodes() >= 2,
                it == self.integrator(),
                v@ == neumann_iterate(
                    &it,
                    birth_probability,
                    death_probability,
                    parameter,
                    width,
                    self.nodes(),
                    round as nat,
                ),
            decreases self.iter_count - round,
        {
            v = self.step(&v, birth_probability, death_probability, parameter, width);
            round = round + 1;
        }
        Ok(Solution::Points(PointFunction::new(plus_one(&v), T::zero(), width)))
    }
}

} // verus!
