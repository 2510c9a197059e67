use vstd::prelude::*;
use crate::functions::{grid_point, grid_step, values_of, Function};
use crate::parallel::par_map;
use crate::scalar::Scalar;

verus! {

/// A rule for definite integrals.
pub trait Integrator<T: Scalar>: Sync {
    /// The rule's value for a function with values `f` over `[left, right]`.
    spec fn spec_integrate(&self, f: spec_fn(T) -> T, left: T, right: T) -> T;

    fn integrate<F: Function<T>>(&self, f: &F, left: T, right: T) -> (r: T)
        ensures
            r == self.spec_integrate(values_of(f), left, right),
    ;
}

/// `(f(x_i) + f(x_i + step))·step` on subinterval `i`.
pub open spec fn trapezoid_piece<T: Scalar>(f: spec_fn(T) -> T, left: T, step: T, i: nat) -> T {
    let x = grid_point(left, step, i);
    f(x).spec_add(f(x.spec_add(step))).spec_mul(step)
}

/// The pieces of the first `k` subintervals, added from the first on.
pub open spec fn trapezoid_sum<T: Scalar>(f: spec_fn(T) -> T, left: T, step: T, k: nat) -> T
    decreases k,
{
    if k == 0 {
        T::spec_zero()
    } else {
        trapezoid_sum(f, left, step, (k - 1) as nat).spec_add(
            trapezoid_piece(f, left, step, (k - 1) as nat),
        )
    }
}

/// Composite trapezoid rule on a fixed number of evenly spaced nodes.
pub struct TrapezoidIntegrator {
    node_count: usize,
}

/// The composite trapezoid rule on `nodes` nodes: the pieces of the
/// `nodes − 1` subintervals, added in order, halved.
pub open spec fn trapezoid_rule<T: Scalar>(nodes: nat, f: spec_fn(T) -> T, left: T, right: T) -> T {
    let step = grid_step(left, right, nodes);
    trapezoid_sum(f, left, step, (nodes - 1) as nat).spec_div(T::spec_from_usize(2))
}

impl TrapezoidIntegrator {
    #[verifier::type_invariant]
    spec fn inv(self) -> bool {
        self.node_count >= 2
    }

    /// The number of nodes, both ends included.
    pub closed spec fn nodes(self) -> nat {
        self.node_count as nat
    }

    pub fn new(node_count: usize) -> (r: Self)
        requires
            node_count >= 2,
        ensures
            r.nodes() == node_count,
    {
        TrapezoidIntegrator { node_count }
    }

    pub fn node_count(&self) -> (r: usize)
        ensures
            r == self.nodes(),
            r >= 2,
    {
        proof {
            use_type_invariant(self);
        }
        self.node_count
    }
}

impl<T: Scalar> Integrator<T> for TrapezoidIntegrator {
    /// `Σ (f(x_i) + f(x_{i+1}))·step / 2` over the `node_count − 1`
    /// subintervals of `[left, right]`.
    open spec fn spec_integrate(&self, f: spec_fn(T) -> T, left: T, right: T) -> T {
        trapezoid_rule(self.nodes(), f, left, right)
    }

    fn integrate<F: Function<T>>(&self, f: &F, left: T, right: T) -> (r: T) {
        let ghost g = values_of(f);
        let n = self.node_count();
        let step = right.sub(left).div(T::from_usize(n - 1));
        let piece = move |i: usize| -> (r: T)
            ensures
                r == trapezoid_piece(values_of(f), left, step, i as nat),
            {
                let x = T::from_usize(i).mul(step).add(left);
                let f1 = f.get(x);
                let f2 = f.get(x.add(step));
                f1.add(f2).mul(step)
            };
        let pieces = par_map(n - 1, piece);
        let mut sum = T::zero();
        let mut i: usize = 0;
        while i < pieces.len()
            invariant
                i <= pieces@.len(),
                pieces@.len() == n - 1,
                sum == trapezoid_sum(g, left, step, i as nat),
                g == values_of(f),
                forall|k: int|
                    0 <= k < n - 1 ==> #[trigger] pieces@[k] == trapezoid_piece(
                        g,
                        left,
                        step,
                        k as nat,
                    ),
            decreases pieces@.len() - i,
        {
            sum = sum.add(pieces[i]);
            i = i + 1;
        }
        sum.div(T::from_usize(2))
    }
}

} // verus!
