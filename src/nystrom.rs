use vstd::prelude::*;
use crate::functions::{Function, PointFunction};
use crate::linear_equation::{
    filled, flat_index, lemma_flat_index_bounds, lemma_flat_index_unique, lemma_row_major_slot,
    row_major, LinearEquationSolver, SolveError,
};
use crate::method::{
    free_term, free_term_spec, kernel, kernel_spec, plus_one, plus_one_spec, Method, Solution,
};
use crate::parallel::par_map;
use crate::scalar::Scalar;

verus! {

/// How node `y_i` of the grid on `[0, width]` enters the reflected
/// trapezoid sum.
#[derive(Debug, Clone, Copy, PartialEq, Eq, Structural)]
pub enum NodeWeight {
    /// The last node: half of the kernel at `y` and at `−y`.
    HalfBothSides,
    /// The first node, `y = 0`: half of the kernel at `y`.
    HalfDirect,
    /// An inner node: the kernel at `y` and at `−y`.
    BothSides,
}

/// The weight of node `i` of `n`.
pub fn node_weight(i: usize, n: usize) -> (r: NodeWeight)
    requires
        n >= 1,
    ensures
        r == (if i == n - 1 {
            NodeWeight::HalfBothSides
        } else if i == 0 {
            NodeWeight::HalfDirect
        } else {
            NodeWeight::BothSides
        }),
{
    if i == n - 1 {
        NodeWeight::HalfBothSides
    } else if i == 0 {
        NodeWeight::HalfDirect
    } else {
        NodeWeight::BothSides
    }
}

/// Grid node `i·step` of `[0, width]`.
pub open spec fn node_at<T: Scalar>(step: T, i: nat) -> T {
    T::spec_from_usize(i as usize).spec_mul(step)
}

/// The grid step `width/(n − 1)` of `[0, width]`.
pub open spec fn nystrom_step<T: Scalar>(width: T, n: nat) -> T {
    width.spec_div(T::spec_from_usize((n - 1) as usize))
}

/// The kernel at nodes `x`, `y = y_i`, weighted and reflected as
/// [`node_weight`] says.
pub open spec fn weighted_kernel<T: Scalar, B: Function<T>, D: Function<T>>(
    birth: &B,
    death: &D,
    x: T,
    y: T,
    i: nat,
    n: nat,
) -> T {
    let two = T::spec_from_usize(2);
    if i == n - 1 {
        kernel_spec(birth, death, x, y).spec_add(kernel_spec(birth, death, x, y.spec_neg())).spec_div(
            two,
        )
    } else if i == 0 {
        kernel_spec(birth, death, x, y).spec_div(two)
    } else {
        kernel_spec(birth, death, x, y).spec_add(kernel_spec(birth, death, x, y.spec_neg()))
    }
}

/// Entry `(j, i)` of the Nyström matrix: `step·K(x_j, y_i)`, minus one on
/// the diagonal.
pub open spec fn nystrom_entry<T: Scalar, B: Function<T>, D: Function<T>>(
    birth: &B,
    death: &D,
    width: T,
    n: nat,
    j: nat,
    i: nat,
) -> T {
    let step = nystrom_step(width, n);
    let k = weighted_kernel(birth, death, node_at(step, j), node_at(step, i), i, n);
    if i == j {
        k.spec_mul(step).spec_sub(T::spec_one())
    } else {
        k.spec_mul(step)
    }
}

/// The `n × n` Nyström matrix, row-major.
pub open spec fn nystrom_matrix<T: Scalar, B: Function<T>, D: Function<T>>(
    birth: &B,
    death: &D,
    width: T,
    n: nat,
) -> Seq<T> {
    row_major(n, |j: nat, i: nat| nystrom_entry(birth, death, width, n, j, i))
}

/// The Nyström right-hand side `−f(x_i)`.
pub open spec fn nystrom_rhs<T: Scalar, B: Function<T>, D: Function<T>>(
    birth: &B,
    death: &D,
    parameter: T,
    width: T,
    n: nat,
) -> Seq<T> {
    Seq::new(
        n,
        |i: int|
            free_term_spec(birth, death, parameter, node_at(nystrom_step(width, n), i as nat)).spec_neg(),
    )
}

/// Nyström discretization on `node_count` uniform nodes of `[0, width]`.
pub struct NystromMethod<S> {
    solver: S,
    node_count: usize,
}

impl<S> NystromMethod<S> {
    #[verifier::type_invariant]
    spec fn inv(self) -> bool {
        self.node_count >= 2 && self.node_count * self.node_count <= usize::MAX
    }

    pub closed spec fn nodes(self) -> nat {
        self.node_count as nat
    }

    pub closed spec fn solver(self) -> S {
        self.solver
    }

    pub fn new(solver: S, node_count: usize) -> (r: Self)
        requires
            node_count >= 2,
            node_count * node_count <= usize::MAX,
        ensures
            r.nodes() == node_count,
    {
        NystromMethod { solver, node_count }
    }
}

impl<T: Scalar, S: LinearEquationSolver<T>> Method<T> for NystromMethod<S> {
    fn solve<B: Function<T>, D: Function<T>>(
        &self,
        birth_probability: &B,
        death_probability: &D,
        parameter: T,
        width: T,
    ) -> (r: Result<Solution<T>, SolveError>)
        ensures
            r matches Ok(s) ==> s matches Solution::Points(p) && p.samples().len() == self.nodes(),
            match self.solver().spec_solve(
                nystrom_matrix(birth_probability, death_probability, width, self.nodes()),
                self.nodes(),
                nystrom_rhs(birth_probability, death_probability, parameter, width, self.nodes()),
            ) {
                Ok(z) => r matches Ok(s) && s matches Solution::Points(p) && p.samples()
                    == plus_one_spec(z) && p.lower() == T::spec_zero() && p.upper() == width,
                Err(e) => r == Err::<Solution<T>, SolveError>(e),
            },
    {
        proof {
            use_type_invariant(self);
        }
        let n = self.node_count;
        let step = width.div(T::from_usize(n - 1));
        let mut mat = filled(T::zero(), n * n);
        let mut j: usize = 0;
        while j < n
            invariant
                n >= 2,
                n * n <= usize::MAX,
                j <= n,
                mat@.len() == n * n,
                n == self.nodes(),
                step == nystrom_step(width, n as nat),
                forall|r: int, c: int|
                    0 <= r < j && 0 <= c < n ==> #[trigger] mat@[flat_index(r, c, n as int)]
                        == nystrom_entry(birth_probability, death_probability, width, n as nat, r as nat, c as nat),
            decreases n - j,
        {
            let x = T::from_usize(j).mul(step);
            let mut i: usize = 0;
            while i < n
                invariant
                    n >= 2,
                    n * n <= usize::MAX,
                    j < n,
                    i <= n,
                    mat@.len() == n * n,
                    n == self.nodes(),
                    step == nystrom_step(width, n as nat),
                    x == node_at(step, j as nat),
                    forall|r: int, c: int|
                        0 <= r < n && 0 <= c < n && (r < j || (r == j && c < i)) ==> #[trigger] mat@[flat_index(r, c, n as int)]
                            == nystrom_entry(birth_probability, death_probability, width, n as nat, r as nat, c as nat),
                decreases n - i,
            {
                let y = T::from_usize(i).mul(step);
                let k = match node_weight(i, n) {
                    NodeWeight::HalfBothSides => kernel(birth_probability, death_probability, x, y).add(
                        kernel(birth_probability, death_probability, x, y.neg()),
                    ).div(T::from_usize(2)),
                    NodeWeight::HalfDirect => kernel(birth_probability, death_probability, x, y).div(
                        T::from_usize(2),
                    ),
                    NodeWeight::BothSides => kernel(birth_probability, death_probability, x, y).add(
                        kernel(birth_probability, death_probability, x, y.neg()),
                    ),
                };
                proof {
                    lemma_flat_index_bounds(j as int, i as int, n as int);
                }
                let entry = if i == j {
                    k.mul(step).sub(T::one())
                } else {
                    k.mul(step)
                };
                mat.set(j * n + i, entry);
                proof {
                    assert forall|r: int, c: int|
                        0 <= r < n && 0 <= c < n && (r < j || (r == j && c < i + 1)) implies #[trigger] mat@[flat_index(r, c, n as int)]
                            == nystrom_entry(birth_probability, death_probability, width, n as nat, r as nat, c as nat) by {
                        lemma_flat_index_unique(r, c, j as int, i as int, n as int);
                        lemma_flat_index_bounds(r, c, n as int);
                    }
                }
                i = i + 1;
            }
            j = j + 1;
        }
        let rhs = move |i: usize| -> (r: T)
            ensures
                r == free_term_spec(birth_probability, death_probability, parameter, node_at(step, i as nat)).spec_neg(),
            {
                let x = T::from_usize(i).mul(step);
                free_term(birth_probability, death_probability, parameter, x).neg()
            };
        let b = par_map(n, rhs);
        proof {
            let gm = nystrom_matrix(birth_probability, death_probability, width, n as nat);
            assert forall|idx: int| 0 <= idx < n * n implies #[trigger] mat@[idx] == gm[idx] by {
                lemma_row_major_slot(idx, n as int);
                assert(mat@[flat_index(idx / n as int, idx % n as int, n as int)] == nystrom_entry(
                    birth_probability,
                    death_probability,
                    width,
                    n as nat,
                    (idx / n as int) as nat,
                    (idx % n as int) as nat,
                ));
            }
            assert(mat@ =~= gm);
            let gv = nystrom_rhs(birth_probability, death_probability, parameter, width, n as nat);
            assert forall|i: int| 0 <= i < n implies #[trigger] b@[i] == gv[i] by {
                assert(rhs.ensures((i as usize,), b@[i]));
            }
            assert(b@ =~= gv);
        }
        match self.solver.solve(mat.as_slice(), n, b.as_slice()) {
            Err(e) => Err(e),
            Ok(v) => Ok(Solution::Points(PointFunction::new(plus_one(&v), T::zero(), width))),
        }
    }
}

} // verus!
