use vstd::prelude::*;
use crate::scalar::Scalar;

verus! {

/// Why a linear system could not be solved.
#[derive(Debug, Clone, Copy, PartialEq, Eq, Structural)]
pub enum SolveError {
    /// The matrix is not `width × width`, or a vector is not of length `width`.
    DimensionMismatch,
    /// A zero pivot came up during factorization without pivoting.
    SingularSystem,
}

/// Whether a flat row-major matrix of `mat_len` entries and a right-hand
/// side of `b_len` entries describe a `width × width` system.
pub open spec fn system_dims_ok(mat_len: int, width: int, b_len: int) -> bool {
    mat_len == width * width && b_len == width
}

/// A solution vector or error, with the vector seen as a sequence.
pub open spec fn result_view<T>(r: Result<Vec<T>, SolveError>) -> Result<Seq<T>, SolveError> {
    match r {
        Ok(x) => Ok(x@),
        Err(e) => Err(e),
    }
}

/// A solver of dense square systems `A·x = b`, `A` stored row-major.
pub trait LinearEquationSolver<T: Scalar>: Sync {
    /// What the solver returns for the system `(mat, width, b)`.
    spec fn spec_solve(&self, mat: Seq<T>, width: nat, b: Seq<T>) -> Result<Seq<T>, SolveError>;

    fn solve(&self, mat: &[T], width: usize, b: &[T]) -> (r: Result<Vec<T>, SolveError>)
        ensures
            result_view(r) == self.spec_solve(mat@, width as nat, b@),
            !system_dims_ok(mat@.len() as int, width as int, b@.len() as int) <==> r == Err::<
                Vec<T>,
                SolveError,
            >(SolveError::DimensionMismatch),
            r is Ok ==> r->Ok_0@.len() == width,
    ;
}

/// Position of entry `(row, col)` in a row-major `width × width` matrix.
pub open spec fn flat_index(row: int, col: int, width: int) -> int {
    row * width + col
}

/// Entries of a row-major square matrix stay inside its storage.
pub proof fn lemma_flat_index_bounds(row: int, col: int, width: int)
    requires
        0 <= row < width,
        0 <= col < width,
    ensures
        0 <= row * width <= flat_index(row, col, width) < width * width,
{
    assert(row * width + col < width * width) by (nonlinear_arith)
        requires
            0 <= row < width,
            0 <= col < width,
    ;
    assert(0 <= row * width) by (nonlinear_arith)
        requires
            0 <= row,
            0 <= width,
    ;
}

/// Row `i` of forward substitution after its first `j` terms:
/// `b[i] − l[i][0]·x[0] − ... − l[i][j−1]·x[j−1]`.
pub open spec fn forward_partial<T: Scalar>(l: Seq<T>, b: Seq<T>, x: Seq<T>, w: nat, i: nat, j: nat) -> T
    decreases j,
{
    if j == 0 {
        b[i as int]
    } else {
        forward_partial(l, b, x, w, i, (j - 1) as nat).spec_sub(
            l[flat_index(i as int, j - 1, w as int)].spec_mul(x[j - 1]),
        )
    }
}

/// The first `k` unknowns of `l·x = b` by forward substitution, `l`
/// taken as unit lower triangular.
pub open spec fn forward_seq<T: Scalar>(l: Seq<T>, b: Seq<T>, w: nat, k: nat) -> Seq<T>
    decreases k,
{
    if k == 0 {
        Seq::empty()
    } else {
        let prev = forward_seq(l, b, w, (k - 1) as nat);
        prev.push(forward_partial(l, b, prev, w, (k - 1) as nat, (k - 1) as nat))
    }
}

/// Row `w − 1 − i` of backward substitution after its first `j` terms;
/// `y[m]` is the unknown of row `w − 1 − m`.
pub open spec fn backward_partial<T: Scalar>(u: Seq<T>, b: Seq<T>, y: Seq<T>, w: nat, i: nat, j: nat) -> T
    decreases j,
{
    let row = w - 1 - i;
    if j == 0 {
        b[row]
    } else {
        backward_partial(u, b, y, w, i, (j - 1) as nat).spec_sub(
            u[flat_index(row, w - 1 - (j - 1), w as int)].spec_mul(y[j - 1]),
        )
    }
}

/// The last `k` unknowns of `u·x = b` by backward substitution, from the
/// last row up: element `m` is the unknown of row `w − 1 − m`.
pub open spec fn backward_seq<T: Scalar>(u: Seq<T>, b: Seq<T>, w: nat, k: nat) -> Seq<T>
    decreases k,
{
    if k == 0 {
        Seq::empty()
    } else {
        let prev = backward_seq(u, b, w, (k - 1) as nat);
        let row = w - 1 - (k - 1);
        prev.push(
            backward_partial(u, b, prev, w, (k - 1) as nat, (k - 1) as nat).spec_div(
                u[flat_index(row, row, w as int)],
            ),
        )
    }
}

/// Forward substitution: `l·x = b` for unit lower triangular `l`.
pub open spec fn forward_substitution<T: Scalar>(l: Seq<T>, b: Seq<T>, w: nat) -> Seq<T> {
    forward_seq(l, b, w, w)
}

/// Backward substitution: `u·x = b` for upper triangular `u`.
pub open spec fn backward_substitution<T: Scalar>(u: Seq<T>, b: Seq<T>, w: nat) -> Seq<T> {
    let y = backward_seq(u, b, w, w);
    Seq::new(w, |r: int| y[w - 1 - r])
}

proof fn lemma_forward_seq_len<T: Scalar>(l: Seq<T>, b: Seq<T>, w: nat, k: nat)
    ensures
        forward_seq(l, b, w, k).len() == k,
    decreases k,
{
    if k > 0 {
        lemma_forward_seq_len(l, b, w, (k - 1) as nat);
    }
}

proof fn lemma_backward_seq_len<T: Scalar>(u: Seq<T>, b: Seq<T>, w: nat, k: nat)
    ensures
        backward_seq(u, b, w, k).len() == k,
    decreases k,
{
    if k > 0 {
        lemma_backward_seq_len(u, b, w, (k - 1) as nat);
    }
}

/// Entry `(i, j)` of the working matrix after `k` elimination steps of
/// Doolittle's scheme without pivoting: step `p` subtracts from every entry
/// below and right of pivot `p` the product of its row's and column's
/// entries, divided by the pivot.
pub open spec fn elim_at<T: Scalar>(mat: Seq<T>, w: nat, k: nat, i: nat, j: nat) -> T
    decreases k,
{
    if k == 0 {
        mat[flat_index(i as int, j as int, w as int)]
    } else {
        let p = (k - 1) as nat;
        let prev = elim_at(mat, w, p, i, j);
        if i > p && j > p {
            prev.spec_sub(
                elim_at(mat, w, p, p, j).spec_mul(elim_at(mat, w, p, i, p)).spec_div(
                    elim_at(mat, w, p, p, p),
                ),
            )
        } else {
            prev
        }
    }
}

/// Pivot `k`: the diagonal entry met at elimination step `k`.
pub open spec fn pivot<T: Scalar>(mat: Seq<T>, w: nat, k: nat) -> T {
    elim_at(mat, w, k, k, k)
}

/// No pivot among the first `k` is zero.
pub open spec fn pivots_nonzero<T: Scalar>(mat: Seq<T>, w: nat, k: nat) -> bool {
    forall|m: nat| m < k ==> !(#[trigger] pivot(mat, w, m)).spec_is_zero()
}

/// Entry `(i, j)` of the unit lower triangular factor.
pub open spec fn lower_entry<T: Scalar>(mat: Seq<T>, w: nat, i: nat, j: nat) -> T {
    if i == j {
        T::spec_one()
    } else if i > j {
        elim_at(mat, w, j, i, j).spec_div(pivot(mat, w, j))
    } else {
        T::spec_zero()
    }
}

/// Entry `(i, j)` of the upper triangular factor.
pub open spec fn upper_entry<T: Scalar>(mat: Seq<T>, w: nat, i: nat, j: nat) -> T {
    if i <= j {
        elim_at(mat, w, i, i, j)
    } else {
        T::spec_zero()
    }
}

/// Row-major storage of a `w × w` matrix given entrywise.
pub open spec fn row_major<T>(w: nat, e: spec_fn(nat, nat) -> T) -> Seq<T> {
    Seq::new(w * w, |idx: int| e((idx / w as int) as nat, (idx % w as int) as nat))
}

pub open spec fn lower_factor<T: Scalar>(mat: Seq<T>, w: nat) -> Seq<T> {
    row_major(w, |i: nat, j: nat| lower_entry(mat, w, i, j))
}

pub open spec fn upper_factor<T: Scalar>(mat: Seq<T>, w: nat) -> Seq<T> {
    row_major(w, |i: nat, j: nat| upper_entry(mat, w, i, j))
}

/// `(i·w + j)` is the only storage slot of entry `(i, j)`.
pub proof fn lemma_flat_index_unique(i: int, j: int, r: int, c: int, w: int)
    requires
        0 <= i < w,
        0 <= j < w,
        0 <= r < w,
        0 <= c < w,
    ensures
        flat_index(i, j, w) == flat_index(r, c, w) <==> (i == r && j == c),
{
    if i < r {
        assert(i * w + j < r * w + c) by (nonlinear_arith)
            requires
                i < r,
                0 <= j < w,
                0 <= c,
        ;
    } else if r < i {
        assert(r * w + c < i * w + j) by (nonlinear_arith)
            requires
                r < i,
                0 <= c < w,
                0 <= j,
        ;
    }
}

/// Slot `idx` of row-major storage holds entry `(idx / w, idx % w)`.
pub proof fn lemma_row_major_slot(idx: int, w: int)
    requires
        0 <= w,
        0 <= idx < w * w,
    ensures
        0 <= idx / w < w,
        0 <= idx % w < w,
        flat_index(idx / w, idx % w, w) == idx,
{
    assert(w > 0) by (nonlinear_arith)
        requires
            0 <= w,
            0 <= idx < w * w,
    ;
    vstd::arithmetic::div_mod::lemma_fundamental_div_mod(idx, w);
    assert(idx / w < w) by (nonlinear_arith)
        requires
            0 <= idx < w * w,
            w > 0,
            idx == w * (idx / w) + idx % w,
            0 <= idx % w < w,
    ;
    assert(0 <= idx / w) by (nonlinear_arith)
        requires
            0 <= idx,
            w > 0,
            idx == w * (idx / w) + idx % w,
            idx % w < w,
    ;
    assert(w * (idx / w) == (idx / w) * w) by (nonlinear_arith);
}

/// A vector of `n` copies of `value`.
pub(crate) fn filled<T: Scalar>(value: T, n: usize) -> (r: Vec<T>)
    ensures
        r@.len() == n,
        forall|i: int| 0 <= i < n ==> r@[i] == value,
{
    let mut v: Vec<T> = Vec::new();
    let mut i: usize = 0;
    while i < n
        invariant
            i <= n,
            v@.len() == i,
            forall|k: int| 0 <= k < i ==> v@[k] == value,
        decreases n - i,
    {
        v.push(value);
        i = i + 1;
    }
    v
}

/// Whether `width * width` equals `len`, computed without overflow.
fn is_square_len(len: usize, width: usize) -> (r: bool)
    ensures
        r == (len as int == width as int * width as int),
{
    let w = width as u128;
    assert(w * w <= u128::MAX) by (nonlinear_arith)
        requires
            w <= u64::MAX,
    ;
    w * w == len as u128
}

/// LU factorization without pivoting, then forward and backward
/// substitution: a dimension error where the sizes do not fit, a singular
/// system where some pivot is zero, and otherwise the solution.
pub open spec fn lu_solve_spec<T: Scalar>(mat: Seq<T>, w: nat, b: Seq<T>) -> Result<Seq<T>, SolveError> {
    if !system_dims_ok(mat.len() as int, w as int, b.len() as int) {
        Err(SolveError::DimensionMismatch)
    } else if !pivots_nonzero(mat, w, w) {
        Err(SolveError::SingularSystem)
    } else {
        Ok(
            backward_substitution(
                upper_factor(mat, w),
                forward_substitution(lower_factor(mat, w), b, w),
                w,
            ),
        )
    }
}

/// Dense solver by LU factorization without pivoting (Doolittle scheme),
/// followed by forward and backward substitution.
#[derive(Debug, Clone, Copy, PartialEq, Eq, Structural)]
pub struct LUSolver;

impl LUSolver {
    /// Factors `mat` into a unit lower triangular `l` and an upper
    /// triangular `u`, both row-major `width × width`.
    fn lu<T: Scalar>(&self, mat: &[T], width: usize) -> (r: Result<(Vec<T>, Vec<T>), SolveError>)
        ensures
            (mat@.len() != width as int * width as int) <==> r == Err::<
                (Vec<T>, Vec<T>),
                SolveError,
            >(SolveError::DimensionMismatch),
            mat@.len() == width as int * width as int ==> (r is Ok <==> pivots_nonzero(
                mat@,
                width as nat,
                width as nat,
            )),
            r is Err ==> r == Err::<(Vec<T>, Vec<T>), SolveError>(SolveError::DimensionMismatch)
                || r == Err::<(Vec<T>, Vec<T>), SolveError>(SolveError::SingularSystem),
            r matches Ok((l, u)) ==> l@ == lower_factor(mat@, width as nat) && u@ == upper_factor(
                mat@,
                width as nat,
            ),
    {
        if !is_square_len(mat.len(), width) {
            return Err(SolveError::DimensionMismatch);
        }
        let ghost m = mat@;
        let ghost w = width as nat;
        let ghost wi = width as int;
        let n = mat.len();
        let mut l = filled(T::zero(), n);
        let mut u = filled(T::zero(), n);
        let mut d: Vec<T> = Vec::new();
        let mut c: usize = 0;
        while c < n
            invariant
                c <= n,
                n == mat@.len(),
                d@ == mat@.take(c as int),
            decreases n - c,
        {
            d.push(mat[c]);
            assert(d@ =~= mat@.take(c + 1));
            c = c + 1;
        }
        assert(d@ =~= mat@);
        proof {
            assert forall|r: int, c: int| 0 <= r < wi && 0 <= c < wi implies #[trigger] l@[flat_index(r, c, wi)]
                == T::spec_zero() by {
                lemma_flat_index_bounds(r, c, wi);
            }
            assert forall|r: int, c: int| 0 <= r < wi && 0 <= c < wi implies #[trigger] u@[flat_index(r, c, wi)]
                == T::spec_zero() by {
                lemma_flat_index_bounds(r, c, wi);
            }
            assert forall|r: int, c: int| 0 <= r < wi && 0 <= c < wi implies #[trigger] d@[flat_index(r, c, wi)]
                == elim_at(m, w, 0, r as nat, c as nat) by {
                lemma_flat_index_bounds(r, c, wi);
            }
        }
        let mut layer: usize = 0;
        while layer < width
            invariant
                layer <= width,
                m == mat@,
                w == width,
                wi == width,
                n == mat@.len(),
                n == width * width,
                l@.len() == n,
                u@.len() == n,
                d@.len() == n,
                pivots_nonzero(m, w, layer as nat),
                forall|r: int, c: int|
                    0 <= r < wi && 0 <= c < wi ==> #[trigger] d@[flat_index(r, c, wi)] == elim_at(
                        m,
                        w,
                        layer as nat,
                        r as nat,
                        c as nat,
                    ),
                forall|r: int, c: int|
                    0 <= r < wi && 0 <= c < wi ==> #[trigger] l@[flat_index(r, c, wi)] == if c
                        < layer {
                        lower_entry(m, w, r as nat, c as nat)
                    } else {
                        T::spec_zero()
                    },
                forall|r: int, c: int|
                    0 <= r < wi && 0 <= c < wi ==> #[trigger] u@[flat_index(r, c, wi)] == if r
                        < layer {
                        upper_entry(m, w, r as nat, c as nat)
                    } else {
                        T::spec_zero()
                    },
            decreases width - layer,
        {
            let ghost k = layer as int;
            proof {
                lemma_flat_index_bounds(k, k, wi);
            }
            let a = d[layer * width + layer];
            assert(a == d@[flat_index(k, k, wi)]);
            if a.is_zero() {
                assert(pivot(m, w, layer as nat).spec_is_zero());
                return Err(SolveError::SingularSystem);
            }
            l.set(layer * width + layer, T::one());
            u.set(layer * width + layer, a);
            proof {
                assert forall|r: int, c: int| 0 <= r < wi && 0 <= c < wi implies #[trigger] l@[flat_index(r, c, wi)]
                    == if c < k || (c == k && r < k + 1) {
                    lower_entry(m, w, r as nat, c as nat)
                } else {
                    T::spec_zero()
                } by {
                    lemma_flat_index_unique(r, c, k, k, wi);
                    lemma_flat_index_bounds(r, c, wi);
                }
                assert forall|r: int, c: int| 0 <= r < wi && 0 <= c < wi implies #[trigger] u@[flat_index(r, c, wi)]
                    == if r < k || (r == k && c < k + 1) {
                    upper_entry(m, w, r as nat, c as nat)
                } else {
                    T::spec_zero()
                } by {
                    lemma_flat_index_unique(r, c, k, k, wi);
                    lemma_flat_index_bounds(r, c, wi);
                }
                assert forall|q: nat| q < layer + 1 implies !(#[trigger] pivot(m, w, q)).spec_is_zero() by {
                    if q < layer {
                        assert(pivots_nonzero(m, w, layer as nat));
                    }
                }
            }
            let mut i: usize = layer + 1;
            while i < width
                invariant
                    layer < width,
                    k == layer,
                    layer + 1 <= i <= width,
                    m == mat@,
                    w == width,
                    wi == width,
                    n == width * width,
                    l@.len() == n,
                    u@.len() == n,
                    d@.len() == n,
                    a == pivot(m, w, layer as nat),
                    pivots_nonzero(m, w, (layer + 1) as nat),
                    forall|r: int, c: int|
                        0 <= r < wi && 0 <= c < wi ==> #[trigger] d@[flat_index(r, c, wi)] == if k
                            < r < i && k < c {
                            elim_at(m, w, (k + 1) as nat, r as nat, c as nat)
                        } else {
                            elim_at(m, w, k as nat, r as nat, c as nat)
                        },
                    forall|r: int, c: int|
                        0 <= r < wi && 0 <= c < wi ==> #[trigger] l@[flat_index(r, c, wi)] == if c
                            < k || (c == k && r < i) {
                            lower_entry(m, w, r as nat, c as nat)
                        } else {
                            T::spec_zero()
                        },
                    forall|r: int, c: int|
                        0 <= r < wi && 0 <= c < wi ==> #[trigger] u@[flat_index(r, c, wi)] == if r
                            < k || (r == k && c < i) {
                            upper_entry(m, w, r as nat, c as nat)
                        } else {
                            T::spec_zero()
                        },
                decreases width - i,
            {
                let ghost ii = i as int;
                proof {
                    lemma_flat_index_bounds(ii, k, wi);
                    lemma_flat_index_bounds(k, ii, wi);
                }
                let below = d[i * width + layer];
                assert(below == d@[flat_index(ii, k, wi)]);
                l.set(i * width + layer, below.div(a));
                let above = d[layer * width + i];
                assert(above == d@[flat_index(k, ii, wi)]);
                u.set(layer * width + i, above);
                proof {
                    assert forall|r: int, c: int| 0 <= r < wi && 0 <= c < wi implies #[trigger] l@[flat_index(r, c, wi)]
                        == if c < k || (c == k && r < ii + 1) {
                        lower_entry(m, w, r as nat, c as nat)
                    } else {
                        T::spec_zero()
                    } by {
                        lemma_flat_index_unique(r, c, ii, k, wi);
                        lemma_flat_index_bounds(r, c, wi);
                    }
                    assert forall|r: int, c: int| 0 <= r < wi && 0 <= c < wi implies #[trigger] u@[flat_index(r, c, wi)]
                        == if r < k || (r == k && c < ii + 1) {
                        upper_entry(m, w, r as nat, c as nat)
                    } else {
                        T::spec_zero()
                    } by {
                        lemma_flat_index_unique(r, c, k, ii, wi);
                        lemma_flat_index_bounds(r, c, wi);
                    }
                }
                let mut j: usize = layer + 1;
                while j < width
                    invariant
                        layer < width,
                        k == layer,
                        ii == i,
                        layer < i < width,
                        layer + 1 <= j <= width,
                        m == mat@,
                        w == width,
                        wi == width,
                        n == width * width,
                        d@.len() == n,
                        a == pivot(m, w, layer as nat),
                        below == elim_at(m, w, k as nat, ii as nat, k as nat),
                        forall|r: int, c: int|
                            0 <= r < wi && 0 <= c < wi ==> #[trigger] d@[flat_index(r, c, wi)] == if (
                            k < r < ii && k < c) || (r == ii && k < c < j) {
                                elim_at(m, w, (k + 1) as nat, r as nat, c as nat)
                            } else {
                                elim_at(m, w, k as nat, r as nat, c as nat)
                            },
                    decreases width - j,
                {
                    let ghost jj = j as int;
                    proof {
                        lemma_flat_index_bounds(ii, jj, wi);
                        lemma_flat_index_bounds(k, jj, wi);
                    }
                    let cur = d[i * width + j];
                    assert(cur == d@[flat_index(ii, jj, wi)]);
                    let upper = d[layer * width + j];
                    assert(upper == d@[flat_index(k, jj, wi)]);
                    d.set(i * width + j, cur.sub(upper.mul(below).div(a)));
                    proof {
                        assert forall|r: int, c: int| 0 <= r < wi && 0 <= c < wi implies #[trigger] d@[flat_index(r, c, wi)]
                            == if (k < r < ii && k < c) || (r == ii && k < c < jj + 1) {
                            elim_at(m, w, (k + 1) as nat, r as nat, c as nat)
                        } else {
                            elim_at(m, w, k as nat, r as nat, c as nat)
                        } by {
                            lemma_flat_index_unique(r, c, ii, jj, wi);
                            lemma_flat_index_bounds(r, c, wi);
                        }
                    }
                    j = j + 1;
                }
                i = i + 1;
            }
            proof {
                assert forall|r: int, c: int| 0 <= r < wi && 0 <= c < wi implies #[trigger] d@[flat_index(r, c, wi)]
                    == elim_at(m, w, (k + 1) as nat, r as nat, c as nat) by {
                    if !(k < r && k < c) {
                        assert(elim_at(m, w, (k + 1) as nat, r as nat, c as nat) == elim_at(
                            m,
                            w,
                            k as nat,
                            r as nat,
                            c as nat,
                        ));
                    }
                }
            }
            layer = layer + 1;
        }
        proof {
            assert forall|idx: int| 0 <= idx < n implies #[trigger] l@[idx] == lower_factor(m, w)[idx] by {
                lemma_row_major_slot(idx, wi);
            }
            assert forall|idx: int| 0 <= idx < n implies #[trigger] u@[idx] == upper_factor(m, w)[idx] by {
                lemma_row_major_slot(idx, wi);
            }
            assert(l@ =~= lower_factor(m, w));
            assert(u@ =~= upper_factor(m, w));
        }
        Ok((l, u))
    }

    /// Solves `l·u·x = b` given the two triangular factors.
    fn gauss_from_lu<T: Scalar>(&self, l: &[T], u: &[T], b: &[T], width: usize) -> (r: Result<
        Vec<T>,
        SolveError,
    >)
        ensures
            (l@.len() != width as int * width as int || u@.len() != width as int * width as int
                || b@.len() != width) <==> r == Err::<Vec<T>, SolveError>(
                SolveError::DimensionMismatch,
            ),
            r is Err ==> r == Err::<Vec<T>, SolveError>(SolveError::DimensionMismatch),
            r matches Ok(x) ==> x@ == backward_substitution(
                u@,
                forward_substitution(l@, b@, width as nat),
                width as nat,
            ),
    {
        if !is_square_len(l.len(), width) || !is_square_len(u.len(), width) || b.len() != width {
            return Err(SolveError::DimensionMismatch);
        }
        let v = self.l_gauss(l, b, width);
        proof {
            lemma_forward_seq_len(l@, b@, width as nat, width as nat);
        }
        let x = self.u_gauss(u, v.as_slice(), width);
        Ok(x)
    }

    /// Forward substitution for a unit lower triangular `l`.
    fn l_gauss<T: Scalar>(&self, l: &[T], b: &[T], width: usize) -> (r: Vec<T>)
        requires
            l@.len() == width * width,
            b@.len() == width,
        ensures
            r@ == forward_substitution(l@, b@, width as nat),
    {
        let total = l.len();
        let mut x = filled(T::one(), width);
        let mut i: usize = 0;
        while i < width
            invariant
                i <= width,
                total == width * width,
                l@.len() == width * width,
                b@.len() == width,
                x@.len() == width,
                x@.take(i as int) == forward_seq(l@, b@, width as nat, i as nat),
            decreases width - i,
        {
            let ghost prev = forward_seq(l@, b@, width as nat, i as nat);
            proof {
                lemma_forward_seq_len(l@, b@, width as nat, i as nat);
            }
            let mut xi = b[i];
            let mut j: usize = 0;
            while j < i
                invariant
                    j <= i < width,
                    total == width * width,
                    l@.len() == width * width,
                    b@.len() == width,
                    x@.len() == width,
                    x@.take(i as int) == prev,
                    prev.len() == i,
                    xi == forward_partial(l@, b@, prev, width as nat, i as nat, j as nat),
                decreases i - j,
            {
                proof {
                    lemma_flat_index_bounds(i as int, j as int, width as int);
                    assert(x@[j as int] == prev[j as int]);
                }
                xi = xi.sub(l[i * width + j].mul(x[j]));
                j = j + 1;
            }
            x.set(i, xi);
            assert(x@.take(i + 1) =~= forward_seq(l@, b@, width as nat, (i + 1) as nat));
            i = i + 1;
        }
        assert(x@ =~= x@.take(width as int));
        x
    }

    /// Backward substitution for an upper triangular `u`.
    fn u_gauss<T: Scalar>(&self, u: &[T], b: &[T], width: usize) -> (r: Vec<T>)
        requires
            u@.len() == width * width,
            b@.len() == width,
        ensures
            r@ == backward_substitution(u@, b@, width as nat),
    {
        let total = u.len();
        let mut x = filled(T::one(), width);
        let mut i: usize = 0;
        while i < width
            invariant
                i <= width,
                total == width * width,
                u@.len() == width * width,
                b@.len() == width,
                x@.len() == width,
                forall|m: int|
                    0 <= m < i ==> #[trigger] x@[width - 1 - m] == backward_seq(
                        u@,
                        b@,
                        width as nat,
                        i as nat,
                    )[m],
            decreases width - i,
        {
            let ghost prev = backward_seq(u@, b@, width as nat, i as nat);
            proof {
                lemma_backward_seq_len(u@, b@, width as nat, i as nat);
            }
            let row = width - i - 1;
            let mut xi = b[row];
            let mut j: usize = 0;
            while j < i
                invariant
                    j <= i < width,
                    row == width - i - 1,
                    total == width * width,
                    u@.len() == width * width,
                    b@.len() == width,
                    x@.len() == width,
                    prev.len() == i,
                    forall|m: int| 0 <= m < i ==> #[trigger] x@[width - 1 - m] == prev[m],
                    xi == backward_partial(u@, b@, prev, width as nat, i as nat, j as nat),
                decreases i - j,
            {
                let col = width - j - 1;
                proof {
                    lemma_flat_index_bounds(row as int, col as int, width as int);
                    assert(x@[width - 1 - j] == prev[j as int]);
                }
                xi = xi.sub(u[row * width + col].mul(x[col]));
                j = j + 1;
            }
            proof {
                lemma_flat_index_bounds(row as int, row as int, width as int);
            }
            x.set(row, xi.div(u[row * width + row]));
            proof {
                let next = backward_seq(u@, b@, width as nat, (i + 1) as nat);
                assert(next == prev.push(xi.spec_div(u@[flat_index(row as int, row as int, width as int)])));
                assert forall|m: int| 0 <= m < i + 1 implies #[trigger] x@[width - 1 - m] == next[m] by {
                    if m < i {
                        assert(x@[width - 1 - m] == prev[m]);
                    }
                }
            }
            i = i + 1;
        }
        proof {
            lemma_backward_seq_len(u@, b@, width as nat, width as nat);
            let y = backward_seq(u@, b@, width as nat, width as nat);
            assert forall|r: int| 0 <= r < width implies #[trigger] x@[r] == y[width - 1 - r] by {
                assert(x@[width - 1 - (width - 1 - r)] == y[width - 1 - r]);
            }
        }
        assert(x@ =~= backward_substitution(u@, b@, width as nat));
        x
    }
}

impl<T: Scalar> LinearEquationSolver<T> for LUSolver {
    open spec fn spec_solve(&self, mat: Seq<T>, width: nat, b: Seq<T>) -> Result<Seq<T>, SolveError> {
        lu_solve_spec(mat, width, b)
    }

    fn solve(&self, mat: &[T], width: usize, b: &[T]) -> (r: Result<Vec<T>, SolveError>) {
        if b.len() != width {
            return Err(SolveError::DimensionMismatch);
        }
        match self.lu(mat, width) {
            Err(e) => {
                assert(result_view(Err::<Vec<T>, SolveError>(e)) == lu_solve_spec(mat@, width as nat, b@));
                Err(e)
            },
            Ok((l, u)) => {
                proof {
                    assert(l@ == lower_factor(mat@, width as nat));
                    assert(lower_factor(mat@, width as nat).len() == width as int * width as int);
                    assert(l@.len() == width as int * width as int);
                    assert(u@.len() == width as int * width as int);
                    assert(pivots_nonzero(mat@, width as nat, width as nat));
                    assert(row_major(width as nat, |i: nat, j: nat| lower_entry(mat@, width as nat, i, j)).len()
                        == width * width);
                    assert(row_major(width as nat, |i: nat, j: nat| upper_entry(mat@, width as nat, i, j)).len()
                        == width * width);
                }
                let x = self.gauss_from_lu(l.as_slice(), u.as_slice(), b, width);
                assert(x is Ok);
                assert(result_view(x) == lu_solve_spec(mat@, width as nat, b@));
                x
            },
        }
    }
}

} // verus!
