use vstd::prelude::*;
use rayon::iter::{IntoParallelIterator, ParallelIterator};

verus! {

/// `[f(0), f(1), ..., f(n − 1)]`, the calls spread over rayon's worker pool.
///
/// Relies on rayon's `into_par_iter` over `0..n`, `map` and `collect` into a
/// `Vec`: the range is an indexed parallel iterator, `map` calls `f` once on
/// each index, and collecting an indexed iterator puts each result at its
/// index.
#[verifier::external_body]
pub(crate) fn par_map<T: Send, F: Fn(usize) -> T + Sync + Send>(n: usize, f: F) -> (r: Vec<T>)
    requires
        forall|i: usize| i < n ==> f.requires((i,)),
    ensures
        r@.len() == n,
        forall|i: int| 0 <= i < n ==> f.ensures((i as usize,), #[trigger] r@[i]),
{
    (0..n).into_par_iter().map(f).collect()
}

} // verus!
