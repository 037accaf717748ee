//! Fork-join evaluation of a per-index function over `0..n`.
use vstd::prelude::*;
use rayon::iter::{IndexedParallelIterator, IntoParallelIterator, ParallelIterator};

verus! {

/// Relies on rayon's `into_par_iter` on `Range<usize>`, `map` and
/// `IndexedParallelIterator::collect_into_vec`: `f` is called once on each
/// index below `n`, possibly on several threads, and the result at position
/// `i` is `f(i)`.
#[verifier::external_body]
pub(crate) fn par_map<T: Send, F: Fn(usize) -> T + Sync + Send>(n: usize, f: F) -> (out: Vec<T>)
    requires
        forall|i: usize| i < n ==> #[trigger] f.requires((i,)),
    ensures
        out@.len() == n,
        forall|i: int| 0 <= i < n ==> f.ensures((i as usize,), #[trigger] out@[i]),
{
    let mut out = Vec::new();
    (0..n).into_par_iter().map(f).collect_into_vec(&mut out);
    out
}

} // verus!
