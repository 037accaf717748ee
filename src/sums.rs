//! Sums over particle indices and the lemmas that let a sum over a grid's
//! candidate list stand for a sum over every particle.
use vstd::prelude::*;

verus! {

/// `f(0) + f(1) + ... + f(n - 1)`.
pub open spec fn sum_upto(f: spec_fn(int) -> int, n: int) -> int
    decreases n,
{
    if n <= 0 {
        0
    } else {
        sum_upto(f, n - 1) + f(n - 1)
    }
}

/// The sum of `f` over the indices listed in `s`, in order.
pub open spec fn sum_over(s: Seq<u32>, f: spec_fn(int) -> int) -> int
    decreases s.len(),
{
    if s.len() == 0 {
        0
    } else {
        sum_over(s.drop_last(), f) + f(s.last() as int)
    }
}

/// `f` restricted to the indices that `s` lists.
pub open spec fn restrict(s: Seq<u32>, f: spec_fn(int) -> int) -> spec_fn(int) -> int {
    |j: int| if s.contains(j as u32) { f(j) } else { 0 }
}

/// Every index that `s` lists is below `n`.
pub open spec fn indices_below(s: Seq<u32>, n: int) -> bool {
    forall|k: int| 0 <= k < s.len() ==> (#[trigger] s[k]) < n
}

pub proof fn lemma_sum_upto_ext(f: spec_fn(int) -> int, g: spec_fn(int) -> int, n: int)
    requires
        forall|j: int| 0 <= j < n ==> #[trigger] f(j) == g(j),
    ensures
        sum_upto(f, n) == sum_upto(g, n),
    decreases n,
{
    if n > 0 {
        lemma_sum_upto_ext(f, g, n - 1);
    }
}

/// Changing `f` at a single index `e` changes the sum by the same amount.
pub proof fn lemma_sum_upto_bump(f: spec_fn(int) -> int, g: spec_fn(int) -> int, n: int, e: int, c: int)
    requires
        0 <= e < n,
        f(e) == g(e) + c,
        forall|j: int| 0 <= j < n && j != e ==> #[trigger] f(j) == g(j),
    ensures
        sum_upto(f, n) == sum_upto(g, n) + c,
    decreases n,
{
    if e == n - 1 {
        lemma_sum_upto_ext(f, g, n - 1);
    } else {
        lemma_sum_upto_bump(f, g, n - 1, e, c);
    }
}

/// A sum over a list of distinct indices below `n` is the sum over `0..n` of
/// `f` restricted to that list.
pub proof fn lemma_sum_over_restrict(s: Seq<u32>, f: spec_fn(int) -> int, n: int)
    requires
        s.no_duplicates(),
        indices_below(s, n),
        n <= 0x1_0000_0000,
    ensures
        sum_over(s, f) == sum_upto(restrict(s, f), n),
    decreases s.len(),
{
    if s.len() == 0 {
        lemma_sum_upto_ext(restrict(s, f), |j: int| 0int, n);
        lemma_sum_upto_zero(n);
    } else {
        let t = s.drop_last();
        let e = s.last();
        assert(s == t.push(e));
        assert(t.no_duplicates()) by {
            assert forall|a: int, b: int| 0 <= a < t.len() && 0 <= b < t.len() && a != b
                implies t[a] != t[b] by {
                assert(t[a] == s[a] && t[b] == s[b]);
            }
        }
        assert(indices_below(t, n)) by {
            assert forall|k: int| 0 <= k < t.len() implies (#[trigger] t[k]) < n by {
                assert(t[k] == s[k]);
            }
        }
        assert(!t.contains(e)) by {
            if t.contains(e) {
                let k = choose|k: int| 0 <= k < t.len() && t[k] == e;
                assert(s[k] == s[s.len() - 1]);
            }
        }
        lemma_sum_over_restrict(t, f, n);
        assert(e < n) by {
            assert(s[s.len() - 1] < n);
        }
        assert forall|j: int| 0 <= j < n && j != e implies #[trigger] restrict(s, f)(j) == restrict(t, f)(j) by {
            if s.contains(j as u32) {
                let k = choose|k: int| 0 <= k < s.len() && s[k] == j as u32;
                assert(j as u32 == j);
                assert(k < t.len());
                assert(t[k] == s[k]);
            }
            if t.contains(j as u32) {
                let k = choose|k: int| 0 <= k < t.len() && t[k] == j as u32;
                assert(s[k] == t[k]);
            }
        }
        assert(s.contains(e)) by {
            assert(s[s.len() - 1] == e);
        }
        assert((e as int) as u32 == e);
        lemma_sum_upto_bump(restrict(s, f), restrict(t, f), n, e as int, f(e as int));
    }
}

pub proof fn lemma_sum_upto_zero(n: int)
    ensures
        sum_upto(|j: int| 0int, n) == 0,
    decreases n,
{
    if n > 0 {
        lemma_sum_upto_zero(n - 1);
    }
}

/// A list of distinct indices below `n` that holds every index where `f` is
/// not zero sums `f` to the same total as `0..n` does.
pub proof fn lemma_sum_over_complete(s: Seq<u32>, f: spec_fn(int) -> int, n: int)
    requires
        s.no_duplicates(),
        indices_below(s, n),
        n <= 0x1_0000_0000,
        forall|j: int| 0 <= j < n && #[trigger] f(j) != 0 ==> s.contains(j as u32),
    ensures
        sum_over(s, f) == sum_upto(f, n),
{
    lemma_sum_over_restrict(s, f, n);
    lemma_sum_upto_ext(restrict(s, f), f, n);
}

/// Each term lies in `[lo, hi]`, so the sum lies in `[n * lo, n * hi]`.
pub proof fn lemma_sum_upto_bounds(f: spec_fn(int) -> int, n: int, lo: int, hi: int)
    requires
        n >= 0,
        forall|j: int| 0 <= j < n ==> lo <= #[trigger] f(j) <= hi,
    ensures
        n * lo <= sum_upto(f, n) <= n * hi,
    decreases n,
{
    if n > 0 {
        lemma_sum_upto_bounds(f, n - 1, lo, hi);
        assert(lo <= f(n - 1) <= hi);
        assert((n - 1) * lo + lo == n * lo) by (nonlinear_arith);
        assert((n - 1) * hi + hi == n * hi) by (nonlinear_arith);
    } else {
        assert(n * lo == 0 && n * hi == 0) by (nonlinear_arith)
            requires n == 0;
    }
}

/// With no negative term, the sum is at least the term at `i`.
pub proof fn lemma_sum_upto_at_least(f: spec_fn(int) -> int, n: int, i: int)
    requires
        0 <= i < n,
        forall|j: int| 0 <= j < n ==> #[trigger] f(j) >= 0,
    ensures
        sum_upto(f, n) >= f(i),
    decreases n,
{
    if i < n - 1 {
        lemma_sum_upto_at_least(f, n - 1, i);
    } else {
        lemma_sum_upto_nonneg(f, n - 1);
    }
}

/// With no negative term, the sum is not negative.
pub proof fn lemma_sum_upto_nonneg(f: spec_fn(int) -> int, n: int)
    requires
        forall|j: int| 0 <= j < n ==> #[trigger] f(j) >= 0,
    ensures
        sum_upto(f, n) >= 0,
    decreases n,
{
    if n > 0 {
        lemma_sum_upto_nonneg(f, n - 1);
    }
}

/// Where every term but the one at `i` is zero, the sum is that term.
pub proof fn lemma_sum_upto_single(f: spec_fn(int) -> int, n: int, i: int)
    requires
        0 <= i < n,
        forall|j: int| 0 <= j < n && j != i ==> #[trigger] f(j) == 0,
    ensures
        sum_upto(f, n) == f(i),
{
    lemma_sum_upto_bump(f, |j: int| 0int, n, i, f(i));
    lemma_sum_upto_zero(n);
}

} // verus!
