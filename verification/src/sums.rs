//! Finite sums over index ranges, the mathematical vocabulary of every
//! dot product, convolution window and pooling window in this crate.
use vstd::prelude::*;

verus! {

/// `f(0) + f(1) + ... + f(n - 1)`; zero when `n <= 0`.
pub open spec fn sum(n: int, f: spec_fn(int) -> int) -> int
    decreases n,
{
    if n <= 0 {
        0
    } else {
        sum(n - 1, f) + f(n - 1)
    }
}

/// `f(i, j, 0) + ... + f(i, j, nk - 1)`: one row of a window.
pub open spec fn sum_k(f: spec_fn(int, int, int) -> int, i: int, j: int, nk: int) -> int
    decreases nk,
{
    if nk <= 0 {
        0
    } else {
        sum_k(f, i, j, nk - 1) + f(i, j, nk - 1)
    }
}

/// The first `nj` rows (each `ks` wide) of channel `i` of a window.
pub open spec fn sum_jk(f: spec_fn(int, int, int) -> int, i: int, nj: int, ks: int) -> int
    decreases nj,
{
    if nj <= 0 {
        0
    } else {
        sum_jk(f, i, nj - 1, ks) + sum_k(f, i, nj - 1, ks)
    }
}

/// The first `ni` channels of a `ks` x `ks` window.
pub open spec fn sum_ijk(f: spec_fn(int, int, int) -> int, ni: int, ks: int) -> int
    decreases ni,
{
    if ni <= 0 {
        0
    } else {
        sum_ijk(f, ni - 1, ks) + sum_jk(f, ni - 1, ks, ks)
    }
}

/// The running total of a triple loop over `i < ni`, `j < ks`, `k < ks`
/// when it stands at position `(i, j, k)`.
pub open spec fn partial_ijk(f: spec_fn(int, int, int) -> int, i: int, j: int, k: int, ks: int) -> int {
    sum_ijk(f, i, ks) + sum_jk(f, i, j, ks) + sum_k(f, i, j, k)
}

pub open spec fn nonneg3(f: spec_fn(int, int, int) -> int) -> bool {
    forall|i: int, j: int, k: int| #[trigger] f(i, j, k) >= 0
}

pub proof fn lemma_sum_mono(f: spec_fn(int) -> int, m: int, n: int)
    requires
        0 <= m <= n,
        forall|i: int| 0 <= i < n ==> #[trigger] f(i) >= 0,
    ensures
        0 <= sum(m, f) <= sum(n, f),
    decreases n,
{
    if n > m {
        lemma_sum_mono(f, m, n - 1);
    } else if n > 0 {
        lemma_sum_mono(f, n - 1, n - 1);
    }
}

/// A sum of a pointwise combination `f + l - g - h` is the same combination of the sums.
pub proof fn lemma_sum_combine(
    f: spec_fn(int) -> int,
    g: spec_fn(int) -> int,
    h: spec_fn(int) -> int,
    l: spec_fn(int) -> int,
    e: spec_fn(int) -> int,
    n: int,
)
    requires
        forall|i: int| 0 <= i < n ==> #[trigger] e(i) == f(i) + l(i) - g(i) - h(i),
    ensures
        sum(n, e) == sum(n, f) + sum(n, l) - sum(n, g) - sum(n, h),
    decreases n,
{
    if n > 0 {
        lemma_sum_combine(f, g, h, l, e, n - 1);
    }
}

pub proof fn lemma_sum_ext(f: spec_fn(int) -> int, g: spec_fn(int) -> int, n: int)
    requires
        forall|i: int| 0 <= i < n ==> #[trigger] f(i) == g(i),
    ensures
        sum(n, f) == sum(n, g),
    decreases n,
{
    if n > 0 {
        lemma_sum_ext(f, g, n - 1);
    }
}

pub proof fn lemma_sum_k_mono(f: spec_fn(int, int, int) -> int, i: int, j: int, m: int, n: int)
    requires
        0 <= m <= n,
        nonneg3(f),
    ensures
        0 <= sum_k(f, i, j, m) <= sum_k(f, i, j, n),
    decreases n,
{
    if n > m {
        assert(f(i, j, n - 1) >= 0);
        lemma_sum_k_mono(f, i, j, m, n - 1);
    } else if n > 0 {
        assert(f(i, j, n - 1) >= 0);
        lemma_sum_k_mono(f, i, j, n - 1, n - 1);
    }
}

pub proof fn lemma_sum_jk_mono(f: spec_fn(int, int, int) -> int, i: int, m: int, n: int, ks: int)
    requires
        0 <= m <= n,
        0 <= ks,
        nonneg3(f),
    ensures
        0 <= sum_jk(f, i, m, ks) <= sum_jk(f, i, n, ks),
    decreases n,
{
    if n > 0 {
        lemma_sum_k_mono(f, i, n - 1, 0, ks);
        if n > m {
            lemma_sum_jk_mono(f, i, m, n - 1, ks);
        } else {
            lemma_sum_jk_mono(f, i, n - 1, n - 1, ks);
        }
    }
}

pub proof fn lemma_sum_ijk_mono(f: spec_fn(int, int, int) -> int, m: int, n: int, ks: int)
    requires
        0 <= m <= n,
        0 <= ks,
        nonneg3(f),
    ensures
        0 <= sum_ijk(f, m, ks) <= sum_ijk(f, n, ks),
    decreases n,
{
    if n > 0 {
        lemma_sum_jk_mono(f, n - 1, 0, ks, ks);
        if n > m {
            lemma_sum_ijk_mono(f, m, n - 1, ks);
        } else {
            lemma_sum_ijk_mono(f, n - 1, n - 1, ks);
        }
    }
}

/// With nonnegative terms, every running total of the triple loop is bounded by the full sum.
pub proof fn lemma_partial_ijk_bounded(f: spec_fn(int, int, int) -> int, i: int, j: int, k: int, ni: int, ks: int)
    requires
        0 <= i < ni,
        0 <= j < ks,
        0 <= k <= ks,
        nonneg3(f),
    ensures
        0 <= partial_ijk(f, i, j, k, ks) <= sum_ijk(f, ni, ks),
{
    lemma_sum_k_mono(f, i, j, k, ks);
    lemma_sum_jk_mono(f, i, j + 1, ks, ks);
    lemma_sum_jk_mono(f, i, 0, j, ks);
    lemma_sum_ijk_mono(f, i + 1, ni, ks);
    lemma_sum_ijk_mono(f, 0, i, ks);
}

pub proof fn lemma_sum_k_combine(
    f: spec_fn(int, int, int) -> int,
    g: spec_fn(int, int, int) -> int,
    h: spec_fn(int, int, int) -> int,
    l: spec_fn(int, int, int) -> int,
    e: spec_fn(int, int, int) -> int,
    i: int,
    j: int,
    n: int,
)
    requires
        forall|a: int, b: int, c: int| #[trigger] e(a, b, c) == f(a, b, c) + l(a, b, c) - g(a, b, c) - h(a, b, c),
    ensures
        sum_k(e, i, j, n) == sum_k(f, i, j, n) + sum_k(l, i, j, n) - sum_k(g, i, j, n) - sum_k(h, i, j, n),
    decreases n,
{
    if n > 0 {
        assert(e(i, j, n - 1) == f(i, j, n - 1) + l(i, j, n - 1) - g(i, j, n - 1) - h(i, j, n - 1));
        lemma_sum_k_combine(f, g, h, l, e, i, j, n - 1);
    }
}

pub proof fn lemma_sum_jk_combine(
    f: spec_fn(int, int, int) -> int,
    g: spec_fn(int, int, int) -> int,
    h: spec_fn(int, int, int) -> int,
    l: spec_fn(int, int, int) -> int,
    e: spec_fn(int, int, int) -> int,
    i: int,
    n: int,
    ks: int,
)
    requires
        forall|a: int, b: int, c: int| #[trigger] e(a, b, c) == f(a, b, c) + l(a, b, c) - g(a, b, c) - h(a, b, c),
    ensures
        sum_jk(e, i, n, ks) == sum_jk(f, i, n, ks) + sum_jk(l, i, n, ks) - sum_jk(g, i, n, ks) - sum_jk(h, i, n, ks),
    decreases n,
{
    if n > 0 {
        lemma_sum_k_combine(f, g, h, l, e, i, n - 1, ks);
        lemma_sum_jk_combine(f, g, h, l, e, i, n - 1, ks);
    }
}

/// A window sum of a pointwise combination `f + l - g - h` is the same combination of the window sums.
pub proof fn lemma_sum_ijk_combine(
    f: spec_fn(int, int, int) -> int,
    g: spec_fn(int, int, int) -> int,
    h: spec_fn(int, int, int) -> int,
    l: spec_fn(int, int, int) -> int,
    e: spec_fn(int, int, int) -> int,
    n: int,
    ks: int,
)
    requires
        forall|a: int, b: int, c: int| #[trigger] e(a, b, c) == f(a, b, c) + l(a, b, c) - g(a, b, c) - h(a, b, c),
    ensures
        sum_ijk(e, n, ks) == sum_ijk(f, n, ks) + sum_ijk(l, n, ks) - sum_ijk(g, n, ks) - sum_ijk(h, n, ks),
    decreases n,
{
    if n > 0 {
        lemma_sum_jk_combine(f, g, h, l, e, n - 1, ks, ks);
        lemma_sum_ijk_combine(f, g, h, l, e, n - 1, ks);
    }
}

} // verus!
