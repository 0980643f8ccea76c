//! Finite sums of integers, and how they behave under the rearrangements
//! that matrix algebra needs.
use crate::phfe::algebra::lemma_block_compose;
use vstd::arithmetic::div_mod::lemma_add_mod_noop;
use vstd::prelude::*;

verus! {

/// The sum of `f(l)` over `0 <= l < n`.
pub open spec fn sum_to(f: spec_fn(int) -> int, n: int) -> int
    decreases n,
{
    if n <= 0 {
        0
    } else {
        sum_to(f, n - 1) + f(n - 1)
    }
}

/// Sums of functions that agree below `n` agree.
pub proof fn lemma_sum_ext(f: spec_fn(int) -> int, g: spec_fn(int) -> int, n: int)
    requires
        forall|l: int| 0 <= l < n ==> #[trigger] f(l) == g(l),
    ensures
        sum_to(f, n) == sum_to(g, n),
    decreases n,
{
    if n > 0 {
        lemma_sum_ext(f, g, n - 1);
        assert(f(n - 1) == g(n - 1));
    }
}

/// Sums of functions that are congruent below `n` are congruent.
pub proof fn lemma_sum_congruent(f: spec_fn(int) -> int, g: spec_fn(int) -> int, n: int, m: int)
    requires
        m > 0,
        forall|l: int| 0 <= l < n ==> #[trigger] f(l) % m == g(l) % m,
    ensures
        sum_to(f, n) % m == sum_to(g, n) % m,
    decreases n,
{
    if n > 0 {
        lemma_sum_congruent(f, g, n - 1, m);
        assert(f(n - 1) % m == g(n - 1) % m);
        lemma_add_mod_noop(sum_to(f, n - 1), f(n - 1), m);
        lemma_add_mod_noop(sum_to(g, n - 1), g(n - 1), m);
    }
}

/// The sum of a sum of two functions is the sum of their sums.
pub proof fn lemma_sum_add(
    f: spec_fn(int) -> int,
    g: spec_fn(int) -> int,
    h: spec_fn(int) -> int,
    n: int,
)
    requires
        forall|l: int| 0 <= l < n ==> #[trigger] h(l) == f(l) + g(l),
    ensures
        sum_to(h, n) == sum_to(f, n) + sum_to(g, n),
    decreases n,
{
    if n > 0 {
        lemma_sum_add(f, g, h, n - 1);
        assert(h(n - 1) == f(n - 1) + g(n - 1));
    }
}

/// A constant factor can be taken out of a sum.
pub proof fn lemma_sum_scale(f: spec_fn(int) -> int, h: spec_fn(int) -> int, c: int, n: int)
    requires
        forall|l: int| 0 <= l < n ==> #[trigger] h(l) == c * f(l),
    ensures
        sum_to(h, n) == c * sum_to(f, n),
    decreases n,
{
    if n > 0 {
        lemma_sum_scale(f, h, c, n - 1);
        assert(h(n - 1) == c * f(n - 1));
        assert(c * (sum_to(f, n - 1) + f(n - 1)) == c * sum_to(f, n - 1) + c * f(n - 1))
            by (nonlinear_arith);
    } else {
        assert(c * 0 == 0);
    }
}

/// A sum of zeros is zero.
pub proof fn lemma_sum_zero(f: spec_fn(int) -> int, n: int)
    requires
        forall|l: int| 0 <= l < n ==> #[trigger] f(l) == 0,
    ensures
        sum_to(f, n) == 0,
    decreases n,
{
    if n > 0 {
        lemma_sum_zero(f, n - 1);
        assert(f(n - 1) == 0);
    }
}

/// A sum in which only the term at `at` may differ from zero is that term.
pub proof fn lemma_sum_single(f: spec_fn(int) -> int, n: int, at: int)
    requires
        0 <= at < n,
        forall|l: int| 0 <= l < n && l != at ==> #[trigger] f(l) == 0,
    ensures
        sum_to(f, n) == f(at),
    decreases n,
{
    if n - 1 == at {
        lemma_sum_zero(f, n - 1);
    } else {
        lemma_sum_single(f, n - 1, at);
        assert(f(n - 1) == 0);
    }
}

/// A sum over `n + m` terms is the sum of the first `n` and of the `m` that
/// follow.
pub proof fn lemma_sum_split(f: spec_fn(int) -> int, g: spec_fn(int) -> int, n: int, m: int)
    requires
        0 <= n,
        0 <= m,
        forall|l: int| 0 <= l < m ==> #[trigger] g(l) == f(n + l),
    ensures
        sum_to(f, n + m) == sum_to(f, n) + sum_to(g, m),
    decreases m,
{
    if m > 0 {
        lemma_sum_split(f, g, n, m - 1);
        assert(g(m - 1) == f(n + (m - 1)));
    }
}

/// The order of two nested sums can be exchanged: `rows(l)` is the sum of
/// `h(l, k)` over `k < m`, and `cols(k)` is the sum of `h(l, k)` over `l < n`.
pub proof fn lemma_sum_exchange(
    h: spec_fn(int, int) -> int,
    rows: spec_fn(int) -> int,
    cols: spec_fn(int) -> int,
    n: int,
    m: int,
)
    requires
        0 <= n,
        0 <= m,
        forall|l: int| 0 <= l < n ==> #[trigger] rows(l) == sum_to(|k: int| h(l, k), m),
        forall|k: int| 0 <= k < m ==> #[trigger] cols(k) == sum_to(|l: int| h(l, k), n),
    ensures
        sum_to(rows, n) == sum_to(cols, m),
    decreases n,
{
    if n == 0 {
        lemma_sum_zero(cols, m);
    } else {
        // cols(k) = cols'(k) + h(n - 1, k), where cols' sums over l < n - 1
        let cols_before = |k: int| sum_to(|l: int| h(l, k), n - 1);
        let last_row = |k: int| h(n - 1, k);
        lemma_sum_exchange(h, rows, cols_before, n - 1, m);
        assert forall|k: int| 0 <= k < m implies #[trigger] cols(k) == cols_before(k) + last_row(
            k,
        ) by {
            let col = |l: int| h(l, k);
            assert(sum_to(col, n) == sum_to(col, n - 1) + col(n - 1));
        }
        lemma_sum_add(cols_before, last_row, cols, m);
        assert(rows(n - 1) == sum_to(last_row, m));
    }
}

/// A sum over `n` blocks of `k` places is the sum, over the blocks, of the
/// sums over the places.
pub proof fn lemma_sum_blocks(
    h: spec_fn(int, int) -> int,
    flat: spec_fn(int) -> int,
    blocks: spec_fn(int) -> int,
    n: int,
    k: int,
)
    requires
        0 <= n,
        0 < k,
        forall|i: int| 0 <= i < n * k ==> #[trigger] flat(i) == h(i / k, i % k),
        forall|p: int| 0 <= p < n ==> #[trigger] blocks(p) == sum_to(|q: int| h(p, q), k),
    ensures
        sum_to(flat, n * k) == sum_to(blocks, n),
    decreases n,
{
    if n == 0 {
        assert(n * k == 0) by (nonlinear_arith)
            requires
                n == 0,
        ;
    } else {
        assert((n - 1) * k + k == n * k) by (nonlinear_arith);
        assert(0 <= (n - 1) * k) by (nonlinear_arith)
            requires
                n >= 1,
                k > 0,
        ;
        assert forall|i: int| 0 <= i < (n - 1) * k implies #[trigger] flat(i) == h(i / k, i % k) by {
            assert(i < n * k);
        }
        lemma_sum_blocks(h, flat, blocks, n - 1, k);
        let last = |q: int| h(n - 1, q);
        assert forall|q: int| 0 <= q < k implies #[trigger] last(q) == flat((n - 1) * k + q) by {
            lemma_block_compose(n - 1, q, n, k);
        }
        lemma_sum_split(flat, last, (n - 1) * k, k);
        assert(blocks(n - 1) == sum_to(last, k));
    }
}

} // verus!
