//! Mathematical model of the benchmark's matrices.
//!
//! A square matrix of dimension `n` is a flat sequence of `n * n` values in
//! row-major order: element `(r, c)` lives at offset `r * n + c`.  The model
//! fixes the synthetic input patterns, the partial dot products that the
//! kernels accumulate, and the closed-form value of every output cell.

use vstd::prelude::*;

verus! {

/// Row-major offset of element `(r, c)` in an `n`-by-`n` matrix.
pub open spec fn oidx(n: int, r: int, c: int) -> int {
    r * n + c
}

/// Sum of the first `m` terms of the dot product of row `r` of `a` with
/// column `c` of `b`, both read as row-major `n`-by-`n` matrices.
pub open spec fn dotp(a: Seq<u64>, b: Seq<u64>, n: int, r: int, c: int, m: int) -> int
    decreases m,
{
    if m <= 0 {
        0
    } else {
        dotp(a, b, n, r, c, m - 1) + (a[oidx(n, r, m - 1)] as int) * (b[oidx(n, m - 1, c)] as int)
    }
}

/// The matrix holds `n * n` entries and every entry is one (the synthetic A).
pub open spec fn all_ones(s: Seq<u64>, n: int) -> bool {
    &&& s.len() == n * n
    &&& forall|r: int, c: int|
        #![trigger oidx(n, r, c)]
        0 <= r < n && 0 <= c < n ==> s[oidx(n, r, c)] == 1u64
}

/// The matrix holds `n * n` entries and every entry of row `r` is `r + 1`
/// (the synthetic B).
pub open spec fn row_pattern(s: Seq<u64>, n: int) -> bool {
    &&& s.len() == n * n
    &&& forall|r: int, c: int|
        #![trigger oidx(n, r, c)]
        0 <= r < n && 0 <= c < n ==> s[oidx(n, r, c)] as int == r + 1
}

/// The matrix holds `n * n` entries, all zero.
pub open spec fn all_zero(s: Seq<u64>, n: int) -> bool {
    &&& s.len() == n * n
    &&& forall|r: int, c: int|
        #![trigger oidx(n, r, c)]
        0 <= r < n && 0 <= c < n ==> s[oidx(n, r, c)] == 0u64
}

/// `c` is the matrix product of `a` and `b`: every cell holds the full dot
/// product of its row of `a` with its column of `b`.
pub open spec fn is_product(a: Seq<u64>, b: Seq<u64>, c: Seq<u64>, n: int) -> bool {
    &&& c.len() == n * n
    &&& forall|r: int, cc: int|
        #![trigger oidx(n, r, cc)]
        0 <= r < n && 0 <= cc < n ==> c[oidx(n, r, cc)] as int == dotp(a, b, n, r, cc, n)
}

/// Every full dot product of `a` and `b` fits in a `u64` cell.
pub open spec fn products_fit(a: Seq<u64>, b: Seq<u64>, n: int) -> bool {
    forall|r: int, cc: int|
        #![trigger dotp(a, b, n, r, cc, n)]
        0 <= r < n && 0 <= cc < n ==> dotp(a, b, n, r, cc, n) <= u64::MAX
}

/// The triangular number `1 + 2 + ... + n`: the exact value of every output
/// cell for the synthetic inputs.
pub open spec fn gauss(n: int) -> int
    decreases n,
{
    if n <= 0 {
        0
    } else {
        gauss(n - 1) + n
    }
}

/// A row-major offset of an in-range element lies inside the flat buffer.
pub proof fn lemma_oidx_bounds(n: int, r: int, c: int)
    by (nonlinear_arith)
    requires
        0 <= r < n,
        0 <= c < n,
    ensures
        0 <= r * n + c < n * n,
{
}

/// Distinct in-range coordinates have distinct row-major offsets.
pub proof fn lemma_oidx_distinct(n: int, r1: int, c1: int, r2: int, c2: int)
    by (nonlinear_arith)
    requires
        0 <= r1 < n,
        0 <= c1 < n,
        0 <= r2 < n,
        0 <= c2 < n,
        !(r1 == r2 && c1 == c2),
    ensures
        r1 * n + c1 != r2 * n + c2,
{
}

/// A flat offset inside the buffer splits into in-range coordinates that map
/// back to it.
pub proof fn lemma_flat_split(n: int, t: int)
    requires
        1 <= n,
        0 <= t < n * n,
    ensures
        0 <= t / n < n,
        0 <= t % n < n,
        t == oidx(n, t / n, t % n),
{
    vstd::arithmetic::div_mod::lemma_fundamental_div_mod(t, n);
    assert(0 <= t / n < n && 0 <= t % n < n && t == (t / n) * n + (t % n)) by (nonlinear_arith)
        requires
            1 <= n,
            0 <= t < n * n,
            t == n * (t / n) + (t % n),
    ;
}

/// Partial dot products of unsigned entries are non-negative and grow with
/// the number of terms.
pub proof fn lemma_dotp_mono(a: Seq<u64>, b: Seq<u64>, n: int, r: int, c: int, m1: int, m2: int)
    requires
        0 <= m1 <= m2,
    ensures
        0 <= dotp(a, b, n, r, c, m1) <= dotp(a, b, n, r, c, m2),
    decreases m2,
{
    if m1 == m2 {
        if m1 > 0 {
            lemma_dotp_mono(a, b, n, r, c, m1 - 1, m1 - 1);
            vstd::arithmetic::mul::lemma_mul_nonnegative(
                a[oidx(n, r, m1 - 1)] as int,
                b[oidx(n, m1 - 1, c)] as int,
            );
        }
    } else {
        lemma_dotp_mono(a, b, n, r, c, m1, m2 - 1);
        vstd::arithmetic::mul::lemma_mul_nonnegative(
            a[oidx(n, r, m2 - 1)] as int,
            b[oidx(n, m2 - 1, c)] as int,
        );
    }
}

/// For the synthetic inputs, the `m`-term partial dot product of any row and
/// column equals the triangular number `gauss(m)`.
pub proof fn lemma_dotp_canonical(a: Seq<u64>, b: Seq<u64>, n: int, r: int, c: int, m: int)
    requires
        all_ones(a, n),
        row_pattern(b, n),
        0 <= r < n,
        0 <= c < n,
        0 <= m <= n,
    ensures
        dotp(a, b, n, r, c, m) == gauss(m),
    decreases m,
{
    if m > 0 {
        lemma_dotp_canonical(a, b, n, r, c, m - 1);
        lemma_oidx_bounds(n, r, m - 1);
        lemma_oidx_bounds(n, m - 1, c);
        assert(a[oidx(n, r, m - 1)] == 1u64);
        assert(b[oidx(n, m - 1, c)] as int == m);
        vstd::arithmetic::mul::lemma_mul_basics(b[oidx(n, m - 1, c)] as int);
    }
}

/// Twice the triangular number `gauss(n)` is `n * (n + 1)`.
pub proof fn lemma_gauss_times_two(n: int)
    requires
        0 <= n,
    ensures
        2 * gauss(n) == n * (n + 1),
    decreases n,
{
    if n > 0 {
        lemma_gauss_times_two(n - 1);
        let g1 = gauss(n - 1);
        assert(2 * (g1 + n) == n * (n + 1)) by (nonlinear_arith)
            requires
                2 * g1 == (n - 1) * n,
        ;
    } else {
        vstd::arithmetic::mul::lemma_mul_basics(n + 1);
    }
}

/// Closed form of the triangular number: `gauss(n) == n * (n + 1) / 2`.
pub proof fn lemma_gauss_closed_form(n: int)
    requires
        0 <= n,
    ensures
        gauss(n) == n * (n + 1) / 2,
{
    lemma_gauss_times_two(n);
}

} // verus!
