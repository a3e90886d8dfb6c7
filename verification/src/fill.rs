//! Allocation and initialisation of the benchmark's buffers, and the
//! verification slice taken from a result matrix.
//!
//! Each kernel invocation owns three freshly filled `n`-by-`n` buffers:
//! A is all ones, every entry of row `r` of B is `r + 1`, and C starts at
//! zero.  A driver fills the buffers first so that its timed region covers
//! the multiplication alone.

use vstd::prelude::*;

use crate::model::{all_ones, all_zero, lemma_oidx_bounds, oidx, row_pattern};

verus! {

/// A fresh `n`-by-`n` matrix with every entry equal to `value`.
fn fill_constant(n: usize, value: u64) -> (s: Vec<u64>)
    requires
        n * n <= usize::MAX,
    ensures
        s@.len() == n * n,
        forall|t: int| 0 <= t < n * n ==> s@[t] == value,
{
    let total = n * n;
    let mut s: Vec<u64> = Vec::new();
    let mut t: usize = 0;
    while t < total
        invariant
            t <= total,
            total == n * n,
            s@.len() == t,
            forall|q: int| 0 <= q < t ==> s@[q] == value,
        decreases total - t,
    {
        s.push(value);
        t = t + 1;
    }
    s
}

/// The synthetic A: an `n`-by-`n` matrix of ones.
pub fn fill_ones(n: usize) -> (a: Vec<u64>)
    requires
        n * n <= usize::MAX,
    ensures
        all_ones(a@, n as int),
{
    let a = fill_constant(n, 1);
    proof {
        assert forall|r: int, c: int|
            0 <= r < n && 0 <= c < n implies a@[#[trigger] oidx(n as int, r, c)] == 1u64 by {
            lemma_oidx_bounds(n as int, r, c);
        }
    }
    a
}

/// The synthetic B: every entry of row `r` is `r + 1`.
pub fn fill_row_pattern(n: usize) -> (b: Vec<u64>)
    requires
        n * n <= usize::MAX,
    ensures
        row_pattern(b@, n as int),
{
    let mut b: Vec<u64> = Vec::new();
    let mut r: usize = 0;
    while r < n
        invariant
            r <= n,
            n * n <= usize::MAX,
            b@.len() == r * n,
            forall|r2: int, c2: int|
                #![trigger oidx(n as int, r2, c2)]
                0 <= r2 < r && 0 <= c2 < n ==> b@[oidx(n as int, r2, c2)] as int == r2 + 1,
        decreases n - r,
    {
        let mut c: usize = 0;
        while c < n
            invariant
                c <= n,
                r < n,
                n * n <= usize::MAX,
                b@.len() == r * n + c,
                forall|r2: int, c2: int|
                    #![trigger oidx(n as int, r2, c2)]
                    0 <= r2 < r && 0 <= c2 < n ==> b@[oidx(n as int, r2, c2)] as int == r2 + 1,
                forall|c2: int|
                    #![trigger oidx(n as int, r as int, c2)]
                    0 <= c2 < c ==> b@[oidx(n as int, r as int, c2)] as int == r + 1,
            decreases n - c,
        {
            proof {
                lemma_oidx_bounds(n as int, r as int, c as int);
            }
            let ghost prev = b@;
            b.push((r as u64) + 1);
            proof {
                assert(b@[oidx(n as int, r as int, c as int)] as int == r + 1);
                assert forall|r2: int, c2: int|
                    0 <= r2 < r && 0 <= c2 < n implies b@[#[trigger] oidx(
                    n as int,
                    r2,
                    c2,
                )] as int == r2 + 1 by {
                    lemma_oidx_bounds(n as int, r2, c2);
                    vstd::arithmetic::mul::lemma_mul_inequality(r2 + 1, r as int, n as int);
                    assert((r2 + 1) * n == r2 * n + n) by (nonlinear_arith);
                    assert(oidx(n as int, r2, c2) < r * n);
                }
            }
            c = c + 1;
        }
        proof {
            assert(r * n + n == (r + 1) * n) by (nonlinear_arith);
        }
        r = r + 1;
    }
    proof {
        assert(b@.len() == n * n);
    }
    b
}

/// A zeroed `n`-by-`n` output matrix C.
pub fn fill_zero(n: usize) -> (c: Vec<u64>)
    requires
        n * n <= usize::MAX,
    ensures
        all_zero(c@, n as int),
{
    let c = fill_constant(n, 0);
    proof {
        assert forall|r: int, cc: int|
            0 <= r < n && 0 <= cc < n implies c@[#[trigger] oidx(n as int, r, cc)] == 0u64 by {
            lemma_oidx_bounds(n as int, r, cc);
        }
    }
    c
}

/// The verification slice: the first `min(10, n)` entries of the result
/// matrix in flat order, which for row-major storage is a prefix of the
/// first row.
pub fn verification_slice(c: &Vec<u64>, n: usize) -> (s: Vec<u64>)
    requires
        1 <= n,
        c@.len() == n * n,
    ensures
        s@.len() == if n < 10 { n as int } else { 10 },
        forall|t: int| 0 <= t < s@.len() ==> s@[t] == c@[t],
{
    let count = if n < 10 { n } else { 10 };
    proof {
        vstd::arithmetic::mul::lemma_mul_inequality(1, n as int, n as int);
        vstd::arithmetic::mul::lemma_mul_basics(n as int);
    }
    let mut s: Vec<u64> = Vec::new();
    let mut t: usize = 0;
    while t < count
        invariant
            t <= count,
            count <= n <= c@.len(),
            s@.len() == t,
            forall|q: int| 0 <= q < t ==> s@[q] == c@[q],
        decreases count - t,
    {
        s.push(c[t]);
        t = t + 1;
    }
    s
}

} // verus!
