//! The three multiplication kernels and their entry points.
//!
//! Each kernel computes the product of two row-major `n`-by-`n` matrices
//! into a caller-supplied output buffer, so that a driver can time the
//! multiplication alone, after allocation and initialisation.  All three
//! are proved to satisfy the same postcondition, `is_product`: the output
//! does not depend on which kernel ran, nor on the block size.
//!
//! The entry points `mult_naive`, `mult_line` and `mult_block` run a kernel
//! on the benchmark's synthetic inputs and are proved to fill every cell
//! with the triangular number `gauss(n) == n * (n + 1) / 2`.

use vstd::prelude::*;

use crate::fill::{fill_ones, fill_row_pattern, fill_zero};
use crate::model::{
    all_ones, all_zero, dotp, gauss, is_product, lemma_dotp_canonical, lemma_dotp_mono,
    lemma_flat_split, lemma_gauss_times_two, lemma_oidx_bounds, lemma_oidx_distinct, oidx,
    products_fit, row_pattern,
};

verus! {

/// The textbook `ijk` triple loop: each output cell is accumulated in a
/// scalar and stored exactly once.
#[verifier::loop_isolation(false)]
pub fn naive_kernel(n: usize, a: &Vec<u64>, b: &Vec<u64>, c: &mut Vec<u64>)
    requires
        1 <= n,
        n * n <= usize::MAX,
        a@.len() == n * n,
        b@.len() == n * n,
        old(c)@.len() == n * n,
        products_fit(a@, b@, n as int),
    ensures
        is_product(a@, b@, final(c)@, n as int),
{
    let ghost nn = n as int;
    let mut i: usize = 0;
    while i < n
        invariant
            i <= n,
            c@.len() == n * n,
            forall|r: int, cc: int|
                #![trigger oidx(nn, r, cc)]
                0 <= r < i && 0 <= cc < nn ==> c@[oidx(nn, r, cc)] as int == dotp(
                    a@,
                    b@,
                    nn,
                    r,
                    cc,
                    nn,
                ),
        decreases n - i,
    {
        let mut j: usize = 0;
        while j < n
            invariant
                j <= n,
                i < n,
                c@.len() == n * n,
                forall|r: int, cc: int|
                    #![trigger oidx(nn, r, cc)]
                    0 <= r < i && 0 <= cc < nn ==> c@[oidx(nn, r, cc)] as int == dotp(
                        a@,
                        b@,
                        nn,
                        r,
                        cc,
                        nn,
                    ),
                forall|cc: int|
                    #![trigger oidx(nn, i as int, cc)]
                    0 <= cc < j ==> c@[oidx(nn, i as int, cc)] as int == dotp(
                        a@,
                        b@,
                        nn,
                        i as int,
                        cc,
                        nn,
                    ),
            decreases n - j,
        {
            let mut temp: u64 = 0;
            let mut k: usize = 0;
            while k < n
                invariant
                    k <= n,
                    i < n,
                    j < n,
                    temp as int == dotp(a@, b@, nn, i as int, j as int, k as int),
                decreases n - k,
            {
                proof {
                    lemma_oidx_bounds(nn, i as int, k as int);
                    lemma_oidx_bounds(nn, k as int, j as int);
                    lemma_dotp_mono(a@, b@, nn, i as int, j as int, k as int + 1, nn);
                    assert(dotp(a@, b@, nn, i as int, j as int, k as int + 1) == dotp(
                        a@,
                        b@,
                        nn,
                        i as int,
                        j as int,
                        k as int,
                    ) + (a@[oidx(nn, i as int, k as int)] as int) * (b@[oidx(
                        nn,
                        k as int,
                        j as int,
                    )] as int));
                }
                temp = temp + a[i * n + k] * b[k * n + j];
                k = k + 1;
            }
            proof {
                lemma_oidx_bounds(nn, i as int, j as int);
            }
            let ghost prev = c@;
            c[i * n + j] = temp;
            proof {
                assert forall|r: int, cc: int|
                    0 <= r < nn && 0 <= cc < nn && !(r == i && cc == j) implies c@[#[trigger] oidx(
                    nn,
                    r,
                    cc,
                )] == prev[oidx(nn, r, cc)] by {
                    lemma_oidx_bounds(nn, r, cc);
                    lemma_oidx_distinct(nn, r, cc, i as int, j as int);
                }
                assert(c@[oidx(nn, i as int, j as int)] == temp);
            }
            j = j + 1;
        }
        i = i + 1;
    }
}

/// The row-oriented `ikj` reformulation: the entry `a[i][k]` is hoisted out
/// of the innermost loop, which then streams along rows of both B and C,
/// accumulating into an output that must start at zero.
#[verifier::loop_isolation(false)]
pub fn line_kernel(n: usize, a: &Vec<u64>, b: &Vec<u64>, c: &mut Vec<u64>)
    requires
        1 <= n,
        n * n <= usize::MAX,
        a@.len() == n * n,
        b@.len() == n * n,
        all_zero(old(c)@, n as int),
        products_fit(a@, b@, n as int),
    ensures
        is_product(a@, b@, final(c)@, n as int),
{
    let ghost nn = n as int;
    let mut i: usize = 0;
    while i < n
        invariant
            i <= n,
            c@.len() == n * n,
            forall|r: int, cc: int|
                #![trigger oidx(nn, r, cc)]
                0 <= r < i && 0 <= cc < nn ==> c@[oidx(nn, r, cc)] as int == dotp(
                    a@,
                    b@,
                    nn,
                    r,
                    cc,
                    nn,
                ),
            forall|r: int, cc: int|
                #![trigger oidx(nn, r, cc)]
                i <= r < nn && 0 <= cc < nn ==> c@[oidx(nn, r, cc)] == 0u64,
        decreases n - i,
    {
        let mut k: usize = 0;
        while k < n
            invariant
                k <= n,
                i < n,
                c@.len() == n * n,
                forall|r: int, cc: int|
                    #![trigger oidx(nn, r, cc)]
                    0 <= r < i && 0 <= cc < nn ==> c@[oidx(nn, r, cc)] as int == dotp(
                        a@,
                        b@,
                        nn,
                        r,
                        cc,
                        nn,
                    ),
                forall|cc: int|
                    #![trigger oidx(nn, i as int, cc)]
                    0 <= cc < nn ==> c@[oidx(nn, i as int, cc)] as int == dotp(
                        a@,
                        b@,
                        nn,
                        i as int,
                        cc,
                        k as int,
                    ),
                forall|r: int, cc: int|
                    #![trigger oidx(nn, r, cc)]
                    i < r < nn && 0 <= cc < nn ==> c@[oidx(nn, r, cc)] == 0u64,
            decreases n - k,
        {
            proof {
                lemma_oidx_bounds(nn, i as int, k as int);
            }
            let temp = a[i * n + k];
            let mut j: usize = 0;
            while j < n
                invariant
                    j <= n,
                    i < n,
                    k < n,
                    temp == a@[oidx(nn, i as int, k as int)],
                    c@.len() == n * n,
                    forall|r: int, cc: int|
                        #![trigger oidx(nn, r, cc)]
                        0 <= r < i && 0 <= cc < nn ==> c@[oidx(nn, r, cc)] as int == dotp(
                            a@,
                            b@,
                            nn,
                            r,
                            cc,
                            nn,
                        ),
                    forall|cc: int|
                        #![trigger oidx(nn, i as int, cc)]
                        0 <= cc < j ==> c@[oidx(nn, i as int, cc)] as int == dotp(
                            a@,
                            b@,
                            nn,
                            i as int,
                            cc,
                            k as int + 1,
                        ),
                    forall|cc: int|
                        #![trigger oidx(nn, i as int, cc)]
                        j <= cc < nn ==> c@[oidx(nn, i as int, cc)] as int == dotp(
                            a@,
                            b@,
                            nn,
                            i as int,
                            cc,
                            k as int,
                        ),
                    forall|r: int, cc: int|
                        #![trigger oidx(nn, r, cc)]
                        i < r < nn && 0 <= cc < nn ==> c@[oidx(nn, r, cc)] == 0u64,
                decreases n - j,
            {
                proof {
                    lemma_oidx_bounds(nn, i as int, j as int);
                    lemma_oidx_bounds(nn, k as int, j as int);
                    lemma_dotp_mono(a@, b@, nn, i as int, j as int, k as int, k as int + 1);
                    lemma_dotp_mono(a@, b@, nn, i as int, j as int, k as int + 1, nn);
                    assert(dotp(a@, b@, nn, i as int, j as int, k as int + 1) == dotp(
                        a@,
                        b@,
                        nn,
                        i as int,
                        j as int,
                        k as int,
                    ) + (a@[oidx(nn, i as int, k as int)] as int) * (b@[oidx(
                        nn,
                        k as int,
                        j as int,
                    )] as int));
                    assert(c@[oidx(nn, i as int, j as int)] as int == dotp(
                        a@,
                        b@,
                        nn,
                        i as int,
                        j as int,
                        k as int,
                    ));
                }
                let ghost prev = c@;
                c[i * n + j] = c[i * n + j] + temp * b[k * n + j];
                proof {
                    assert forall|r: int, cc: int|
                        0 <= r < nn && 0 <= cc < nn && !(r == i && cc == j) implies c@[
                    #[trigger] oidx(nn, r, cc)] == prev[oidx(nn, r, cc)] by {
                        lemma_oidx_bounds(nn, r, cc);
                        lemma_oidx_distinct(nn, r, cc, i as int, j as int);
                    }
                    assert(c@[oidx(nn, i as int, j as int)] as int == dotp(
                        a@,
                        b@,
                        nn,
                        i as int,
                        j as int,
                        k as int + 1,
                    ));
                }
                j = j + 1;
            }
            k = k + 1;
        }
        i = i + 1;
    }
}

/// The blocked (tiled) kernel: all three dimensions are tiled by `bs`, with
/// `min(origin + bs, n)` clamps at the edges, and the inner three-level nest
/// mirrors the line kernel within one tile.  The result is proved identical
/// to the other kernels for every block size, including `bs == 1` and
/// `bs >= n`.
#[verifier::loop_isolation(false)]
pub fn block_kernel(n: usize, bs: usize, a: &Vec<u64>, b: &Vec<u64>, c: &mut Vec<u64>)
    requires
        1 <= n,
        1 <= bs,
        n * n <= usize::MAX,
        a@.len() == n * n,
        b@.len() == n * n,
        all_zero(old(c)@, n as int),
        products_fit(a@, b@, n as int),
    ensures
        is_product(a@, b@, final(c)@, n as int),
{
    let ghost nn = n as int;
    let mut i: usize = 0;
    while i < n
        invariant
            i <= n,
            c@.len() == n * n,
            forall|r: int, cc: int|
                #![trigger oidx(nn, r, cc)]
                0 <= r < i && 0 <= cc < nn ==> c@[oidx(nn, r, cc)] as int == dotp(
                    a@,
                    b@,
                    nn,
                    r,
                    cc,
                    nn,
                ),
            forall|r: int, cc: int|
                #![trigger oidx(nn, r, cc)]
                i <= r < nn && 0 <= cc < nn ==> c@[oidx(nn, r, cc)] == 0u64,
        decreases n - i,
    {
        let iend = if n - i <= bs {
            n
        } else {
            i + bs
        };
        let mut j: usize = 0;
        while j < n
            invariant
                j <= n,
                i < iend <= n,
                c@.len() == n * n,
                forall|r: int, cc: int|
                    #![trigger oidx(nn, r, cc)]
                    0 <= r < i && 0 <= cc < nn ==> c@[oidx(nn, r, cc)] as int == dotp(
                        a@,
                        b@,
                        nn,
                        r,
                        cc,
                        nn,
                    ),
                forall|r: int, cc: int|
                    #![trigger oidx(nn, r, cc)]
                    i <= r < iend && 0 <= cc < j ==> c@[oidx(nn, r, cc)] as int == dotp(
                        a@,
                        b@,
                        nn,
                        r,
                        cc,
                        nn,
                    ),
                forall|r: int, cc: int|
                    #![trigger oidx(nn, r, cc)]
                    i <= r < iend && j <= cc < nn ==> c@[oidx(nn, r, cc)] == 0u64,
                forall|r: int, cc: int|
                    #![trigger oidx(nn, r, cc)]
                    iend <= r < nn && 0 <= cc < nn ==> c@[oidx(nn, r, cc)] == 0u64,
            decreases n - j,
        {
            let jend = if n - j <= bs {
                n
            } else {
                j + bs
            };
            let mut k: usize = 0;
            while k < n
                invariant
                    k <= n,
                    i < iend <= n,
                    j < jend <= n,
                    c@.len() == n * n,
                    forall|r: int, cc: int|
                        #![trigger oidx(nn, r, cc)]
                        0 <= r < i && 0 <= cc < nn ==> c@[oidx(nn, r, cc)] as int == dotp(
                            a@,
                            b@,
                            nn,
                            r,
                            cc,
                            nn,
                        ),
                    forall|r: int, cc: int|
                        #![trigger oidx(nn, r, cc)]
                        i <= r < iend && 0 <= cc < j ==> c@[oidx(nn, r, cc)] as int == dotp(
                            a@,
                            b@,
                            nn,
                            r,
                            cc,
                            nn,
                        ),
                    forall|r: int, cc: int|
                        #![trigger oidx(nn, r, cc)]
                        i <= r < iend && j <= cc < jend ==> c@[oidx(nn, r, cc)] as int == dotp(
                            a@,
                            b@,
                            nn,
                            r,
                            cc,
                            k as int,
                        ),
                    forall|r: int, cc: int|
                        #![trigger oidx(nn, r, cc)]
                        i <= r < iend && jend <= cc < nn ==> c@[oidx(nn, r, cc)] == 0u64,
                    forall|r: int, cc: int|
                        #![trigger oidx(nn, r, cc)]
                        iend <= r < nn && 0 <= cc < nn ==> c@[oidx(nn, r, cc)] == 0u64,
                decreases n - k,
            {
                let kend = if n - k <= bs {
                    n
                } else {
                    k + bs
                };
                let mut ii = i;
                while ii < iend
                    invariant
                        i <= ii <= iend,
                        i < iend <= n,
                        j < jend <= n,
                        k < kend <= n,
                        c@.len() == n * n,
                        forall|r: int, cc: int|
                            #![trigger oidx(nn, r, cc)]
                            0 <= r < i && 0 <= cc < nn ==> c@[oidx(nn, r, cc)] as int == dotp(
                                a@,
                                b@,
                                nn,
                                r,
                                cc,
                                nn,
                            ),
                        forall|r: int, cc: int|
                            #![trigger oidx(nn, r, cc)]
                            i <= r < iend && 0 <= cc < j ==> c@[oidx(nn, r, cc)] as int == dotp(
                                a@,
                                b@,
                                nn,
                                r,
                                cc,
                                nn,
                            ),
                        forall|r: int, cc: int|
                            #![trigger oidx(nn, r, cc)]
                            i <= r < ii && j <= cc < jend ==> c@[oidx(nn, r, cc)] as int == dotp(
                                a@,
                                b@,
                                nn,
                                r,
                                cc,
                                kend as int,
                            ),
                        forall|r: int, cc: int|
                            #![trigger oidx(nn, r, cc)]
                            ii <= r < iend && j <= cc < jend ==> c@[oidx(nn, r, cc)] as int == dotp(
                                a@,
                                b@,
                                nn,
                                r,
                                cc,
                                k as int,
                            ),
                        forall|r: int, cc: int|
                            #![trigger oidx(nn, r, cc)]
                            i <= r < iend && jend <= cc < nn ==> c@[oidx(nn, r, cc)] == 0u64,
                        forall|r: int, cc: int|
                            #![trigger oidx(nn, r, cc)]
                            iend <= r < nn && 0 <= cc < nn ==> c@[oidx(nn, r, cc)] == 0u64,
                    decreases iend - ii,
                {
                    let mut kk = k;
                    while kk < kend
                        invariant
                            k <= kk <= kend,
                            i <= ii < iend <= n,
                            j < jend <= n,
                            k < kend <= n,
                            c@.len() == n * n,
                            forall|r: int, cc: int|
                                #![trigger oidx(nn, r, cc)]
                                0 <= r < i && 0 <= cc < nn ==> c@[oidx(nn, r, cc)] as int == dotp(
                                    a@,
                                    b@,
                                    nn,
                                    r,
                                    cc,
                                    nn,
                                ),
                            forall|r: int, cc: int|
                                #![trigger oidx(nn, r, cc)]
                                i <= r < iend && 0 <= cc < j ==> c@[oidx(nn, r, cc)] as int == dotp(
                                    a@,
                                    b@,
                                    nn,
                                    r,
                                    cc,
                                    nn,
                                ),
                            forall|r: int, cc: int|
                                #![trigger oidx(nn, r, cc)]
                                i <= r < ii && j <= cc < jend ==> c@[oidx(nn, r, cc)] as int
                                    == dotp(a@, b@, nn, r, cc, kend as int),
                            forall|cc: int|
                                #![trigger oidx(nn, ii as int, cc)]
                                j <= cc < jend ==> c@[oidx(nn, ii as int, cc)] as int == dotp(
                                    a@,
                                    b@,
                                    nn,
                                    ii as int,
                                    cc,
                                    kk as int,
                                ),
                            forall|r: int, cc: int|
                                #![trigger oidx(nn, r, cc)]
                                ii < r < iend && j <= cc < jend ==> c@[oidx(nn, r, cc)] as int
                                    == dotp(a@, b@, nn, r, cc, k as int),
                            forall|r: int, cc: int|
                                #![trigger oidx(nn, r, cc)]
                                i <= r < iend && jend <= cc < nn ==> c@[oidx(nn, r, cc)] == 0u64,
                            forall|r: int, cc: int|
                                #![trigger oidx(nn, r, cc)]
                                iend <= r < nn && 0 <= cc < nn ==> c@[oidx(nn, r, cc)] == 0u64,
                        decreases kend - kk,
                    {
                        proof {
                            lemma_oidx_bounds(nn, ii as int, kk as int);
                        }
                        let temp = a[ii * n + kk];
                        let mut jj = j;
                        while jj < jend
                            invariant
                                j <= jj <= jend,
                                i <= ii < iend <= n,
                                j < jend <= n,
                                k <= kk < kend <= n,
                                temp == a@[oidx(nn, ii as int, kk as int)],
                                c@.len() == n * n,
                                forall|r: int, cc: int|
                                    #![trigger oidx(nn, r, cc)]
                                    0 <= r < i && 0 <= cc < nn ==> c@[oidx(nn, r, cc)] as int
                                        == dotp(a@, b@, nn, r, cc, nn),
                                forall|r: int, cc: int|
                                    #![trigger oidx(nn, r, cc)]
                                    i <= r < iend && 0 <= cc < j ==> c@[oidx(nn, r, cc)] as int
                                        == dotp(a@, b@, nn, r, cc, nn),
                                forall|r: int, cc: int|
                                    #![trigger oidx(nn, r, cc)]
                                    i <= r < ii && j <= cc < jend ==> c@[oidx(nn, r, cc)] as int
                                        == dotp(a@, b@, nn, r, cc, kend as int),
                                forall|cc: int|
                                    #![trigger oidx(nn, ii as int, cc)]
                                    j <= cc < jj ==> c@[oidx(nn, ii as int, cc)] as int == dotp(
                                        a@,
                                        b@,
                                        nn,
                                        ii as int,
                                        cc,
                                        kk as int + 1,
                                    ),
                                forall|cc: int|
                                    #![trigger oidx(nn, ii as int, cc)]
                                    jj <= cc < jend ==> c@[oidx(nn, ii as int, cc)] as int == dotp(
                                        a@,
                                        b@,
                                        nn,
                                        ii as int,
                                        cc,
                                        kk as int,
                                    ),
                                forall|r: int, cc: int|
                                    #![trigger oidx(nn, r, cc)]
                                    ii < r < iend && j <= cc < jend ==> c@[oidx(nn, r, cc)] as int
                                        == dotp(a@, b@, nn, r, cc, k as int),
                                forall|r: int, cc: int|
                                    #![trigger oidx(nn, r, cc)]
                                    i <= r < iend && jend <= cc < nn ==> c@[oidx(nn, r, cc)]
                                        == 0u64,
                                forall|r: int, cc: int|
                                    #![trigger oidx(nn, r, cc)]
                                    iend <= r < nn && 0 <= cc < nn ==> c@[oidx(nn, r, cc)] == 0u64,
                            decreases jend - jj,
                        {
                            proof {
                                lemma_oidx_bounds(nn, ii as int, jj as int);
                                lemma_oidx_bounds(nn, kk as int, jj as int);
                                lemma_dotp_mono(a@, b@, nn, ii as int, jj as int, kk as int, kk
                                    as int + 1);
                                lemma_dotp_mono(a@, b@, nn, ii as int, jj as int, kk as int + 1, nn);
                                assert(dotp(a@, b@, nn, ii as int, jj as int, kk as int + 1)
                                    == dotp(a@, b@, nn, ii as int, jj as int, kk as int) + (a@[oidx(
                                    nn,
                                    ii as int,
                                    kk as int,
                                )] as int) * (b@[oidx(nn, kk as int, jj as int)] as int));
                                assert(c@[oidx(nn, ii as int, jj as int)] as int == dotp(
                                    a@,
                                    b@,
                                    nn,
                                    ii as int,
                                    jj as int,
                                    kk as int,
                                ));
                            }
                            let ghost prev = c@;
                            c[ii * n + jj] = c[ii * n + jj] + temp * b[kk * n + jj];
                            proof {
                                assert forall|r: int, cc: int|
                                    0 <= r < nn && 0 <= cc < nn && !(r == ii && cc == jj) implies c@[
                                #[trigger] oidx(nn, r, cc)] == prev[oidx(nn, r, cc)] by {
                                    lemma_oidx_bounds(nn, r, cc);
                                    lemma_oidx_distinct(nn, r, cc, ii as int, jj as int);
                                }
                                assert(c@[oidx(nn, ii as int, jj as int)] as int == dotp(
                                    a@,
                                    b@,
                                    nn,
                                    ii as int,
                                    jj as int,
                                    kk as int + 1,
                                ));
                            }
                            jj = jj + 1;
                        }
                        kk = kk + 1;
                    }
                    ii = ii + 1;
                }
                k = kend;
            }
            j = jend;
        }
        i = iend;
    }
}

/// Allocates and fills the three synthetic buffers of one invocation, and
/// establishes that every full dot product over them fits in a cell.
fn canonical_buffers(n: usize) -> (r: (Vec<u64>, Vec<u64>, Vec<u64>))
    requires
        1 <= n,
        n * n <= usize::MAX,
        gauss(n as int) <= u64::MAX,
    ensures
        all_ones(r.0@, n as int),
        row_pattern(r.1@, n as int),
        all_zero(r.2@, n as int),
        products_fit(r.0@, r.1@, n as int),
{
    let a = fill_ones(n);
    let b = fill_row_pattern(n);
    let c = fill_zero(n);
    proof {
        assert forall|r2: int, cc: int|
            0 <= r2 < n && 0 <= cc < n implies #[trigger] dotp(
            a@,
            b@,
            n as int,
            r2,
            cc,
            n as int,
        ) <= u64::MAX by {
            lemma_dotp_canonical(a@, b@, n as int, r2, cc, n as int);
        }
    }
    (a, b, c)
}

/// Correctness of every kernel on the synthetic inputs: a matrix satisfying
/// the product postcondition holds the triangular number `gauss(n)` — that
/// is, `n * (n + 1) / 2` — in every cell.
pub proof fn lemma_canonical_product(a: Seq<u64>, b: Seq<u64>, c: Seq<u64>, n: int)
    requires
        1 <= n,
        all_ones(a, n),
        row_pattern(b, n),
        is_product(a, b, c, n),
    ensures
        forall|r: int, cc: int|
            #![trigger oidx(n, r, cc)]
            0 <= r < n && 0 <= cc < n ==> c[oidx(n, r, cc)] as int == gauss(n),
{
    assert forall|r: int, cc: int|
        0 <= r < n && 0 <= cc < n implies c[#[trigger] oidx(n, r, cc)] as int == gauss(n) by {
        lemma_dotp_canonical(a, b, n, r, cc, n);
    }
}

/// `mult_naive(n)`: the naive `ijk` kernel on the synthetic inputs.  Every
/// cell of the result is the triangular number `gauss(n)`.
pub fn mult_naive(n: usize) -> (c: Vec<u64>)
    requires
        1 <= n,
        n * n <= usize::MAX,
        gauss(n as int) <= u64::MAX,
    ensures
        c@.len() == n * n,
        forall|r: int, cc: int|
            #![trigger oidx(n as int, r, cc)]
            0 <= r < n && 0 <= cc < n ==> c@[oidx(n as int, r, cc)] as int == gauss(n as int),
{
    let (a, b, mut c) = canonical_buffers(n);
    naive_kernel(n, &a, &b, &mut c);
    proof {
        lemma_canonical_product(a@, b@, c@, n as int);
    }
    c
}

/// `mult_line(n)`: the `ikj` line kernel on the synthetic inputs.  Every
/// cell of the result is the triangular number `gauss(n)`.
pub fn mult_line(n: usize) -> (c: Vec<u64>)
    requires
        1 <= n,
        n * n <= usize::MAX,
        gauss(n as int) <= u64::MAX,
    ensures
        c@.len() == n * n,
        forall|r: int, cc: int|
            #![trigger oidx(n as int, r, cc)]
            0 <= r < n && 0 <= cc < n ==> c@[oidx(n as int, r, cc)] as int == gauss(n as int),
{
    let (a, b, mut c) = canonical_buffers(n);
    line_kernel(n, &a, &b, &mut c);
    proof {
        lemma_canonical_product(a@, b@, c@, n as int);
    }
    c
}

/// `mult_block(n, bs)`: the blocked kernel on the synthetic inputs.  The
/// postcondition does not mention the block size: for every `bs >= 1`,
/// including `bs == 1` and `bs >= n`, every cell of the result is the
/// triangular number `gauss(n)`.
pub fn mult_block(n: usize, bs: usize) -> (c: Vec<u64>)
    requires
        1 <= n,
        1 <= bs,
        n * n <= usize::MAX,
        gauss(n as int) <= u64::MAX,
    ensures
        c@.len() == n * n,
        forall|r: int, cc: int|
            #![trigger oidx(n as int, r, cc)]
            0 <= r < n && 0 <= cc < n ==> c@[oidx(n as int, r, cc)] as int == gauss(n as int),
{
    let (a, b, mut c) = canonical_buffers(n);
    block_kernel(n, bs, &a, &b, &mut c);
    proof {
        lemma_canonical_product(a@, b@, c@, n as int);
    }
    c
}

/// The benchmark's boundary checks on a dimension: `n` is positive, the
/// flat buffers fit in a machine address space, and the cell value
/// `gauss(n)` fits in a cell.
pub fn dimension_fits(n: usize) -> (ok: bool)
    ensures
        ok <==> (1 <= n && n * n <= usize::MAX && gauss(n as int) <= u64::MAX),
{
    if n == 0 {
        return false;
    }
    if n.checked_mul(n).is_none() {
        proof {
            assert(n * n > usize::MAX);
        }
        return false;
    }
    let wide = n as u128;
    proof {
        assert(wide * wide <= u64::MAX as u128 * u64::MAX as u128) by (nonlinear_arith)
            requires
                wide <= u64::MAX as u128,
        ;
    }
    let twice_gauss = wide * wide + wide;
    proof {
        lemma_gauss_times_two(n as int);
        assert(wide * wide + wide == n * (n + 1)) by (nonlinear_arith)
            requires
                wide == n,
        ;
    }
    let g = twice_gauss / 2;
    proof {
        assert(g as int == gauss(n as int));
    }
    g <= u64::MAX as u128
}

/// `mult_naive` behind the benchmark's input checks: rejects a zero
/// dimension, and sizes whose buffers or cell values would not fit the
/// machine, instead of requiring the caller to rule them out.
pub fn try_mult_naive(n: usize) -> (r: Option<Vec<u64>>)
    ensures
        r is Some <==> (1 <= n && n * n <= usize::MAX && gauss(n as int) <= u64::MAX),
        r is Some ==> r->0@.len() == n * n,
        r is Some ==> forall|r2: int, cc: int|
            #![trigger oidx(n as int, r2, cc)]
            0 <= r2 < n && 0 <= cc < n ==> r->0@[oidx(n as int, r2, cc)] as int == gauss(n as int),
{
    if !dimension_fits(n) {
        return None;
    }
    Some(mult_naive(n))
}

/// `mult_line` behind the same input checks as `try_mult_naive`.
pub fn try_mult_line(n: usize) -> (r: Option<Vec<u64>>)
    ensures
        r is Some <==> (1 <= n && n * n <= usize::MAX && gauss(n as int) <= u64::MAX),
        r is Some ==> r->0@.len() == n * n,
        r is Some ==> forall|r2: int, cc: int|
            #![trigger oidx(n as int, r2, cc)]
            0 <= r2 < n && 0 <= cc < n ==> r->0@[oidx(n as int, r2, cc)] as int == gauss(n as int),
{
    if !dimension_fits(n) {
        return None;
    }
    Some(mult_line(n))
}

/// `mult_block` behind the same input checks, which additionally reject a
/// zero block size.
pub fn try_mult_block(n: usize, bs: usize) -> (r: Option<Vec<u64>>)
    ensures
        r is Some <==> (1 <= n && 1 <= bs && n * n <= usize::MAX && gauss(n as int) <= u64::MAX),
        r is Some ==> r->0@.len() == n * n,
        r is Some ==> forall|r2: int, cc: int|
            #![trigger oidx(n as int, r2, cc)]
            0 <= r2 < n && 0 <= cc < n ==> r->0@[oidx(n as int, r2, cc)] as int == gauss(n as int),
{
    if bs == 0 {
        return None;
    }
    if !dimension_fits(n) {
        return None;
    }
    Some(mult_block(n, bs))
}

/// Inter-kernel agreement: the product postcondition determines the output
/// matrix completely, so any two kernels run on the same inputs — naive,
/// line, or blocked with any block size — produce identical results.
pub proof fn lemma_kernels_agree(a: Seq<u64>, b: Seq<u64>, c1: Seq<u64>, c2: Seq<u64>, n: int)
    requires
        1 <= n,
        is_product(a, b, c1, n),
        is_product(a, b, c2, n),
    ensures
        c1 == c2,
{
    assert forall|t: int| 0 <= t < c1.len() implies c1[t] == c2[t] by {
        lemma_flat_split(n, t);
    }
    assert(c1 =~= c2);
}

/// Block-kernel degeneracy: the blocked kernel's postcondition holds for
/// every block size `bs >= 1` — in particular for `bs == 1`, `bs == n` and
/// any `bs > n` — so its result always equals the line kernel's.
pub proof fn lemma_block_degeneracy(
    a: Seq<u64>,
    b: Seq<u64>,
    c_block: Seq<u64>,
    c_line: Seq<u64>,
    n: int,
    bs: int,
)
    requires
        1 <= n,
        1 <= bs,
        is_product(a, b, c_block, n),
        is_product(a, b, c_line, n),
    ensures
        c_block == c_line,
{
    lemma_kernels_agree(a, b, c_block, c_line, n);
}

} // verus!
