//! Verified kernels for a dense square matrix-multiplication micro-benchmark.
//!
//! Three kernels compute the product of two row-major `n`-by-`n` matrices:
//! a textbook `ijk` triple loop, a row-oriented `ikj` reformulation, and a
//! blocked (tiled) variant parameterised by a block size.  All three are
//! proved to compute the same mathematical product, and for the benchmark's
//! synthetic inputs (A all ones, B constant along each row) every cell of
//! the result is proved to equal `n * (n + 1) / 2`.
//!
//! Timing and printing belong to the surrounding driver; the kernels here
//! take pre-filled buffers so a driver can measure the compute region alone.

pub mod fill;
pub mod kernels;
pub mod model;
