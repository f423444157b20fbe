//! Convolution windows: one output value of a convolution, as a plain `i8` sum
//! truncated to `i8`, or as a zero-point quantized `u8` sum in `u32` or `u64`.
use vstd::prelude::*;
use crate::sums::{sum_ijk, sum_jk, sum_k, partial_ijk, nonneg3, lemma_partial_ijk_bounded, lemma_sum_ijk_combine};

verus! {

/// Position `(i, j, k)` of a window at `(h, w)` is inside both the input and the kernel.
pub open spec fn in_window<T>(x: Seq<Seq<Seq<T>>>, ker: Seq<Seq<Seq<T>>>, h: int, w: int, i: int, j: int, k: int) -> bool {
    &&& i < x.len()
    &&& h + j < x[i].len()
    &&& w + k < x[i][h + j].len()
    &&& j < ker[i].len()
    &&& k < ker[i][j].len()
}

/// The window of kernel `ker` (channels `ker.len()`, size `ker[0].len()`) at row `h`
/// and column `w` of `x` can be read: the kernel has a channel, the window's ends
/// fit in `usize`, and every position of the window is inside the input and the kernel.
pub open spec fn window_ok<T>(x: Seq<Seq<Seq<T>>>, ker: Seq<Seq<Seq<T>>>, h: int, w: int) -> bool {
    let c = ker.len() as int;
    let ks = ker[0].len() as int;
    &&& c > 0
    &&& 0 <= h
    &&& 0 <= w
    &&& h + ks <= usize::MAX
    &&& w + ks <= usize::MAX
    &&& forall|i: int, j: int, k: int| 0 <= i < c && 0 <= j < ks && 0 <= k < ks
        ==> #[trigger] in_window(x, ker, h, w, i, j, k)
}

/// The kernel size: the number of rows of the first channel of the kernel.
pub open spec fn ksize<T>(ker: Seq<Seq<Seq<T>>>) -> int {
    ker[0].len() as int
}

// ---------------------------------------------------------------------------
// Plain i8 windows.

pub open spec fn win_i8(x: Seq<Seq<Seq<i8>>>, ker: Seq<Seq<Seq<i8>>>, h: int, w: int) -> spec_fn(int, int, int) -> int {
    |i: int, j: int, k: int| x[i][h + j][w + k] * ker[i][j][k]
}

/// Every running total of the window sum fits in an `i32` accumulator.
pub open spec fn window_fits_i32(x: Seq<Seq<Seq<i8>>>, ker: Seq<Seq<Seq<i8>>>, h: int, w: int) -> bool {
    let ks = ksize(ker);
    forall|i: int, j: int, k: int| 0 <= i < ker.len() && 0 <= j < ks && 0 <= k <= ks
        ==> i32::MIN <= #[trigger] partial_ijk(win_i8(x, ker, h, w), i, j, k, ks) <= i32::MAX
}

/// `conv_kernel_scala(x, ker, h, w)` is defined.
pub open spec fn conv_i8_ok(x: Seq<Seq<Seq<i8>>>, ker: Seq<Seq<Seq<i8>>>, h: int, w: int) -> bool {
    window_ok(x, ker, h, w) && window_fits_i32(x, ker, h, w)
}

/// The window sum, truncated to `i8`.
pub open spec fn conv_i8_val(x: Seq<Seq<Seq<i8>>>, ker: Seq<Seq<Seq<i8>>>, h: int, w: int) -> i8 {
    sum_ijk(win_i8(x, ker, h, w), ker.len() as int, ksize(ker)) as i8
}

/// One output of a plain convolution: the sum over all channels of the kernel
/// times the input window at `(h_index, w_index)`, truncated to `i8`.
pub fn conv_kernel_scala(
    x: &Vec<Vec<Vec<i8>>>,
    kernel: &Vec<Vec<Vec<i8>>>,
    h_index: usize,
    w_index: usize,
) -> (r: i8)
    requires
        conv_i8_ok(crate::tensor::t3(x@), crate::tensor::t3(kernel@), h_index as int, w_index as int),
    ensures
        r == conv_i8_val(crate::tensor::t3(x@), crate::tensor::t3(kernel@), h_index as int, w_index as int),
{
    let ghost xs = crate::tensor::t3(x@);
    let ghost ks3 = crate::tensor::t3(kernel@);
    let ghost f = win_i8(xs, ks3, h_index as int, w_index as int);
    let num_channels = kernel.len();
    let kernel_size = kernel[0].len();
    let mut tmp1: i32 = 0;
    for i in 0..num_channels
        invariant
            num_channels == ks3.len(),
            kernel_size == ksize(ks3),
            xs == crate::tensor::t3(x@),
            ks3 == crate::tensor::t3(kernel@),
            f == win_i8(xs, ks3, h_index as int, w_index as int),
            conv_i8_ok(xs, ks3, h_index as int, w_index as int),
            tmp1 == sum_ijk(f, i as int, kernel_size as int),
    {
        for j in h_index..(h_index + kernel_size)
            invariant
                num_channels == ks3.len(),
                kernel_size == ksize(ks3),
                0 <= i < num_channels,
                xs == crate::tensor::t3(x@),
                ks3 == crate::tensor::t3(kernel@),
                f == win_i8(xs, ks3, h_index as int, w_index as int),
                conv_i8_ok(xs, ks3, h_index as int, w_index as int),
                h_index <= j <= h_index + kernel_size,
                tmp1 == sum_ijk(f, i as int, kernel_size as int) + sum_jk(f, i as int, j - h_index, kernel_size as int),
        {
            for k in w_index..(w_index + kernel_size)
                invariant
                    num_channels == ks3.len(),
                    kernel_size == ksize(ks3),
                    0 <= i < num_channels,
                    h_index <= j < h_index + kernel_size,
                    xs == crate::tensor::t3(x@),
                    ks3 == crate::tensor::t3(kernel@),
                    f == win_i8(xs, ks3, h_index as int, w_index as int),
                    conv_i8_ok(xs, ks3, h_index as int, w_index as int),
                    w_index <= k <= w_index + kernel_size,
                    tmp1 == partial_ijk(f, i as int, j - h_index, k - w_index, kernel_size as int),
            {
                let jj = j - h_index;
                let kk = k - w_index;
                assert(in_window(xs, ks3, h_index as int, w_index as int, i as int, jj as int, kk as int));
                assert(i32::MIN <= partial_ijk(f, i as int, jj as int, kk + 1, kernel_size as int) <= i32::MAX);
                let a = x[i][j][k];
                let b = kernel[i][jj][kk];
                assert(f(i as int, jj as int, kk as int) == a * b);
                assert(-16384 <= a as int * b as int <= 16384) by (nonlinear_arith)
                    requires -128 <= a <= 127, -128 <= b <= 127;
                tmp1 += (a as i32) * (b as i32);
            }
        }
    }
    #[verifier::truncate]
    (tmp1 as i8)
}

// ---------------------------------------------------------------------------
// Zero-point quantized u8 windows.

pub open spec fn win_xk(x: Seq<Seq<Seq<u8>>>, ker: Seq<Seq<Seq<u8>>>, h: int, w: int) -> spec_fn(int, int, int) -> int {
    |i: int, j: int, k: int| x[i][h + j][w + k] * ker[i][j][k]
}

pub open spec fn win_x_kz(x: Seq<Seq<Seq<u8>>>, h: int, w: int, kz: u8) -> spec_fn(int, int, int) -> int {
    |i: int, j: int, k: int| x[i][h + j][w + k] * kz
}

pub open spec fn win_k_xz(ker: Seq<Seq<Seq<u8>>>, xz: u8) -> spec_fn(int, int, int) -> int {
    |i: int, j: int, k: int| ker[i][j][k] * xz
}

pub open spec fn win_xz_kz(xz: u8, kz: u8) -> spec_fn(int, int, int) -> int {
    |i: int, j: int, k: int| xz * kz
}

pub open spec fn win_centered(x: Seq<Seq<Seq<u8>>>, ker: Seq<Seq<Seq<u8>>>, h: int, w: int, xz: u8, kz: u8) -> spec_fn(int, int, int) -> int {
    |i: int, j: int, k: int| (x[i][h + j][w + k] - xz) * (ker[i][j][k] - kz)
}

/// The four window sums that a quantized convolution accumulates separately.
pub open spec fn cw_xk(x: Seq<Seq<Seq<u8>>>, ker: Seq<Seq<Seq<u8>>>, h: int, w: int) -> int {
    sum_ijk(win_xk(x, ker, h, w), ker.len() as int, ksize(ker))
}

pub open spec fn cw_x_kz(x: Seq<Seq<Seq<u8>>>, ker: Seq<Seq<Seq<u8>>>, h: int, w: int, kz: u8) -> int {
    sum_ijk(win_x_kz(x, h, w, kz), ker.len() as int, ksize(ker))
}

pub open spec fn cw_k_xz(ker: Seq<Seq<Seq<u8>>>, xz: u8) -> int {
    sum_ijk(win_k_xz(ker, xz), ker.len() as int, ksize(ker))
}

pub open spec fn cw_xz_kz(ker: Seq<Seq<Seq<u8>>>, xz: u8, kz: u8) -> int {
    sum_ijk(win_xz_kz(xz, kz), ker.len() as int, ksize(ker))
}

/// The window sum as the four accumulators combine it.
pub open spec fn conv_zp(x: Seq<Seq<Seq<u8>>>, ker: Seq<Seq<Seq<u8>>>, h: int, w: int, xz: u8, kz: u8) -> int {
    cw_xk(x, ker, h, w) + cw_xz_kz(ker, xz, kz) - cw_x_kz(x, ker, h, w, kz) - cw_k_xz(ker, xz)
}

/// The window sum of the real values that input and kernel encode with their zero points.
pub open spec fn conv_centered(x: Seq<Seq<Seq<u8>>>, ker: Seq<Seq<Seq<u8>>>, h: int, w: int, xz: u8, kz: u8) -> int {
    sum_ijk(win_centered(x, ker, h, w, xz, kz), ker.len() as int, ksize(ker))
}

/// `conv_kernel_scala_u8(x, ker, h, w, xz, kz)` is defined: the window can be read and
/// none of the `u32` accumulators, their combination, or the subtraction overflows.
pub open spec fn conv_u8_ok(x: Seq<Seq<Seq<u8>>>, ker: Seq<Seq<Seq<u8>>>, h: int, w: int, xz: u8, kz: u8) -> bool {
    let t1 = cw_xk(x, ker, h, w);
    let t2 = cw_x_kz(x, ker, h, w, kz);
    let t3 = cw_k_xz(ker, xz);
    let t4 = cw_xz_kz(ker, xz, kz);
    &&& window_ok(x, ker, h, w)
    &&& t1 <= u32::MAX
    &&& t2 <= u32::MAX
    &&& t3 <= u32::MAX
    &&& t4 <= u32::MAX
    &&& t1 + t4 <= u32::MAX
    &&& t1 + t4 >= t2 + t3
}

/// `conv_kernel_scala_with_remainder_u8(x, ker, h, w, xz, kz, y0)` is defined: the same
/// in `u64`, with `y0` added before the cross terms are subtracted.
pub open spec fn conv_wr_ok(x: Seq<Seq<Seq<u8>>>, ker: Seq<Seq<Seq<u8>>>, h: int, w: int, xz: u8, kz: u8, y0: int) -> bool {
    let t1 = cw_xk(x, ker, h, w);
    let t2 = cw_x_kz(x, ker, h, w, kz);
    let t3 = cw_k_xz(ker, xz);
    let t4 = cw_xz_kz(ker, xz, kz);
    &&& window_ok(x, ker, h, w)
    &&& t1 <= u64::MAX
    &&& t2 <= u64::MAX
    &&& t3 <= u64::MAX
    &&& t4 <= u64::MAX
    &&& t1 + t4 + y0 <= u64::MAX
    &&& t2 + t3 <= u64::MAX
    &&& t1 + t4 + y0 >= t2 + t3
}

pub proof fn lemma_window_terms_nonneg(x: Seq<Seq<Seq<u8>>>, ker: Seq<Seq<Seq<u8>>>, h: int, w: int, xz: u8, kz: u8)
    ensures
        nonneg3(win_xk(x, ker, h, w)),
        nonneg3(win_x_kz(x, h, w, kz)),
        nonneg3(win_k_xz(ker, xz)),
        nonneg3(win_xz_kz(xz, kz)),
{
    assert forall|i: int, j: int, k: int| #[trigger] win_xk(x, ker, h, w)(i, j, k) >= 0 by {
        assert(x[i][h + j][w + k] as int * ker[i][j][k] as int >= 0) by (nonlinear_arith);
    }
    assert forall|i: int, j: int, k: int| #[trigger] win_x_kz(x, h, w, kz)(i, j, k) >= 0 by {
        assert(x[i][h + j][w + k] as int * kz as int >= 0) by (nonlinear_arith);
    }
    assert forall|i: int, j: int, k: int| #[trigger] win_k_xz(ker, xz)(i, j, k) >= 0 by {
        assert(ker[i][j][k] as int * xz as int >= 0) by (nonlinear_arith);
    }
    assert forall|i: int, j: int, k: int| #[trigger] win_xz_kz(xz, kz)(i, j, k) >= 0 by {
        assert(xz as int * kz as int >= 0) by (nonlinear_arith);
    }
}

/// Combining the four separately accumulated window sums gives the window sum of
/// the values relative to their zero points.
pub proof fn lemma_zero_point_window(x: Seq<Seq<Seq<u8>>>, ker: Seq<Seq<Seq<u8>>>, h: int, w: int, xz: u8, kz: u8)
    ensures
        conv_zp(x, ker, h, w, xz, kz) == conv_centered(x, ker, h, w, xz, kz),
{
    let e = win_centered(x, ker, h, w, xz, kz);
    let f = win_xk(x, ker, h, w);
    let g = win_x_kz(x, h, w, kz);
    let hh = win_k_xz(ker, xz);
    let l = win_xz_kz(xz, kz);
    assert forall|a: int, b: int, c: int| #[trigger] e(a, b, c) == f(a, b, c) + l(a, b, c) - g(a, b, c) - hh(a, b, c) by {
        let p = x[a][h + b][w + c] as int;
        let q = ker[a][b][c] as int;
        let r = xz as int;
        let s = kz as int;
        assert((p - r) * (q - s) == p * q + r * s - p * s - q * r) by (nonlinear_arith);
    }
    lemma_sum_ijk_combine(f, g, hh, l, e, ker.len() as int, ksize(ker));
}

/// After a step of the triple loop, each running total is the previous one plus the
/// term at the current position, and stays within the full sum.
proof fn lemma_conv_step(
    x: Seq<Seq<Seq<u8>>>,
    ker: Seq<Seq<Seq<u8>>>,
    h: int,
    w: int,
    xz: u8,
    kz: u8,
    i: int,
    j: int,
    k: int,
)
    requires
        window_ok(x, ker, h, w),
        0 <= i < ker.len(),
        0 <= j < ksize(ker),
        0 <= k < ksize(ker),
    ensures
        partial_ijk(win_xk(x, ker, h, w), i, j, k + 1, ksize(ker)) <= cw_xk(x, ker, h, w),
        partial_ijk(win_x_kz(x, h, w, kz), i, j, k + 1, ksize(ker)) <= cw_x_kz(x, ker, h, w, kz),
        partial_ijk(win_k_xz(ker, xz), i, j, k + 1, ksize(ker)) <= cw_k_xz(ker, xz),
        partial_ijk(win_xz_kz(xz, kz), i, j, k + 1, ksize(ker)) <= cw_xz_kz(ker, xz, kz),
{
    lemma_window_terms_nonneg(x, ker, h, w, xz, kz);
    let n = ker.len() as int;
    let ks = ksize(ker);
    lemma_partial_ijk_bounded(win_xk(x, ker, h, w), i, j, k + 1, n, ks);
    lemma_partial_ijk_bounded(win_x_kz(x, h, w, kz), i, j, k + 1, n, ks);
    lemma_partial_ijk_bounded(win_k_xz(ker, xz), i, j, k + 1, n, ks);
    lemma_partial_ijk_bounded(win_xz_kz(xz, kz), i, j, k + 1, n, ks);
}

/// One output of a quantized convolution in `u32`:
/// `sum x*k + sum xz*kz - sum x*kz - sum k*xz` over the kernel's window at `(h_index, w_index)`,
/// which is the window sum of the values relative to their zero points.
pub fn conv_kernel_scala_u8(
    x: &Vec<Vec<Vec<u8>>>,
    kernel: &Vec<Vec<Vec<u8>>>,
    h_index: usize,
    w_index: usize,
    x_zeropoint: u8,
    kernel_zeropoint: u8,
) -> (r: u32)
    requires
        conv_u8_ok(crate::tensor::t3(x@), crate::tensor::t3(kernel@), h_index as int, w_index as int, x_zeropoint, kernel_zeropoint),
    ensures
        r == conv_zp(crate::tensor::t3(x@), crate::tensor::t3(kernel@), h_index as int, w_index as int, x_zeropoint, kernel_zeropoint),
        r == conv_centered(crate::tensor::t3(x@), crate::tensor::t3(kernel@), h_index as int, w_index as int, x_zeropoint, kernel_zeropoint),
{
    let ghost xs = crate::tensor::t3(x@);
    let ghost ks3 = crate::tensor::t3(kernel@);
    let ghost hi = h_index as int;
    let ghost wi = w_index as int;
    let ghost f1 = win_xk(xs, ks3, hi, wi);
    let ghost f2 = win_x_kz(xs, hi, wi, kernel_zeropoint);
    let ghost f3 = win_k_xz(ks3, x_zeropoint);
    let ghost f4 = win_xz_kz(x_zeropoint, kernel_zeropoint);
    let num_channels = kernel.len();
    let kernel_size = kernel[0].len();
    let mut tmp1: u32 = 0;
    let mut tmp2: u32 = 0;
    let mut tmp3: u32 = 0;
    let mut tmp4: u32 = 0;
    for i in 0..num_channels
        invariant
            num_channels == ks3.len(),
            kernel_size == ksize(ks3),
            xs == crate::tensor::t3(x@),
            ks3 == crate::tensor::t3(kernel@),
            hi == h_index,
            wi == w_index,
            f1 == win_xk(xs, ks3, hi, wi),
            f2 == win_x_kz(xs, hi, wi, kernel_zeropoint),
            f3 == win_k_xz(ks3, x_zeropoint),
            f4 == win_xz_kz(x_zeropoint, kernel_zeropoint),
            conv_u8_ok(xs, ks3, hi, wi, x_zeropoint, kernel_zeropoint),
            tmp1 == sum_ijk(f1, i as int, kernel_size as int),
            tmp2 == sum_ijk(f2, i as int, kernel_size as int),
            tmp3 == sum_ijk(f3, i as int, kernel_size as int),
            tmp4 == sum_ijk(f4, i as int, kernel_size as int),
    {
        for j in h_index..(h_index + kernel_size)
            invariant
                num_channels == ks3.len(),
                kernel_size == ksize(ks3),
                0 <= i < num_channels,
                xs == crate::tensor::t3(x@),
                ks3 == crate::tensor::t3(kernel@),
                hi == h_index,
                wi == w_index,
                f1 == win_xk(xs, ks3, hi, wi),
                f2 == win_x_kz(xs, hi, wi, kernel_zeropoint),
                f3 == win_k_xz(ks3, x_zeropoint),
                f4 == win_xz_kz(x_zeropoint, kernel_zeropoint),
                conv_u8_ok(xs, ks3, hi, wi, x_zeropoint, kernel_zeropoint),
                h_index <= j <= h_index + kernel_size,
                tmp1 == sum_ijk(f1, i as int, kernel_size as int) + sum_jk(f1, i as int, j - h_index, kernel_size as int),
                tmp2 == sum_ijk(f2, i as int, kernel_size as int) + sum_jk(f2, i as int, j - h_index, kernel_size as int),
                tmp3 == sum_ijk(f3, i as int, kernel_size as int) + sum_jk(f3, i as int, j - h_index, kernel_size as int),
                tmp4 == sum_ijk(f4, i as int, kernel_size as int) + sum_jk(f4, i as int, j - h_index, kernel_size as int),
        {
            for k in w_index..(w_index + kernel_size)
                invariant
                    num_channels == ks3.len(),
                    kernel_size == ksize(ks3),
                    0 <= i < num_channels,
                    h_index <= j < h_index + kernel_size,
                    xs == crate::tensor::t3(x@),
                    ks3 == crate::tensor::t3(kernel@),
                    hi == h_index,
                    wi == w_index,
                    f1 == win_xk(xs, ks3, hi, wi),
                    f2 == win_x_kz(xs, hi, wi, kernel_zeropoint),
                    f3 == win_k_xz(ks3, x_zeropoint),
                    f4 == win_xz_kz(x_zeropoint, kernel_zeropoint),
                    conv_u8_ok(xs, ks3, hi, wi, x_zeropoint, kernel_zeropoint),
                    w_index <= k <= w_index + kernel_size,
                    tmp1 == partial_ijk(f1, i as int, j - h_index, k - w_index, kernel_size as int),
                    tmp2 == partial_ijk(f2, i as int, j - h_index, k - w_index, kernel_size as int),
                    tmp3 == partial_ijk(f3, i as int, j - h_index, k - w_index, kernel_size as int),
                    tmp4 == partial_ijk(f4, i as int, j - h_index, k - w_index, kernel_size as int),
            {
                let jj = j - h_index;
                let kk = k - w_index;
                assert(in_window(xs, ks3, hi, wi, i as int, jj as int, kk as int));
                proof {
                    lemma_conv_step(xs, ks3, hi, wi, x_zeropoint, kernel_zeropoint, i as int, jj as int, kk as int);
                }
                let xv = x[i][j][k];
                let kv = kernel[i][jj][kk];
                assert(f1(i as int, jj as int, kk as int) == xv * kv);
                assert(f2(i as int, jj as int, kk as int) == xv * kernel_zeropoint);
                assert(f3(i as int, jj as int, kk as int) == kv * x_zeropoint);
                tmp1 += xv as u32 * kv as u32;
                tmp2 += xv as u32 * kernel_zeropoint as u32;
                tmp3 += kv as u32 * x_zeropoint as u32;
                tmp4 += x_zeropoint as u32 * kernel_zeropoint as u32;
            }
        }
    }
    proof {
        lemma_zero_point_window(xs, ks3, hi, wi, x_zeropoint, kernel_zeropoint);
    }
    tmp1 + tmp4 - tmp2 - tmp3
}

/// One output of a quantized convolution in `u64` with an offset `y_0`:
/// `(sum x*k + sum xz*kz + y_0) - (sum x*kz + sum k*xz)` over the kernel's window.
pub fn conv_kernel_scala_with_remainder_u8(
    x: &Vec<Vec<Vec<u8>>>,
    kernel: &Vec<Vec<Vec<u8>>>,
    h_index: usize,
    w_index: usize,
    x_zeropoint: u8,
    kernel_zeropoint: u8,
    y_0: u64,
) -> (r: u64)
    requires
        conv_wr_ok(crate::tensor::t3(x@), crate::tensor::t3(kernel@), h_index as int, w_index as int, x_zeropoint, kernel_zeropoint, y_0 as int),
    ensures
        r == conv_zp(crate::tensor::t3(x@), crate::tensor::t3(kernel@), h_index as int, w_index as int, x_zeropoint, kernel_zeropoint) + y_0,
        r == conv_centered(crate::tensor::t3(x@), crate::tensor::t3(kernel@), h_index as int, w_index as int, x_zeropoint, kernel_zeropoint) + y_0,
{
    let ghost xs = crate::tensor::t3(x@);
    let ghost ks3 = crate::tensor::t3(kernel@);
    let ghost hi = h_index as int;
    let ghost wi = w_index as int;
    let ghost f1 = win_xk(xs, ks3, hi, wi);
    let ghost f2 = win_x_kz(xs, hi, wi, kernel_zeropoint);
    let ghost f3 = win_k_xz(ks3, x_zeropoint);
    let ghost f4 = win_xz_kz(x_zeropoint, kernel_zeropoint);
    let num_channels = kernel.len();
    let kernel_size = kernel[0].len();
    let mut tmp1: u64 = 0;
    let mut tmp2: u64 = 0;
    let mut tmp3: u64 = 0;
    let mut tmp4: u64 = 0;
    for i in 0..num_channels
        invariant
            num_channels == ks3.len(),
            kernel_size == ksize(ks3),
            xs == crate::tensor::t3(x@),
            ks3 == crate::tensor::t3(kernel@),
            hi == h_index,
            wi == w_index,
            f1 == win_xk(xs, ks3, hi, wi),
            f2 == win_x_kz(xs, hi, wi, kernel_zeropoint),
            f3 == win_k_xz(ks3, x_zeropoint),
            f4 == win_xz_kz(x_zeropoint, kernel_zeropoint),
            conv_wr_ok(xs, ks3, hi, wi, x_zeropoint, kernel_zeropoint, y_0 as int),
            tmp1 == sum_ijk(f1, i as int, kernel_size as int),
            tmp2 == sum_ijk(f2, i as int, kernel_size as int),
            tmp3 == sum_ijk(f3, i as int, kernel_size as int),
            tmp4 == sum_ijk(f4, i as int, kernel_size as int),
    {
        for j in h_index..(h_index + kernel_size)
            invariant
                num_channels == ks3.len(),
                kernel_size == ksize(ks3),
                0 <= i < num_channels,
                xs == crate::tensor::t3(x@),
                ks3 == crate::tensor::t3(kernel@),
                hi == h_index,
                wi == w_index,
                f1 == win_xk(xs, ks3, hi, wi),
                f2 == win_x_kz(xs, hi, wi, kernel_zeropoint),
                f3 == win_k_xz(ks3, x_zeropoint),
                f4 == win_xz_kz(x_zeropoint, kernel_zeropoint),
                conv_wr_ok(xs, ks3, hi, wi, x_zeropoint, kernel_zeropoint, y_0 as int),
                h_index <= j <= h_index + kernel_size,
                tmp1 == sum_ijk(f1, i as int, kernel_size as int) + sum_jk(f1, i as int, j - h_index, kernel_size as int),
                tmp2 == sum_ijk(f2, i as int, kernel_size as int) + sum_jk(f2, i as int, j - h_index, kernel_size as int),
                tmp3 == sum_ijk(f3, i as int, kernel_size as int) + sum_jk(f3, i as int, j - h_index, kernel_size as int),
                tmp4 == sum_ijk(f4, i as int, kernel_size as int) + sum_jk(f4, i as int, j - h_index, kernel_size as int),
        {
            for k in w_index..(w_index + kernel_size)
                invariant
                    num_channels == ks3.len(),
                    kernel_size == ksize(ks3),
                    0 <= i < num_channels,
                    h_index <= j < h_index + kernel_size,
                    xs == crate::tensor::t3(x@),
                    ks3 == crate::tensor::t3(kernel@),
                    hi == h_index,
                    wi == w_index,
                    f1 == win_xk(xs, ks3, hi, wi),
                    f2 == win_x_kz(xs, hi, wi, kernel_zeropoint),
                    f3 == win_k_xz(ks3, x_zeropoint),
                    f4 == win_xz_kz(x_zeropoint, kernel_zeropoint),
                    conv_wr_ok(xs, ks3, hi, wi, x_zeropoint, kernel_zeropoint, y_0 as int),
                    w_index <= k <= w_index + kernel_size,
                    tmp1 == partial_ijk(f1, i as int, j - h_index, k - w_index, kernel_size as int),
                    tmp2 == partial_ijk(f2, i as int, j - h_index, k - w_index, kernel_size as int),
                    tmp3 == partial_ijk(f3, i as int, j - h_index, k - w_index, kernel_size as int),
                    tmp4 == partial_ijk(f4, i as int, j - h_index, k - w_index, kernel_size as int),
            {
                let jj = j - h_index;
                let kk = k - w_index;
                assert(in_window(xs, ks3, hi, wi, i as int, jj as int, kk as int));
                proof {
                    lemma_conv_step(xs, ks3, hi, wi, x_zeropoint, kernel_zeropoint, i as int, jj as int, kk as int);
                }
                let xv = x[i][j][k];
                let kv = kernel[i][jj][kk];
                assert(f1(i as int, jj as int, kk as int) == xv * kv);
                assert(f2(i as int, jj as int, kk as int) == xv * kernel_zeropoint);
                assert(f3(i as int, jj as int, kk as int) == kv * x_zeropoint);
                tmp1 += xv as u64 * kv as u64;
                tmp2 += xv as u64 * kernel_zeropoint as u64;
                tmp3 += kv as u64 * x_zeropoint as u64;
                tmp4 += x_zeropoint as u64 * kernel_zeropoint as u64;
            }
        }
    }
    proof {
        lemma_zero_point_window(xs, ks3, hi, wi, x_zeropoint, kernel_zeropoint);
    }
    let res = (tmp1 + tmp4 + y_0) - (tmp2 + tmp3);
    res
}

} // verus!
