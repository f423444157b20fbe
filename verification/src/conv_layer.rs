//! Convolution layers over a batch of images: every kernel slid over every
//! valid window position of every image. The plain layer writes `i8` sums;
//! the quantized layer requantizes each `u8` window sum with its kernel's
//! fixed-point multiplier and records what the requantization drops.
use vstd::prelude::*;
use crate::tensor::{t3, t4, fill4, filled4, shaped4};
use crate::conv::{conv_i8_ok, conv_i8_val, conv_wr_ok, conv_zp, conv_kernel_scala, conv_kernel_scala_with_remainder_u8};
use crate::linear::{FIXED_ONE, FIXED_ONE_TIMES_256, zero_point_offset, lemma_requant_split};

verus! {

// ---------------------------------------------------------------------------
// Plain i8 layer.

pub open spec fn conv_row_i8(old: Seq<i8>, x: Seq<Seq<Seq<i8>>>, ker: Seq<Seq<Seq<i8>>>, h: int, wc: int) -> Seq<i8> {
    Seq::new(old.len(), |w: int| if w < wc { conv_i8_val(x, ker, h, w) } else { old[w] })
}

pub open spec fn conv_plane_i8(old: Seq<Seq<i8>>, x: Seq<Seq<Seq<i8>>>, ker: Seq<Seq<Seq<i8>>>, hc: int, wc: int) -> Seq<Seq<i8>> {
    Seq::new(old.len(), |h: int| if h < hc { conv_row_i8(old[h], x, ker, h, wc) } else { old[h] })
}

pub open spec fn conv_image_i8(old: Seq<Seq<Seq<i8>>>, x: Seq<Seq<Seq<i8>>>, kernels: Seq<Seq<Seq<Seq<i8>>>>, hc: int, wc: int) -> Seq<Seq<Seq<i8>>> {
    Seq::new(old.len(), |k: int| if k < kernels.len() { conv_plane_i8(old[k], x, kernels[k], hc, wc) } else { old[k] })
}

/// `res` with output `[n][k][h][w]` set, for each image `n`, kernel `k` and window
/// position `h < hc`, `w < wc`, to the window sum of kernel `k` at `(h, w)` of image `n`.
pub open spec fn conv_batch_i8(old: Seq<Seq<Seq<Seq<i8>>>>, vec: Seq<Seq<Seq<Seq<i8>>>>, kernels: Seq<Seq<Seq<Seq<i8>>>>, hc: int, wc: int) -> Seq<Seq<Seq<Seq<i8>>>> {
    Seq::new(old.len(), |n: int| if n < vec.len() { conv_image_i8(old[n], vec[n], kernels, hc, wc) } else { old[n] })
}

pub open spec fn conv_row_i8_ok(old_len: int, x: Seq<Seq<Seq<i8>>>, ker: Seq<Seq<Seq<i8>>>, h: int, wc: int) -> bool {
    wc <= old_len && forall|w: int| 0 <= w < wc ==> #[trigger] conv_i8_ok(x, ker, h, w)
}

pub open spec fn conv_plane_i8_ok(old: Seq<Seq<i8>>, x: Seq<Seq<Seq<i8>>>, ker: Seq<Seq<Seq<i8>>>, hc: int, wc: int) -> bool {
    hc <= old.len() && forall|h: int| 0 <= h < hc ==> conv_row_i8_ok(#[trigger] old[h].len() as int, x, ker, h, wc)
}

pub open spec fn conv_image_i8_ok(old: Seq<Seq<Seq<i8>>>, x: Seq<Seq<Seq<i8>>>, kernels: Seq<Seq<Seq<Seq<i8>>>>, hc: int, wc: int) -> bool {
    kernels.len() <= old.len() && forall|k: int| 0 <= k < kernels.len() ==> conv_plane_i8_ok(#[trigger] old[k], x, kernels[k], hc, wc)
}

pub open spec fn conv_batch_i8_ok(old: Seq<Seq<Seq<Seq<i8>>>>, vec: Seq<Seq<Seq<Seq<i8>>>>, kernels: Seq<Seq<Seq<Seq<i8>>>>, hc: int, wc: int) -> bool {
    vec.len() <= old.len() && forall|n: int| 0 <= n < vec.len() ==> conv_image_i8_ok(#[trigger] old[n], vec[n], kernels, hc, wc)
}

/// The shapes that a convolution layer reads before it starts: a first kernel with
/// a first channel, a first image with a first channel and a first row, and a kernel
/// size that fits the first image.
pub open spec fn conv_shape_ok<A>(vec: Seq<Seq<Seq<Seq<A>>>>, kernel: Seq<Seq<Seq<Seq<A>>>>) -> bool {
    &&& kernel.len() > 0
    &&& kernel[0].len() > 0
    &&& vec.len() > 0
    &&& vec[0].len() > 0
    &&& vec[0][0].len() > 0
    &&& kernel[0][0].len() <= vec[0][0].len()
    &&& vec[0][0].len() - kernel[0][0].len() < usize::MAX
    &&& kernel[0][0].len() <= vec[0][0][0].len()
    &&& vec[0][0][0].len() - kernel[0][0].len() < usize::MAX
}

/// The number of window rows: the first image's height minus the first kernel's size, plus one.
pub open spec fn out_rows<A>(vec: Seq<Seq<Seq<Seq<A>>>>, kernel: Seq<Seq<Seq<Seq<A>>>>) -> int {
    vec[0][0].len() - kernel[0][0].len() + 1
}

/// The number of window columns: the first image's width minus the first kernel's size, plus one.
pub open spec fn out_cols<A>(vec: Seq<Seq<Seq<Seq<A>>>>, kernel: Seq<Seq<Seq<Seq<A>>>>) -> int {
    vec[0][0][0].len() - kernel[0][0].len() + 1
}

fn conv_row(x: &Vec<Vec<Vec<i8>>>, ker: &Vec<Vec<Vec<i8>>>, h: usize, wc: usize, out: &mut Vec<i8>)
    requires
        conv_row_i8_ok(old(out)@.len() as int, t3(x@), t3(ker@), h as int, wc as int),
    ensures
        final(out)@ == conv_row_i8(old(out)@, t3(x@), t3(ker@), h as int, wc as int),
{
    for w in 0..wc
        invariant
            conv_row_i8_ok(old(out)@.len() as int, t3(x@), t3(ker@), h as int, wc as int),
            out@.len() == old(out)@.len(),
            forall|j: int| 0 <= j < w ==> out@[j] == conv_i8_val(t3(x@), t3(ker@), h as int, j),
            forall|j: int| w <= j < out@.len() ==> out@[j] == old(out)@[j],
    {
        assert(conv_i8_ok(t3(x@), t3(ker@), h as int, w as int));
        out[w] = conv_kernel_scala(x, ker, h, w);
    }
    assert(out@ =~= conv_row_i8(old(out)@, t3(x@), t3(ker@), h as int, wc as int));
}

fn conv_plane(x: &Vec<Vec<Vec<i8>>>, ker: &Vec<Vec<Vec<i8>>>, hc: usize, wc: usize, out: &mut Vec<Vec<i8>>)
    requires
        conv_plane_i8_ok(crate::tensor::t2(old(out)@), t3(x@), t3(ker@), hc as int, wc as int),
    ensures
        crate::tensor::t2(final(out)@) == conv_plane_i8(crate::tensor::t2(old(out)@), t3(x@), t3(ker@), hc as int, wc as int),
{
    let ghost o = crate::tensor::t2(old(out)@);
    for h in 0..hc
        invariant
            o == crate::tensor::t2(old(out)@),
            conv_plane_i8_ok(o, t3(x@), t3(ker@), hc as int, wc as int),
            out@.len() == old(out)@.len(),
            forall|j: int| 0 <= j < h ==> (#[trigger] out@[j])@ == conv_row_i8(o[j], t3(x@), t3(ker@), j, wc as int),
            forall|j: int| h <= j < out@.len() ==> #[trigger] out@[j] == old(out)@[j],
    {
        assert(conv_row_i8_ok(o[h as int].len() as int, t3(x@), t3(ker@), h as int, wc as int));
        conv_row(x, ker, h, wc, &mut out[h]);
    }
    assert(crate::tensor::t2(out@) =~= conv_plane_i8(o, t3(x@), t3(ker@), hc as int, wc as int));
}

fn conv_image(x: &Vec<Vec<Vec<i8>>>, kernel: &Vec<Vec<Vec<Vec<i8>>>>, hc: usize, wc: usize, out: &mut Vec<Vec<Vec<i8>>>)
    requires
        conv_image_i8_ok(t3(old(out)@), t3(x@), t4(kernel@), hc as int, wc as int),
    ensures
        t3(final(out)@) == conv_image_i8(t3(old(out)@), t3(x@), t4(kernel@), hc as int, wc as int),
{
    let ghost o = t3(old(out)@);
    let ghost ks = t4(kernel@);
    let nk = kernel.len();
    for k in 0..nk
        invariant
            o == t3(old(out)@),
            ks == t4(kernel@),
            nk == ks.len(),
            conv_image_i8_ok(o, t3(x@), ks, hc as int, wc as int),
            out@.len() == old(out)@.len(),
            forall|j: int| 0 <= j < k ==> crate::tensor::t2((#[trigger] out@[j])@) == conv_plane_i8(o[j], t3(x@), ks[j], hc as int, wc as int),
            forall|j: int| k <= j < out@.len() ==> #[trigger] out@[j] == old(out)@[j],
    {
        assert(conv_plane_i8_ok(o[k as int], t3(x@), ks[k as int], hc as int, wc as int));
        conv_plane(x, &kernel[k], hc, wc, &mut out[k]);
    }
    assert(t3(out@) =~= conv_image_i8(o, t3(x@), ks, hc as int, wc as int));
}

/// Plain convolution layer: for each image `n`, kernel `k` and window position
/// `(h, w)` with `h` below the first image's height minus the kernel size plus one
/// (and likewise `w`), `res[n][k][h][w]` becomes the `i8` window sum; the rest of
/// `res` is unchanged.
pub fn vec_conv(vec: &Vec<Vec<Vec<Vec<i8>>>>, kernel: &Vec<Vec<Vec<Vec<i8>>>>, res: &mut Vec<Vec<Vec<Vec<i8>>>>)
    requires
        conv_shape_ok(t4(vec@), t4(kernel@)),
        conv_batch_i8_ok(t4(old(res)@), t4(vec@), t4(kernel@), out_rows(t4(vec@), t4(kernel@)), out_cols(t4(vec@), t4(kernel@))),
    ensures
        t4(final(res)@) == conv_batch_i8(t4(old(res)@), t4(vec@), t4(kernel@), out_rows(t4(vec@), t4(kernel@)), out_cols(t4(vec@), t4(kernel@))),
{
    let ghost o = t4(old(res)@);
    let ghost v = t4(vec@);
    let ghost ks = t4(kernel@);
    let kernel_size = kernel[0][0].len();
    let batch_size = vec.len();
    let input_height = vec[0][0].len();
    let input_width = vec[0][0][0].len();
    let hc = input_height - kernel_size + 1;
    let wc = input_width - kernel_size + 1;
    for n in 0..batch_size
        invariant
            o == t4(old(res)@),
            v == t4(vec@),
            ks == t4(kernel@),
            batch_size == v.len(),
            hc == out_rows(v, ks),
            wc == out_cols(v, ks),
            conv_batch_i8_ok(o, v, ks, hc as int, wc as int),
            res@.len() == old(res)@.len(),
            forall|j: int| 0 <= j < n ==> t3((#[trigger] res@[j])@) == conv_image_i8(o[j], v[j], ks, hc as int, wc as int),
            forall|j: int| n <= j < res@.len() ==> #[trigger] res@[j] == old(res)@[j],
    {
        assert(conv_image_i8_ok(o[n as int], v[n as int], ks, hc as int, wc as int));
        conv_image(&vec[n], kernel, hc, wc, &mut res[n]);
    }
    assert(t4(res@) =~= conv_batch_i8(o, v, ks, hc as int, wc as int));
}

// ---------------------------------------------------------------------------
// Quantized u8 layer.

/// The requantized accumulator of one convolution output:
/// `m * (window sum + res_0 * 2^22 / m)`.
pub open spec fn conv_acc(x: Seq<Seq<Seq<u8>>>, ker: Seq<Seq<Seq<u8>>>, h: int, w: int, xz: u8, kz: u8, r0: u8, m: u64) -> int {
    m * (conv_zp(x, ker, h, w, xz, kz) + zero_point_offset(r0, m))
}

/// Requantizing one convolution output is defined.
pub open spec fn conv_q_ok(x: Seq<Seq<Seq<u8>>>, ker: Seq<Seq<Seq<u8>>>, h: int, w: int, xz: u8, kz: u8, r0: u8, m: u64) -> bool {
    &&& m != 0
    &&& conv_wr_ok(x, ker, h, w, xz, kz, zero_point_offset(r0, m))
    &&& conv_acc(x, ker, h, w, xz, kz, r0, m) <= u64::MAX
}

/// The quantized output: the accumulator shifted down by 22 bits, truncated to `u8`.
pub open spec fn conv_q_val(x: Seq<Seq<Seq<u8>>>, ker: Seq<Seq<Seq<u8>>>, h: int, w: int, xz: u8, kz: u8, r0: u8, m: u64) -> u8 {
    (conv_acc(x, ker, h, w, xz, kz, r0, m) / FIXED_ONE as int) as u8
}

/// The low 22 bits of the accumulator.
pub open spec fn conv_q_rem(x: Seq<Seq<Seq<u8>>>, ker: Seq<Seq<Seq<u8>>>, h: int, w: int, xz: u8, kz: u8, r0: u8, m: u64) -> u32 {
    (conv_acc(x, ker, h, w, xz, kz, r0, m) % FIXED_ONE as int) as u32
}

/// The accumulator's bits from 30 up, truncated to `u32`.
pub open spec fn conv_q_high(x: Seq<Seq<Seq<u8>>>, ker: Seq<Seq<Seq<u8>>>, h: int, w: int, xz: u8, kz: u8, r0: u8, m: u64) -> u32 {
    (conv_acc(x, ker, h, w, xz, kz, r0, m) / FIXED_ONE_TIMES_256 as int) as u32
}

/// The parameters shared by every output of a quantized convolution layer.
pub struct QuantParams {
    pub xz: u8,
    pub kz: u8,
    pub r0: u8,
}

pub open spec fn q_row_val(old: Seq<u8>, x: Seq<Seq<Seq<u8>>>, ker: Seq<Seq<Seq<u8>>>, h: int, wc: int, xz: u8, kz: u8, r0: u8, m: u64) -> Seq<u8> {
    Seq::new(old.len(), |w: int| if w < wc { conv_q_val(x, ker, h, w, xz, kz, r0, m) } else { old[w] })
}

pub open spec fn q_row_rem(old: Seq<u32>, x: Seq<Seq<Seq<u8>>>, ker: Seq<Seq<Seq<u8>>>, h: int, wc: int, xz: u8, kz: u8, r0: u8, m: u64) -> Seq<u32> {
    Seq::new(old.len(), |w: int| if w < wc { conv_q_rem(x, ker, h, w, xz, kz, r0, m) } else { old[w] })
}

pub open spec fn q_row_high(old: Seq<u32>, x: Seq<Seq<Seq<u8>>>, ker: Seq<Seq<Seq<u8>>>, h: int, wc: int, xz: u8, kz: u8, r0: u8, m: u64) -> Seq<u32> {
    Seq::new(old.len(), |w: int| if w < wc { conv_q_high(x, ker, h, w, xz, kz, r0, m) } else { old[w] })
}

pub open spec fn q_plane_val(old: Seq<Seq<u8>>, x: Seq<Seq<Seq<u8>>>, ker: Seq<Seq<Seq<u8>>>, hc: int, wc: int, xz: u8, kz: u8, r0: u8, m: u64) -> Seq<Seq<u8>> {
    Seq::new(old.len(), |h: int| if h < hc { q_row_val(old[h], x, ker, h, wc, xz, kz, r0, m) } else { old[h] })
}

pub open spec fn q_plane_rem(old: Seq<Seq<u32>>, x: Seq<Seq<Seq<u8>>>, ker: Seq<Seq<Seq<u8>>>, hc: int, wc: int, xz: u8, kz: u8, r0: u8, m: u64) -> Seq<Seq<u32>> {
    Seq::new(old.len(), |h: int| if h < hc { q_row_rem(old[h], x, ker, h, wc, xz, kz, r0, m) } else { old[h] })
}

pub open spec fn q_plane_high(old: Seq<Seq<u32>>, x: Seq<Seq<Seq<u8>>>, ker: Seq<Seq<Seq<u8>>>, hc: int, wc: int, xz: u8, kz: u8, r0: u8, m: u64) -> Seq<Seq<u32>> {
    Seq::new(old.len(), |h: int| if h < hc { q_row_high(old[h], x, ker, h, wc, xz, kz, r0, m) } else { old[h] })
}

pub open spec fn q_image_val(old: Seq<Seq<Seq<u8>>>, x: Seq<Seq<Seq<u8>>>, ks: Seq<Seq<Seq<Seq<u8>>>>, hc: int, wc: int, xz: u8, kz: u8, r0: u8, ms: Seq<u64>) -> Seq<Seq<Seq<u8>>> {
    Seq::new(old.len(), |k: int| if k < ks.len() { q_plane_val(old[k], x, ks[k], hc, wc, xz, kz, r0, ms[k]) } else { old[k] })
}

pub open spec fn q_image_rem(old: Seq<Seq<Seq<u32>>>, x: Seq<Seq<Seq<u8>>>, ks: Seq<Seq<Seq<Seq<u8>>>>, hc: int, wc: int, xz: u8, kz: u8, r0: u8, ms: Seq<u64>) -> Seq<Seq<Seq<u32>>> {
    Seq::new(old.len(), |k: int| if k < ks.len() { q_plane_rem(old[k], x, ks[k], hc, wc, xz, kz, r0, ms[k]) } else { old[k] })
}

pub open spec fn q_image_high(old: Seq<Seq<Seq<u32>>>, x: Seq<Seq<Seq<u8>>>, ks: Seq<Seq<Seq<Seq<u8>>>>, hc: int, wc: int, xz: u8, kz: u8, r0: u8, ms: Seq<u64>) -> Seq<Seq<Seq<u32>>> {
    Seq::new(old.len(), |k: int| if k < ks.len() { q_plane_high(old[k], x, ks[k], hc, wc, xz, kz, r0, ms[k]) } else { old[k] })
}

/// `res` with output `[n][k][h][w]` set, for each image `n`, kernel `k` and window
/// position `h < hc`, `w < wc`, to the requantized window sum of kernel `k` at `(h, w)`.
pub open spec fn q_batch_val(old: Seq<Seq<Seq<Seq<u8>>>>, v: Seq<Seq<Seq<Seq<u8>>>>, ks: Seq<Seq<Seq<Seq<u8>>>>, hc: int, wc: int, xz: u8, kz: u8, r0: u8, ms: Seq<u64>) -> Seq<Seq<Seq<Seq<u8>>>> {
    Seq::new(old.len(), |n: int| if n < v.len() { q_image_val(old[n], v[n], ks, hc, wc, xz, kz, r0, ms) } else { old[n] })
}

pub open spec fn q_batch_rem(old: Seq<Seq<Seq<Seq<u32>>>>, v: Seq<Seq<Seq<Seq<u8>>>>, ks: Seq<Seq<Seq<Seq<u8>>>>, hc: int, wc: int, xz: u8, kz: u8, r0: u8, ms: Seq<u64>) -> Seq<Seq<Seq<Seq<u32>>>> {
    Seq::new(old.len(), |n: int| if n < v.len() { q_image_rem(old[n], v[n], ks, hc, wc, xz, kz, r0, ms) } else { old[n] })
}

pub open spec fn q_batch_high(old: Seq<Seq<Seq<Seq<u32>>>>, v: Seq<Seq<Seq<Seq<u8>>>>, ks: Seq<Seq<Seq<Seq<u8>>>>, hc: int, wc: int, xz: u8, kz: u8, r0: u8, ms: Seq<u64>) -> Seq<Seq<Seq<Seq<u32>>>> {
    Seq::new(old.len(), |n: int| if n < v.len() { q_image_high(old[n], v[n], ks, hc, wc, xz, kz, r0, ms) } else { old[n] })
}

pub open spec fn q_row_ok(res_len: int, rem_len: int, x: Seq<Seq<Seq<u8>>>, ker: Seq<Seq<Seq<u8>>>, h: int, wc: int, xz: u8, kz: u8, r0: u8, m: u64) -> bool {
    &&& wc <= res_len
    &&& wc <= rem_len
    &&& forall|w: int| 0 <= w < wc ==> #[trigger] conv_q_ok(x, ker, h, w, xz, kz, r0, m)
}

pub open spec fn q_plane_ok<B>(res: Seq<Seq<u8>>, rem: Seq<Seq<B>>, x: Seq<Seq<Seq<u8>>>, ker: Seq<Seq<Seq<u8>>>, hc: int, wc: int, xz: u8, kz: u8, r0: u8, m: u64) -> bool {
    &&& hc <= res.len()
    &&& hc <= rem.len()
    &&& forall|h: int| 0 <= h < hc ==> q_row_ok(#[trigger] res[h].len() as int, rem[h].len() as int, x, ker, h, wc, xz, kz, r0, m)
}

pub open spec fn q_image_ok<B>(res: Seq<Seq<Seq<u8>>>, rem: Seq<Seq<Seq<B>>>, x: Seq<Seq<Seq<u8>>>, ks: Seq<Seq<Seq<Seq<u8>>>>, hc: int, wc: int, xz: u8, kz: u8, r0: u8, ms: Seq<u64>) -> bool {
    &&& ks.len() <= res.len()
    &&& ks.len() <= rem.len()
    &&& ks.len() <= ms.len()
    &&& forall|k: int| 0 <= k < ks.len() ==> q_plane_ok(#[trigger] res[k], rem[k], x, ks[k], hc, wc, xz, kz, r0, ms[k])
}

/// Every output that the quantized layer computes can be written and requantized.
pub open spec fn q_batch_ok<B>(res: Seq<Seq<Seq<Seq<u8>>>>, rem: Seq<Seq<Seq<Seq<B>>>>, v: Seq<Seq<Seq<Seq<u8>>>>, ks: Seq<Seq<Seq<Seq<u8>>>>, hc: int, wc: int, xz: u8, kz: u8, r0: u8, ms: Seq<u64>) -> bool {
    &&& v.len() <= res.len()
    &&& v.len() <= rem.len()
    &&& forall|n: int| 0 <= n < v.len() ==> q_image_ok(#[trigger] res[n], rem[n], v[n], ks, hc, wc, xz, kz, r0, ms)
}

/// The shape of the remainder tensors: that of `res`'s first elements, all of which exist.
pub open spec fn first_shape_ok<A>(res: Seq<Seq<Seq<Seq<A>>>>) -> bool {
    res.len() > 0 && res[0].len() > 0 && res[0][0].len() > 0
}

pub open spec fn zeros_like_first(res: Seq<Seq<Seq<Seq<u8>>>>) -> Seq<Seq<Seq<Seq<u32>>>> {
    filled4(0u32, res.len(), res[0].len(), res[0][0].len(), res[0][0][0].len())
}

fn q_row(
    x: &Vec<Vec<Vec<u8>>>,
    ker: &Vec<Vec<Vec<u8>>>,
    h: usize,
    wc: usize,
    p: &QuantParams,
    m: u64,
    out: &mut Vec<u8>,
    rem: &mut Vec<u32>,
    high: &mut Vec<u32>,
)
    requires
        q_row_ok(old(out)@.len() as int, old(rem)@.len() as int, t3(x@), t3(ker@), h as int, wc as int, p.xz, p.kz, p.r0, m),
        old(rem)@.len() == old(high)@.len(),
    ensures
        final(out)@ == q_row_val(old(out)@, t3(x@), t3(ker@), h as int, wc as int, p.xz, p.kz, p.r0, m),
        final(rem)@ == q_row_rem(old(rem)@, t3(x@), t3(ker@), h as int, wc as int, p.xz, p.kz, p.r0, m),
        final(high)@ == q_row_high(old(high)@, t3(x@), t3(ker@), h as int, wc as int, p.xz, p.kz, p.r0, m),
{
    let ghost xs = t3(x@);
    let ghost k3 = t3(ker@);
    for w in 0..wc
        invariant
            xs == t3(x@),
            k3 == t3(ker@),
            q_row_ok(old(out)@.len() as int, old(rem)@.len() as int, xs, k3, h as int, wc as int, p.xz, p.kz, p.r0, m),
            old(rem)@.len() == old(high)@.len(),
            out@.len() == old(out)@.len(),
            rem@.len() == old(rem)@.len(),
            high@.len() == old(high)@.len(),
            forall|j: int| 0 <= j < w ==> out@[j] == conv_q_val(xs, k3, h as int, j, p.xz, p.kz, p.r0, m),
            forall|j: int| w <= j < out@.len() ==> out@[j] == old(out)@[j],
            forall|j: int| 0 <= j < w ==> rem@[j] == conv_q_rem(xs, k3, h as int, j, p.xz, p.kz, p.r0, m),
            forall|j: int| w <= j < rem@.len() ==> rem@[j] == old(rem)@[j],
            forall|j: int| 0 <= j < w ==> high@[j] == conv_q_high(xs, k3, h as int, j, p.xz, p.kz, p.r0, m),
            forall|j: int| w <= j < high@.len() ==> high@[j] == old(high)@[j],
    {
        assert(conv_q_ok(xs, k3, h as int, w as int, p.xz, p.kz, p.r0, m));
        assert(p.r0 as u64 * FIXED_ONE <= 255 * 4194304);
        let res_converted = (p.r0 as u64 * FIXED_ONE) / m;
        let tmp = m * conv_kernel_scala_with_remainder_u8(x, ker, h, w, p.xz, p.kz, res_converted);
        out[w] = (tmp / FIXED_ONE) as u8;
        rem[w] = (tmp % FIXED_ONE) as u32;
        high[w] = (tmp / FIXED_ONE_TIMES_256) as u32;
    }
    assert(out@ =~= q_row_val(old(out)@, xs, k3, h as int, wc as int, p.xz, p.kz, p.r0, m));
    assert(rem@ =~= q_row_rem(old(rem)@, xs, k3, h as int, wc as int, p.xz, p.kz, p.r0, m));
    assert(high@ =~= q_row_high(old(high)@, xs, k3, h as int, wc as int, p.xz, p.kz, p.r0, m));
}

fn q_plane(
    x: &Vec<Vec<Vec<u8>>>,
    ker: &Vec<Vec<Vec<u8>>>,
    hc: usize,
    wc: usize,
    p: &QuantParams,
    m: u64,
    out: &mut Vec<Vec<u8>>,
    rem: &mut Vec<Vec<u32>>,
    high: &mut Vec<Vec<u32>>,
)
    requires
        q_plane_ok(crate::tensor::t2(old(out)@), crate::tensor::t2(old(rem)@), t3(x@), t3(ker@), hc as int, wc as int, p.xz, p.kz, p.r0, m),
        crate::tensor::t2(old(rem)@) == crate::tensor::t2(old(high)@),
    ensures
        crate::tensor::t2(final(out)@) == q_plane_val(crate::tensor::t2(old(out)@), t3(x@), t3(ker@), hc as int, wc as int, p.xz, p.kz, p.r0, m),
        crate::tensor::t2(final(rem)@) == q_plane_rem(crate::tensor::t2(old(rem)@), t3(x@), t3(ker@), hc as int, wc as int, p.xz, p.kz, p.r0, m),
        crate::tensor::t2(final(high)@) == q_plane_high(crate::tensor::t2(old(high)@), t3(x@), t3(ker@), hc as int, wc as int, p.xz, p.kz, p.r0, m),
{
    let ghost o = crate::tensor::t2(old(out)@);
    let ghost r = crate::tensor::t2(old(rem)@);
    let ghost g = crate::tensor::t2(old(high)@);
    let ghost xs = t3(x@);
    let ghost k3 = t3(ker@);
    for h in 0..hc
        invariant
            o == crate::tensor::t2(old(out)@),
            r == crate::tensor::t2(old(rem)@),
            g == crate::tensor::t2(old(high)@),
            r == g,
            xs == t3(x@),
            k3 == t3(ker@),
            q_plane_ok(o, r, xs, k3, hc as int, wc as int, p.xz, p.kz, p.r0, m),
            out@.len() == old(out)@.len(),
            rem@.len() == old(rem)@.len(),
            high@.len() == old(high)@.len(),
            forall|j: int| 0 <= j < h ==> (#[trigger] out@[j])@ == q_row_val(o[j], xs, k3, j, wc as int, p.xz, p.kz, p.r0, m),
            forall|j: int| h <= j < out@.len() ==> #[trigger] out@[j] == old(out)@[j],
            forall|j: int| 0 <= j < h ==> (#[trigger] rem@[j])@ == q_row_rem(r[j], xs, k3, j, wc as int, p.xz, p.kz, p.r0, m),
            forall|j: int| h <= j < rem@.len() ==> #[trigger] rem@[j] == old(rem)@[j],
            forall|j: int| 0 <= j < h ==> (#[trigger] high@[j])@ == q_row_high(g[j], xs, k3, j, wc as int, p.xz, p.kz, p.r0, m),
            forall|j: int| h <= j < high@.len() ==> #[trigger] high@[j] == old(high)@[j],
    {
        assert(q_row_ok(o[h as int].len() as int, r[h as int].len() as int, xs, k3, h as int, wc as int, p.xz, p.kz, p.r0, m));
        assert(g[h as int] == high@[h as int]@);
        q_row(x, ker, h, wc, p, m, &mut out[h], &mut rem[h], &mut high[h]);
    }
    assert(crate::tensor::t2(out@) =~= q_plane_val(o, xs, k3, hc as int, wc as int, p.xz, p.kz, p.r0, m));
    assert(crate::tensor::t2(rem@) =~= q_plane_rem(r, xs, k3, hc as int, wc as int, p.xz, p.kz, p.r0, m));
    assert(crate::tensor::t2(high@) =~= q_plane_high(g, xs, k3, hc as int, wc as int, p.xz, p.kz, p.r0, m));
}

fn q_image(
    x: &Vec<Vec<Vec<u8>>>,
    kernel: &Vec<Vec<Vec<Vec<u8>>>>,
    hc: usize,
    wc: usize,
    p: &QuantParams,
    multiplier: &[u64],
    out: &mut Vec<Vec<Vec<u8>>>,
    rem: &mut Vec<Vec<Vec<u32>>>,
    high: &mut Vec<Vec<Vec<u32>>>,
)
    requires
        q_image_ok(t3(old(out)@), t3(old(rem)@), t3(x@), t4(kernel@), hc as int, wc as int, p.xz, p.kz, p.r0, multiplier@),
        t3(old(rem)@) == t3(old(high)@),
    ensures
        t3(final(out)@) == q_image_val(t3(old(out)@), t3(x@), t4(kernel@), hc as int, wc as int, p.xz, p.kz, p.r0, multiplier@),
        t3(final(rem)@) == q_image_rem(t3(old(rem)@), t3(x@), t4(kernel@), hc as int, wc as int, p.xz, p.kz, p.r0, multiplier@),
        t3(final(high)@) == q_image_high(t3(old(high)@), t3(x@), t4(kernel@), hc as int, wc as int, p.xz, p.kz, p.r0, multiplier@),
{
    let ghost o = t3(old(out)@);
    let ghost r = t3(old(rem)@);
    let ghost g = t3(old(high)@);
    let ghost xs = t3(x@);
    let ghost ks = t4(kernel@);
    let ghost ms = multiplier@;
    let nk = kernel.len();
    for k in 0..nk
        invariant
            o == t3(old(out)@),
            r == t3(old(rem)@),
            g == t3(old(high)@),
            r == g,
            xs == t3(x@),
            ks == t4(kernel@),
            ms == multiplier@,
            nk == ks.len(),
            q_image_ok(o, r, xs, ks, hc as int, wc as int, p.xz, p.kz, p.r0, ms),
            out@.len() == old(out)@.len(),
            rem@.len() == old(rem)@.len(),
            high@.len() == old(high)@.len(),
            forall|j: int| 0 <= j < k ==> crate::tensor::t2((#[trigger] out@[j])@) == q_plane_val(o[j], xs, ks[j], hc as int, wc as int, p.xz, p.kz, p.r0, ms[j]),
            forall|j: int| k <= j < out@.len() ==> #[trigger] out@[j] == old(out)@[j],
            forall|j: int| 0 <= j < k ==> crate::tensor::t2((#[trigger] rem@[j])@) == q_plane_rem(r[j], xs, ks[j], hc as int, wc as int, p.xz, p.kz, p.r0, ms[j]),
            forall|j: int| k <= j < rem@.len() ==> #[trigger] rem@[j] == old(rem)@[j],
            forall|j: int| 0 <= j < k ==> crate::tensor::t2((#[trigger] high@[j])@) == q_plane_high(g[j], xs, ks[j], hc as int, wc as int, p.xz, p.kz, p.r0, ms[j]),
            forall|j: int| k <= j < high@.len() ==> #[trigger] high@[j] == old(high)@[j],
    {
        assert(q_plane_ok(o[k as int], r[k as int], xs, ks[k as int], hc as int, wc as int, p.xz, p.kz, p.r0, ms[k as int]));
        assert(g[k as int] == crate::tensor::t2(high@[k as int]@));
        let m = multiplier[k];
        q_plane(x, &kernel[k], hc, wc, p, m, &mut out[k], &mut rem[k], &mut high[k]);
    }
    assert(t3(out@) =~= q_image_val(o, xs, ks, hc as int, wc as int, p.xz, p.kz, p.r0, ms));
    assert(t3(rem@) =~= q_image_rem(r, xs, ks, hc as int, wc as int, p.xz, p.kz, p.r0, ms));
    assert(t3(high@) =~= q_image_high(g, xs, ks, hc as int, wc as int, p.xz, p.kz, p.r0, ms));
}

/// Quantized convolution layer with one fixed-point multiplier per kernel (the real
/// multiplier times 2^22). For each image `n`, kernel `k` and window position `(h, w)`
/// (as in `vec_conv`) the accumulator is
/// `multiplier[k] * conv_kernel_scala_with_remainder_u8(vec[n], kernel[k], h, w, vec_0, kernel_0, res_0 * 2^22 / multiplier[k])`;
/// `res[n][k][h][w]` gets it shifted down by 22 bits as `u8`. The returned tensors,
/// shaped after `res`'s first elements and zero elsewhere, record its low 22 bits and
/// its bits from 30 up.
pub fn vec_conv_with_remainder_u8(
    vec: &Vec<Vec<Vec<Vec<u8>>>>,
    kernel: &Vec<Vec<Vec<Vec<u8>>>>,
    res: &mut Vec<Vec<Vec<Vec<u8>>>>,
    vec_0: u8,
    kernel_0: u8,
    res_0: u8,
    multiplier: &[u64],
) -> (out: (Vec<Vec<Vec<Vec<u32>>>>, Vec<Vec<Vec<Vec<u32>>>>))
    requires
        conv_shape_ok(t4(vec@), t4(kernel@)),
        first_shape_ok(t4(old(res)@)),
        q_batch_ok(
            t4(old(res)@),
            zeros_like_first(t4(old(res)@)),
            t4(vec@),
            t4(kernel@),
            out_rows(t4(vec@), t4(kernel@)),
            out_cols(t4(vec@), t4(kernel@)),
            vec_0,
            kernel_0,
            res_0,
            multiplier@,
        ),
    ensures
        t4(final(res)@) == q_batch_val(
            t4(old(res)@),
            t4(vec@),
            t4(kernel@),
            out_rows(t4(vec@), t4(kernel@)),
            out_cols(t4(vec@), t4(kernel@)),
            vec_0,
            kernel_0,
            res_0,
            multiplier@,
        ),
        t4(out.0@) == q_batch_rem(
            zeros_like_first(t4(old(res)@)),
            t4(vec@),
            t4(kernel@),
            out_rows(t4(vec@), t4(kernel@)),
            out_cols(t4(vec@), t4(kernel@)),
            vec_0,
            kernel_0,
            res_0,
            multiplier@,
        ),
        t4(out.1@) == q_batch_high(
            zeros_like_first(t4(old(res)@)),
            t4(vec@),
            t4(kernel@),
            out_rows(t4(vec@), t4(kernel@)),
            out_cols(t4(vec@), t4(kernel@)),
            vec_0,
            kernel_0,
            res_0,
            multiplier@,
        ),
{
    let ghost o = t4(old(res)@);
    let ghost v = t4(vec@);
    let ghost ks = t4(kernel@);
    let ghost ms = multiplier@;
    let p = QuantParams { xz: vec_0, kz: kernel_0, r0: res_0 };
    let kernel_size = kernel[0][0].len();
    let batch_size = vec.len();
    let input_height = vec[0][0].len();
    let input_width = vec[0][0][0].len();
    let mut remainder = fill4(0u32, res.len(), res[0].len(), res[0][0].len(), res[0][0][0].len());
    let mut div = fill4(0u32, res.len(), res[0].len(), res[0][0].len(), res[0][0][0].len());
    let ghost z = zeros_like_first(o);
    let hc = input_height - kernel_size + 1;
    let wc = input_width - kernel_size + 1;
    assert(remainder@.len() == z.len());
    assert(div@.len() == z.len());
    for n in 0..batch_size
        invariant
            o == t4(old(res)@),
            v == t4(vec@),
            ks == t4(kernel@),
            ms == multiplier@,
            p.xz == vec_0,
            p.kz == kernel_0,
            p.r0 == res_0,
            z == zeros_like_first(o),
            batch_size == v.len(),
            hc == out_rows(v, ks),
            wc == out_cols(v, ks),
            q_batch_ok(o, z, v, ks, hc as int, wc as int, vec_0, kernel_0, res_0, ms),
            res@.len() == old(res)@.len(),
            remainder@.len() == z.len(),
            div@.len() == z.len(),
            forall|j: int| 0 <= j < n ==> t3((#[trigger] res@[j])@) == q_image_val(o[j], v[j], ks, hc as int, wc as int, vec_0, kernel_0, res_0, ms),
            forall|j: int| n <= j < res@.len() ==> #[trigger] res@[j] == old(res)@[j],
            forall|j: int| 0 <= j < n ==> t3((#[trigger] remainder@[j])@) == q_image_rem(z[j], v[j], ks, hc as int, wc as int, vec_0, kernel_0, res_0, ms),
            forall|j: int| n <= j < remainder@.len() ==> t3((#[trigger] remainder@[j])@) == z[j],
            forall|j: int| 0 <= j < n ==> t3((#[trigger] div@[j])@) == q_image_high(z[j], v[j], ks, hc as int, wc as int, vec_0, kernel_0, res_0, ms),
            forall|j: int| n <= j < div@.len() ==> t3((#[trigger] div@[j])@) == z[j],
    {
        assert(q_image_ok(o[n as int], z[n as int], v[n as int], ks, hc as int, wc as int, vec_0, kernel_0, res_0, ms));
        assert(t3(remainder@[n as int]@) == t3(div@[n as int]@));
        q_image(&vec[n], kernel, hc, wc, &p, multiplier, &mut res[n], &mut remainder[n], &mut div[n]);
    }
    assert(t4(res@) =~= q_batch_val(o, v, ks, hc as int, wc as int, vec_0, kernel_0, res_0, ms));
    assert(t4(remainder@) =~= q_batch_rem(z, v, ks, hc as int, wc as int, vec_0, kernel_0, res_0, ms));
    assert(t4(div@) =~= q_batch_high(z, v, ks, hc as int, wc as int, vec_0, kernel_0, res_0, ms));
    (remainder, div)
}

/// The plain layer keeps the shape of the tensor it writes into.
pub proof fn lemma_conv_batch_i8_shaped(
    old: Seq<Seq<Seq<Seq<i8>>>>,
    vec: Seq<Seq<Seq<Seq<i8>>>>,
    kernels: Seq<Seq<Seq<Seq<i8>>>>,
    hc: int,
    wc: int,
    a: nat,
    b: nat,
    c: nat,
    d: nat,
)
    requires
        shaped4(old, a, b, c, d),
    ensures
        shaped4(conv_batch_i8(old, vec, kernels, hc, wc), a, b, c, d),
{
    let r = conv_batch_i8(old, vec, kernels, hc, wc);
    assert forall|i: int, j: int| 0 <= i < a && 0 <= j < b implies (#[trigger] r[i][j]).len() == c by {
        assert(old[i][j].len() == c);
    }
    assert forall|i: int, j: int, k: int| 0 <= i < a && 0 <= j < b && 0 <= k < c implies (#[trigger] r[i][j][k]).len() == d by {
        assert(old[i][j][k].len() == d);
    }
}

/// The quantized layer keeps the shape of the tensor it writes into.
pub proof fn lemma_q_batch_val_shaped(
    old: Seq<Seq<Seq<Seq<u8>>>>,
    v: Seq<Seq<Seq<Seq<u8>>>>,
    ks: Seq<Seq<Seq<Seq<u8>>>>,
    hc: int,
    wc: int,
    xz: u8,
    kz: u8,
    r0: u8,
    ms: Seq<u64>,
    a: nat,
    b: nat,
    c: nat,
    d: nat,
)
    requires
        shaped4(old, a, b, c, d),
    ensures
        shaped4(q_batch_val(old, v, ks, hc, wc, xz, kz, r0, ms), a, b, c, d),
{
    let r = q_batch_val(old, v, ks, hc, wc, xz, kz, r0, ms);
    assert forall|i: int, j: int| 0 <= i < a && 0 <= j < b implies (#[trigger] r[i][j]).len() == c by {
        assert(old[i][j].len() == c);
    }
    assert forall|i: int, j: int, k: int| 0 <= i < a && 0 <= j < b && 0 <= k < c implies (#[trigger] r[i][j][k]).len() == d by {
        assert(old[i][j][k].len() == d);
    }
}

/// The quantized convolution's three outputs lose nothing of an accumulator below 2^62:
/// `high * 2^30 + value * 2^22 + remainder` gives it back.
pub proof fn lemma_conv_q_recover(x: Seq<Seq<Seq<u8>>>, ker: Seq<Seq<Seq<u8>>>, h: int, w: int, xz: u8, kz: u8, r0: u8, m: u64)
    requires
        conv_q_ok(x, ker, h, w, xz, kz, r0, m),
        conv_acc(x, ker, h, w, xz, kz, r0, m) < 0x4000_0000_0000_0000,
    ensures
        conv_q_high(x, ker, h, w, xz, kz, r0, m) * FIXED_ONE_TIMES_256
            + conv_q_val(x, ker, h, w, xz, kz, r0, m) * FIXED_ONE
            + conv_q_rem(x, ker, h, w, xz, kz, r0, m) == conv_acc(x, ker, h, w, xz, kz, r0, m),
{
    let acc = conv_acc(x, ker, h, w, xz, kz, r0, m);
    let y = conv_zp(x, ker, h, w, xz, kz) + zero_point_offset(r0, m);
    assert(y >= 0);
    assert(acc >= 0) by (nonlinear_arith)
        requires
            acc == m * y,
            m >= 0,
            y >= 0,
    ;
    lemma_requant_split(acc);
}

} // verus!
