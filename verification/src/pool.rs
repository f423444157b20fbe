//! Average pooling over square windows: the plain `i8` form, the quantized `u8`
//! form, and the `u8` form that also records the remainder of each average.
use vstd::prelude::*;
use crate::sums::{sum_jk, sum_k, sum_ijk, partial_ijk, nonneg3, lemma_partial_ijk_bounded, lemma_sum_jk_mono};
use vstd::arithmetic::div_mod::lemma_fundamental_div_mod;
use crate::tensor::{t2, t3, t4, fill4, filled4, shaped4};

verus! {

/// The entries of the window of size `ks` whose top-left corner is `(h, w)`.
pub open spec fn pool_term_u8(s: Seq<Seq<u8>>, h: int, w: int) -> spec_fn(int, int, int) -> int {
    |c: int, j: int, k: int| s[h + j][w + k] as int
}

pub open spec fn pool_term_i8(s: Seq<Seq<i8>>, h: int, w: int) -> spec_fn(int, int, int) -> int {
    |c: int, j: int, k: int| s[h + j][w + k] as int
}

/// The sum of the window.
pub open spec fn pool_sum_u8(s: Seq<Seq<u8>>, h: int, w: int, ks: int) -> int {
    sum_jk(pool_term_u8(s, h, w), 0, ks, ks)
}

pub open spec fn pool_sum_i8(s: Seq<Seq<i8>>, h: int, w: int, ks: int) -> int {
    sum_jk(pool_term_i8(s, h, w), 0, ks, ks)
}

/// Position `(j, k)` of the window at `(h, w)` is inside `s`.
pub open spec fn in_pool_window<T>(s: Seq<Seq<T>>, h: int, w: int, j: int, k: int) -> bool {
    h + j < s.len() && w + k < s[h + j].len()
}

/// The window can be read: its ends fit in `usize` and every position is in `s`.
pub open spec fn pool_window_ok<T>(s: Seq<Seq<T>>, h: int, w: int, ks: int) -> bool {
    &&& 0 <= h
    &&& 0 <= w
    &&& 0 <= ks
    &&& h + ks <= usize::MAX
    &&& w + ks <= usize::MAX
    &&& forall|j: int, k: int| 0 <= j < ks && 0 <= k < ks ==> #[trigger] in_pool_window(s, h, w, j, k)
}

/// The divisor of the `u8` average: the window size cast to `u32`, squared.
pub open spec fn pool_div_u8(ks: int) -> int {
    (ks as u32) as int * (ks as u32) as int
}

/// `avg_pool_helper_u8(s, h, w, ks)` is defined: the window can be read, its sum fits
/// in `u32`, and the divisor neither overflows `u32` nor is zero.
pub open spec fn pool_u8_ok(s: Seq<Seq<u8>>, h: int, w: int, ks: int) -> bool {
    &&& pool_window_ok(s, h, w, ks)
    &&& pool_sum_u8(s, h, w, ks) <= u32::MAX
    &&& pool_div_u8(ks) <= u32::MAX
    &&& pool_div_u8(ks) != 0
}

/// The average of the window, truncated to `u8`.
pub open spec fn pool_avg_u8(s: Seq<Seq<u8>>, h: int, w: int, ks: int) -> u8 {
    (pool_sum_u8(s, h, w, ks) / pool_div_u8(ks)) as u8
}

/// The remainder of the window's average, truncated to `u8`.
pub open spec fn pool_rem_u8(s: Seq<Seq<u8>>, h: int, w: int, ks: int) -> u8 {
    (pool_sum_u8(s, h, w, ks) % pool_div_u8(ks)) as u8
}

proof fn lemma_pool_step_u8(s: Seq<Seq<u8>>, h: int, w: int, ks: int, j: int, k: int)
    requires
        0 <= j < ks,
        0 <= k < ks,
    ensures
        partial_ijk(pool_term_u8(s, h, w), 0, j, k + 1, ks) <= pool_sum_u8(s, h, w, ks),
{
    let f = pool_term_u8(s, h, w);
    assert forall|a: int, b: int, c: int| #[trigger] f(a, b, c) >= 0 by {}
    lemma_partial_ijk_bounded(f, 0, j, k + 1, 1, ks);
}

fn window_sum_u8(input: &Vec<Vec<u8>>, h_start: usize, w_start: usize, kernel_size: usize) -> (res: u32)
    requires
        pool_window_ok(t2(input@), h_start as int, w_start as int, kernel_size as int),
        pool_sum_u8(t2(input@), h_start as int, w_start as int, kernel_size as int) <= u32::MAX,
    ensures
        res == pool_sum_u8(t2(input@), h_start as int, w_start as int, kernel_size as int),
{
    let ghost s = t2(input@);
    let ghost f = pool_term_u8(s, h_start as int, w_start as int);
    let ghost ks = kernel_size as int;
    let mut res: u32 = 0;
    for i in h_start..(h_start + kernel_size)
        invariant
            s == t2(input@),
            f == pool_term_u8(s, h_start as int, w_start as int),
            ks == kernel_size,
            pool_window_ok(s, h_start as int, w_start as int, ks),
            pool_sum_u8(s, h_start as int, w_start as int, ks) <= u32::MAX,
            h_start <= i <= h_start + kernel_size,
            res == sum_jk(f, 0, i - h_start, ks),
    {
        for j in w_start..(w_start + kernel_size)
            invariant
                s == t2(input@),
                f == pool_term_u8(s, h_start as int, w_start as int),
                ks == kernel_size,
                pool_window_ok(s, h_start as int, w_start as int, ks),
                pool_sum_u8(s, h_start as int, w_start as int, ks) <= u32::MAX,
                h_start <= i < h_start + kernel_size,
                w_start <= j <= w_start + kernel_size,
                res == partial_ijk(f, 0, i - h_start, j - w_start, ks),
        {
            let ghost jj = i - h_start;
            let ghost kk = j - w_start;
            assert(in_pool_window(s, h_start as int, w_start as int, jj, kk));
            proof {
                lemma_pool_step_u8(s, h_start as int, w_start as int, ks, jj, kk);
            }
            res += input[i][j] as u32;
        }
    }
    res
}

/// The average of the `kernel_size` x `kernel_size` window at `(h_start, w_start)`
/// (its sum divided by the square of the size cast to `u32`), truncated to `u8`.
pub fn avg_pool_helper_u8(input: &Vec<Vec<u8>>, h_start: usize, w_start: usize, kernel_size: usize) -> (r: u8)
    requires
        pool_u8_ok(t2(input@), h_start as int, w_start as int, kernel_size as int),
    ensures
        r == pool_avg_u8(t2(input@), h_start as int, w_start as int, kernel_size as int),
{
    let res = window_sum_u8(input, h_start, w_start, kernel_size);
    #[verifier::truncate]
    ((res / (kernel_size as u32 * kernel_size as u32)) as u8)
}

/// The average of the window and the remainder of that division, both truncated to `u8`.
pub fn avg_pool_with_remainder_helper_u8(input: &Vec<Vec<u8>>, h_start: usize, w_start: usize, kernel_size: usize) -> (r: (u8, u8))
    requires
        pool_u8_ok(t2(input@), h_start as int, w_start as int, kernel_size as int),
    ensures
        r.0 == pool_avg_u8(t2(input@), h_start as int, w_start as int, kernel_size as int),
        r.1 == pool_rem_u8(t2(input@), h_start as int, w_start as int, kernel_size as int),
{
    let res = window_sum_u8(input, h_start, w_start, kernel_size);
    (
        #[verifier::truncate]
        ((res / (kernel_size as u32 * kernel_size as u32)) as u8),
        #[verifier::truncate]
        ((res % (kernel_size as u32 * kernel_size as u32)) as u8),
    )
}

// ---------------------------------------------------------------------------
// Pooling a batch of u8 images.

pub open spec fn pool_row_avg(old: Seq<u8>, s: Seq<Seq<u8>>, h: int, wc: int, ks: int) -> Seq<u8> {
    Seq::new(old.len(), |w: int| if w < wc { pool_avg_u8(s, ks * h, ks * w, ks) } else { old[w] })
}

pub open spec fn pool_row_rem(old: Seq<u8>, s: Seq<Seq<u8>>, h: int, wc: int, ks: int) -> Seq<u8> {
    Seq::new(old.len(), |w: int| if w < wc { pool_rem_u8(s, ks * h, ks * w, ks) } else { old[w] })
}

pub open spec fn pool_plane_avg(old: Seq<Seq<u8>>, s: Seq<Seq<u8>>, hc: int, wc: int, ks: int) -> Seq<Seq<u8>> {
    Seq::new(old.len(), |h: int| if h < hc { pool_row_avg(old[h], s, h, wc, ks) } else { old[h] })
}

pub open spec fn pool_plane_rem(old: Seq<Seq<u8>>, s: Seq<Seq<u8>>, hc: int, wc: int, ks: int) -> Seq<Seq<u8>> {
    Seq::new(old.len(), |h: int| if h < hc { pool_row_rem(old[h], s, h, wc, ks) } else { old[h] })
}

pub open spec fn pool_image_avg(old: Seq<Seq<Seq<u8>>>, x: Seq<Seq<Seq<u8>>>, nc: int, hc: int, wc: int, ks: int) -> Seq<Seq<Seq<u8>>> {
    Seq::new(old.len(), |c: int| if c < nc { pool_plane_avg(old[c], x[c], hc, wc, ks) } else { old[c] })
}

pub open spec fn pool_image_rem(old: Seq<Seq<Seq<u8>>>, x: Seq<Seq<Seq<u8>>>, nc: int, hc: int, wc: int, ks: int) -> Seq<Seq<Seq<u8>>> {
    Seq::new(old.len(), |c: int| if c < nc { pool_plane_rem(old[c], x[c], hc, wc, ks) } else { old[c] })
}

/// `old` with `[n][c][h][w]` set, for each image `n`, channel `c < nc` and output
/// position `h < hc`, `w < wc`, to the average of the window at `(ks * h, ks * w)`.
pub open spec fn pool_batch_avg(old: Seq<Seq<Seq<Seq<u8>>>>, v: Seq<Seq<Seq<Seq<u8>>>>, nc: int, hc: int, wc: int, ks: int) -> Seq<Seq<Seq<Seq<u8>>>> {
    Seq::new(old.len(), |n: int| if n < v.len() { pool_image_avg(old[n], v[n], nc, hc, wc, ks) } else { old[n] })
}

pub open spec fn pool_batch_rem(old: Seq<Seq<Seq<Seq<u8>>>>, v: Seq<Seq<Seq<Seq<u8>>>>, nc: int, hc: int, wc: int, ks: int) -> Seq<Seq<Seq<Seq<u8>>>> {
    Seq::new(old.len(), |n: int| if n < v.len() { pool_image_rem(old[n], v[n], nc, hc, wc, ks) } else { old[n] })
}

pub open spec fn pool_row_ok<T>(out: Seq<T>, s: Seq<Seq<u8>>, h: int, wc: int, ks: int) -> bool {
    wc <= out.len() && forall|w: int| 0 <= w < wc ==> #[trigger] pool_u8_ok(s, ks * h, ks * w, ks)
}

/// Every output of the plane that pooling writes is inside `out` and can be computed
/// (with no output column, no row is written).
pub open spec fn pool_plane_ok<T>(out: Seq<Seq<T>>, s: Seq<Seq<u8>>, hc: int, wc: int, ks: int) -> bool {
    wc == 0 || (hc <= out.len() && forall|h: int| 0 <= h < hc ==> pool_row_ok(#[trigger] out[h], s, h, wc, ks))
}

pub open spec fn pool_image_ok<T>(out: Seq<Seq<Seq<T>>>, x: Seq<Seq<Seq<u8>>>, nc: int, hc: int, wc: int, ks: int) -> bool {
    nc <= out.len() && nc <= x.len() && forall|c: int| 0 <= c < nc ==> pool_plane_ok(#[trigger] out[c], x[c], hc, wc, ks)
}

pub open spec fn pool_batch_ok<T>(out: Seq<Seq<Seq<Seq<T>>>>, v: Seq<Seq<Seq<Seq<u8>>>>, nc: int, hc: int, wc: int, ks: int) -> bool {
    v.len() <= out.len() && forall|n: int| 0 <= n < v.len() ==> pool_image_ok(#[trigger] out[n], v[n], nc, hc, wc, ks)
}

/// The shapes that a pooling layer reads before it starts: a first image with a
/// first channel and a first row, and a nonzero window size.
pub open spec fn pool_shape_ok<T>(v: Seq<Seq<Seq<Seq<T>>>>, ks: int) -> bool {
    &&& v.len() > 0
    &&& v[0].len() > 0
    &&& v[0][0].len() > 0
    &&& ks > 0
}

fn pool_row(input: &Vec<Vec<u8>>, h: usize, wc: usize, ks: usize, out: &mut Vec<u8>)
    requires
        pool_row_ok(old(out)@, t2(input@), h as int, wc as int, ks as int),
    ensures
        final(out)@ == pool_row_avg(old(out)@, t2(input@), h as int, wc as int, ks as int),
{
    for w in 0..wc
        invariant
            pool_row_ok(old(out)@, t2(input@), h as int, wc as int, ks as int),
            out@.len() == old(out)@.len(),
            forall|j: int| 0 <= j < w ==> out@[j] == pool_avg_u8(t2(input@), ks * h, ks * j, ks as int),
            forall|j: int| w <= j < out@.len() ==> out@[j] == old(out)@[j],
    {
        assert(pool_u8_ok(t2(input@), ks * h, ks * w, ks as int));
        assert(ks * h <= usize::MAX && ks * w <= usize::MAX);
        out[w] = avg_pool_helper_u8(input, ks * h, ks * w, ks);
    }
    assert(out@ =~= pool_row_avg(old(out)@, t2(input@), h as int, wc as int, ks as int));
}

fn pool_plane(input: &Vec<Vec<u8>>, hc: usize, wc: usize, ks: usize, out: &mut Vec<Vec<u8>>)
    requires
        pool_plane_ok(t2(old(out)@), t2(input@), hc as int, wc as int, ks as int),
    ensures
        t2(final(out)@) == pool_plane_avg(t2(old(out)@), t2(input@), hc as int, wc as int, ks as int),
{
    let ghost o = t2(old(out)@);
    if wc == 0 {
        assert forall|h: int| 0 <= h < o.len() implies #[trigger] pool_plane_avg(o, t2(input@), hc as int, 0, ks as int)[h] == o[h] by {
            assert(pool_row_avg(o[h], t2(input@), h, 0, ks as int) =~= o[h]);
        }
        assert(t2(out@) =~= pool_plane_avg(o, t2(input@), hc as int, wc as int, ks as int));
        return;
    }
    for h in 0..hc
        invariant
            o == t2(old(out)@),
            wc > 0,
            pool_plane_ok(o, t2(input@), hc as int, wc as int, ks as int),
            out@.len() == old(out)@.len(),
            forall|j: int| 0 <= j < h ==> (#[trigger] out@[j])@ == pool_row_avg(o[j], t2(input@), j, wc as int, ks as int),
            forall|j: int| h <= j < out@.len() ==> #[trigger] out@[j] == old(out)@[j],
    {
        assert(pool_row_ok(o[h as int], t2(input@), h as int, wc as int, ks as int));
        pool_row(input, h, wc, ks, &mut out[h]);
    }
    assert(t2(out@) =~= pool_plane_avg(o, t2(input@), hc as int, wc as int, ks as int));
}

fn pool_image(input: &Vec<Vec<Vec<u8>>>, nc: usize, hc: usize, wc: usize, ks: usize, out: &mut Vec<Vec<Vec<u8>>>)
    requires
        pool_image_ok(t3(old(out)@), t3(input@), nc as int, hc as int, wc as int, ks as int),
    ensures
        t3(final(out)@) == pool_image_avg(t3(old(out)@), t3(input@), nc as int, hc as int, wc as int, ks as int),
{
    let ghost o = t3(old(out)@);
    let ghost x = t3(input@);
    for c in 0..nc
        invariant
            o == t3(old(out)@),
            x == t3(input@),
            pool_image_ok(o, x, nc as int, hc as int, wc as int, ks as int),
            out@.len() == old(out)@.len(),
            forall|j: int| 0 <= j < c ==> t2((#[trigger] out@[j])@) == pool_plane_avg(o[j], x[j], hc as int, wc as int, ks as int),
            forall|j: int| c <= j < out@.len() ==> #[trigger] out@[j] == old(out)@[j],
    {
        assert(pool_plane_ok(o[c as int], x[c as int], hc as int, wc as int, ks as int));
        pool_plane(&input[c], hc, wc, ks, &mut out[c]);
    }
    assert(t3(out@) =~= pool_image_avg(o, x, nc as int, hc as int, wc as int, ks as int));
}

/// The output extents of `avg_pool_scala_u8`: images, the first image's channels,
/// and its height and width divided by the window size.
pub open spec fn pool_out_shape<T>(v: Seq<Seq<Seq<Seq<T>>>>, ks: int) -> Seq<Seq<Seq<Seq<u8>>>> {
    filled4(0u8, v.len(), v[0].len(), (v[0][0].len() as int / ks) as nat, (v[0][0][0].len() as int / ks) as nat)
}

/// Average pooling with `kernel_size` x `kernel_size` windows and stride `kernel_size`:
/// an output shaped (images, channels, height / size, width / size) after the first image,
/// each entry the `u8` average of its window.
pub fn avg_pool_scala_u8(vec: &Vec<Vec<Vec<Vec<u8>>>>, kernel_size: usize) -> (output: Vec<Vec<Vec<Vec<u8>>>>)
    requires
        pool_shape_ok(t4(vec@), kernel_size as int),
        pool_batch_ok(
            pool_out_shape(t4(vec@), kernel_size as int),
            t4(vec@),
            t4(vec@)[0].len() as int,
            t4(vec@)[0][0].len() as int / kernel_size as int,
            t4(vec@)[0][0][0].len() as int / kernel_size as int,
            kernel_size as int,
        ),
    ensures
        t4(output@) == pool_batch_avg(
            pool_out_shape(t4(vec@), kernel_size as int),
            t4(vec@),
            t4(vec@)[0].len() as int,
            t4(vec@)[0][0].len() as int / kernel_size as int,
            t4(vec@)[0][0][0].len() as int / kernel_size as int,
            kernel_size as int,
        ),
{
    let ghost v = t4(vec@);
    let batch_size = vec.len();
    let num_channels = vec[0].len();
    let input_height = vec[0][0].len();
    let input_width = vec[0][0][0].len();
    let mut output = fill4(0u8, batch_size, num_channels, input_height / kernel_size, input_width / kernel_size);
    let ghost o = t4(output@);
    let hc = input_height / kernel_size;
    let wc = input_width / kernel_size;
    assert(o == pool_out_shape(v, kernel_size as int));
    for n in 0..batch_size
        invariant
            v == t4(vec@),
            o == pool_out_shape(v, kernel_size as int),
            batch_size == v.len(),
            num_channels == v[0].len(),
            hc == v[0][0].len() as int / kernel_size as int,
            wc == v[0][0][0].len() as int / kernel_size as int,
            pool_batch_ok(o, v, num_channels as int, hc as int, wc as int, kernel_size as int),
            output@.len() == o.len(),
            forall|j: int| 0 <= j < n ==> t3((#[trigger] output@[j])@) == pool_image_avg(o[j], v[j], num_channels as int, hc as int, wc as int, kernel_size as int),
            forall|j: int| n <= j < output@.len() ==> t3((#[trigger] output@[j])@) == o[j],
    {
        assert(pool_image_ok(o[n as int], v[n as int], num_channels as int, hc as int, wc as int, kernel_size as int));
        pool_image(&vec[n], num_channels, hc, wc, kernel_size, &mut output[n]);
    }
    assert(t4(output@) =~= pool_batch_avg(o, v, num_channels as int, hc as int, wc as int, kernel_size as int));
    output
}

fn pool_row2(input: &Vec<Vec<u8>>, h: usize, wc: usize, ks: usize, out: &mut Vec<u8>, rem: &mut Vec<u8>)
    requires
        pool_row_ok(old(out)@, t2(input@), h as int, wc as int, ks as int),
        pool_row_ok(old(rem)@, t2(input@), h as int, wc as int, ks as int),
    ensures
        final(out)@ == pool_row_avg(old(out)@, t2(input@), h as int, wc as int, ks as int),
        final(rem)@ == pool_row_rem(old(rem)@, t2(input@), h as int, wc as int, ks as int),
{
    for w in 0..wc
        invariant
            pool_row_ok(old(out)@, t2(input@), h as int, wc as int, ks as int),
            pool_row_ok(old(rem)@, t2(input@), h as int, wc as int, ks as int),
            out@.len() == old(out)@.len(),
            rem@.len() == old(rem)@.len(),
            forall|j: int| 0 <= j < w ==> out@[j] == pool_avg_u8(t2(input@), ks * h, ks * j, ks as int),
            forall|j: int| w <= j < out@.len() ==> out@[j] == old(out)@[j],
            forall|j: int| 0 <= j < w ==> rem@[j] == pool_rem_u8(t2(input@), ks * h, ks * j, ks as int),
            forall|j: int| w <= j < rem@.len() ==> rem@[j] == old(rem)@[j],
    {
        assert(pool_u8_ok(t2(input@), ks * h, ks * w, ks as int));
        assert(ks * h <= usize::MAX && ks * w <= usize::MAX);
        let (res, remained) = avg_pool_with_remainder_helper_u8(input, ks * h, ks * w, ks);
        out[w] = res;
        rem[w] = remained;
    }
    assert(out@ =~= pool_row_avg(old(out)@, t2(input@), h as int, wc as int, ks as int));
    assert(rem@ =~= pool_row_rem(old(rem)@, t2(input@), h as int, wc as int, ks as int));
}

fn pool_plane2(input: &Vec<Vec<u8>>, hc: usize, wc: usize, ks: usize, out: &mut Vec<Vec<u8>>, rem: &mut Vec<Vec<u8>>)
    requires
        pool_plane_ok(t2(old(out)@), t2(input@), hc as int, wc as int, ks as int),
        pool_plane_ok(t2(old(rem)@), t2(input@), hc as int, wc as int, ks as int),
    ensures
        t2(final(out)@) == pool_plane_avg(t2(old(out)@), t2(input@), hc as int, wc as int, ks as int),
        t2(final(rem)@) == pool_plane_rem(t2(old(rem)@), t2(input@), hc as int, wc as int, ks as int),
{
    let ghost o = t2(old(out)@);
    let ghost r = t2(old(rem)@);
    if wc == 0 {
        assert forall|h: int| 0 <= h < o.len() implies #[trigger] pool_plane_avg(o, t2(input@), hc as int, 0, ks as int)[h] == o[h] by {
            assert(pool_row_avg(o[h], t2(input@), h, 0, ks as int) =~= o[h]);
        }
        assert forall|h: int| 0 <= h < r.len() implies #[trigger] pool_plane_rem(r, t2(input@), hc as int, 0, ks as int)[h] == r[h] by {
            assert(pool_row_rem(r[h], t2(input@), h, 0, ks as int) =~= r[h]);
        }
        assert(t2(out@) =~= pool_plane_avg(o, t2(input@), hc as int, wc as int, ks as int));
        assert(t2(rem@) =~= pool_plane_rem(r, t2(input@), hc as int, wc as int, ks as int));
        return;
    }
    for h in 0..hc
        invariant
            o == t2(old(out)@),
            r == t2(old(rem)@),
            wc > 0,
            pool_plane_ok(o, t2(input@), hc as int, wc as int, ks as int),
            pool_plane_ok(r, t2(input@), hc as int, wc as int, ks as int),
            out@.len() == old(out)@.len(),
            rem@.len() == old(rem)@.len(),
            forall|j: int| 0 <= j < h ==> (#[trigger] out@[j])@ == pool_row_avg(o[j], t2(input@), j, wc as int, ks as int),
            forall|j: int| h <= j < out@.len() ==> #[trigger] out@[j] == old(out)@[j],
            forall|j: int| 0 <= j < h ==> (#[trigger] rem@[j])@ == pool_row_rem(r[j], t2(input@), j, wc as int, ks as int),
            forall|j: int| h <= j < rem@.len() ==> #[trigger] rem@[j] == old(rem)@[j],
    {
        assert(pool_row_ok(o[h as int], t2(input@), h as int, wc as int, ks as int));
        assert(pool_row_ok(r[h as int], t2(input@), h as int, wc as int, ks as int));
        pool_row2(input, h, wc, ks, &mut out[h], &mut rem[h]);
    }
    assert(t2(out@) =~= pool_plane_avg(o, t2(input@), hc as int, wc as int, ks as int));
    assert(t2(rem@) =~= pool_plane_rem(r, t2(input@), hc as int, wc as int, ks as int));
}

fn pool_image2(input: &Vec<Vec<Vec<u8>>>, nc: usize, hc: usize, wc: usize, ks: usize, out: &mut Vec<Vec<Vec<u8>>>, rem: &mut Vec<Vec<Vec<u8>>>)
    requires
        pool_image_ok(t3(old(out)@), t3(input@), nc as int, hc as int, wc as int, ks as int),
        pool_image_ok(t3(old(rem)@), t3(input@), nc as int, hc as int, wc as int, ks as int),
    ensures
        t3(final(out)@) == pool_image_avg(t3(old(out)@), t3(input@), nc as int, hc as int, wc as int, ks as int),
        t3(final(rem)@) == pool_image_rem(t3(old(rem)@), t3(input@), nc as int, hc as int, wc as int, ks as int),
{
    let ghost o = t3(old(out)@);
    let ghost r = t3(old(rem)@);
    let ghost x = t3(input@);
    for c in 0..nc
        invariant
            o == t3(old(out)@),
            r == t3(old(rem)@),
            x == t3(input@),
            pool_image_ok(o, x, nc as int, hc as int, wc as int, ks as int),
            pool_image_ok(r, x, nc as int, hc as int, wc as int, ks as int),
            out@.len() == old(out)@.len(),
            rem@.len() == old(rem)@.len(),
            forall|j: int| 0 <= j < c ==> t2((#[trigger] out@[j])@) == pool_plane_avg(o[j], x[j], hc as int, wc as int, ks as int),
            forall|j: int| c <= j < out@.len() ==> #[trigger] out@[j] == old(out)@[j],
            forall|j: int| 0 <= j < c ==> t2((#[trigger] rem@[j])@) == pool_plane_rem(r[j], x[j], hc as int, wc as int, ks as int),
            forall|j: int| c <= j < rem@.len() ==> #[trigger] rem@[j] == old(rem)@[j],
    {
        assert(pool_plane_ok(o[c as int], x[c as int], hc as int, wc as int, ks as int));
        assert(pool_plane_ok(r[c as int], x[c as int], hc as int, wc as int, ks as int));
        pool_plane2(&input[c], hc, wc, ks, &mut out[c], &mut rem[c]);
    }
    assert(t3(out@) =~= pool_image_avg(o, x, nc as int, hc as int, wc as int, ks as int));
    assert(t3(rem@) =~= pool_image_rem(r, x, nc as int, hc as int, wc as int, ks as int));
}

/// The output extents of `avg_pool_with_remainder_scala_u8`: images, the first image's
/// channels, and its height and width halved.
pub open spec fn pool_half_shape<T>(v: Seq<Seq<Seq<Seq<T>>>>) -> Seq<Seq<Seq<Seq<u8>>>> {
    filled4(0u8, v.len(), v[0].len(), (v[0][0].len() as int / 2) as nat, (v[0][0][0].len() as int / 2) as nat)
}

/// The extents of the remainder tensor: those of the first image.
pub open spec fn pool_full_shape<T>(v: Seq<Seq<Seq<Seq<T>>>>) -> Seq<Seq<Seq<Seq<u8>>>> {
    filled4(0u8, v.len(), v[0].len(), v[0][0].len(), v[0][0][0].len())
}

/// Average pooling with `kernel_size` x `kernel_size` windows and stride `kernel_size`
/// that also returns the remainders. The averages go to a tensor shaped (images, channels,
/// height / 2, width / 2) after the first image, the remainders to one shaped (images,
/// channels, height, width); entries that no window reaches stay 0.
pub fn avg_pool_with_remainder_scala_u8(vec: &Vec<Vec<Vec<Vec<u8>>>>, kernel_size: usize) -> (out: (Vec<Vec<Vec<Vec<u8>>>>, Vec<Vec<Vec<Vec<u8>>>>))
    requires
        pool_shape_ok(t4(vec@), kernel_size as int),
        pool_batch_ok(
            pool_half_shape(t4(vec@)),
            t4(vec@),
            t4(vec@)[0].len() as int,
            t4(vec@)[0][0].len() as int / kernel_size as int,
            t4(vec@)[0][0][0].len() as int / kernel_size as int,
            kernel_size as int,
        ),
        pool_batch_ok(
            pool_full_shape(t4(vec@)),
            t4(vec@),
            t4(vec@)[0].len() as int,
            t4(vec@)[0][0].len() as int / kernel_size as int,
            t4(vec@)[0][0][0].len() as int / kernel_size as int,
            kernel_size as int,
        ),
    ensures
        t4(out.0@) == pool_batch_avg(
            pool_half_shape(t4(vec@)),
            t4(vec@),
            t4(vec@)[0].len() as int,
            t4(vec@)[0][0].len() as int / kernel_size as int,
            t4(vec@)[0][0][0].len() as int / kernel_size as int,
            kernel_size as int,
        ),
        t4(out.1@) == pool_batch_rem(
            pool_full_shape(t4(vec@)),
            t4(vec@),
            t4(vec@)[0].len() as int,
            t4(vec@)[0][0].len() as int / kernel_size as int,
            t4(vec@)[0][0][0].len() as int / kernel_size as int,
            kernel_size as int,
        ),
{
    let ghost v = t4(vec@);
    let batch_size = vec.len();
    let num_channels = vec[0].len();
    let input_height = vec[0][0].len();
    let input_width = vec[0][0][0].len();
    let mut output = fill4(0u8, batch_size, num_channels, input_height / 2, input_width / 2);
    let mut remainder = fill4(0u8, batch_size, num_channels, input_height, input_width);
    let ghost o = t4(output@);
    let ghost r = t4(remainder@);
    let hc = input_height / kernel_size;
    let wc = input_width / kernel_size;
    assert(o == pool_half_shape(v));
    assert(r == pool_full_shape(v));
    for n in 0..batch_size
        invariant
            v == t4(vec@),
            o == pool_half_shape(v),
            r == pool_full_shape(v),
            batch_size == v.len(),
            num_channels == v[0].len(),
            hc == v[0][0].len() as int / kernel_size as int,
            wc == v[0][0][0].len() as int / kernel_size as int,
            pool_batch_ok(o, v, num_channels as int, hc as int, wc as int, kernel_size as int),
            pool_batch_ok(r, v, num_channels as int, hc as int, wc as int, kernel_size as int),
            output@.len() == o.len(),
            remainder@.len() == r.len(),
            forall|j: int| 0 <= j < n ==> t3((#[trigger] output@[j])@) == pool_image_avg(o[j], v[j], num_channels as int, hc as int, wc as int, kernel_size as int),
            forall|j: int| n <= j < output@.len() ==> t3((#[trigger] output@[j])@) == o[j],
            forall|j: int| 0 <= j < n ==> t3((#[trigger] remainder@[j])@) == pool_image_rem(r[j], v[j], num_channels as int, hc as int, wc as int, kernel_size as int),
            forall|j: int| n <= j < remainder@.len() ==> t3((#[trigger] remainder@[j])@) == r[j],
    {
        assert(pool_image_ok(o[n as int], v[n as int], num_channels as int, hc as int, wc as int, kernel_size as int));
        assert(pool_image_ok(r[n as int], v[n as int], num_channels as int, hc as int, wc as int, kernel_size as int));
        pool_image2(&vec[n], num_channels, hc, wc, kernel_size, &mut output[n], &mut remainder[n]);
    }
    assert(t4(output@) =~= pool_batch_avg(o, v, num_channels as int, hc as int, wc as int, kernel_size as int));
    assert(t4(remainder@) =~= pool_batch_rem(r, v, num_channels as int, hc as int, wc as int, kernel_size as int));
    (output, remainder)
}

// ---------------------------------------------------------------------------
// Plain i8 pooling.

/// Integer division rounding toward zero, as `i32::checked_div` computes it.
pub open spec fn div_toward_zero(x: int, d: int) -> int {
    if x == 0 {
        0
    } else if x > 0 && d > 0 {
        x / d
    } else if x < 0 && d < 0 {
        (x * -1) / (d * -1)
    } else if x < 0 {
        ((x * -1) / d) * -1
    } else {
        (x / (d * -1)) * -1
    }
}

/// The divisor of the `i8` average: the square of the window size, cast to `i32`.
pub open spec fn pool_div_i8(ks: int) -> int {
    (ks * ks) as i32 as int
}

/// Every running total of the window sum fits in an `i32` accumulator.
pub open spec fn pool_fits_i32(s: Seq<Seq<i8>>, h: int, w: int, ks: int) -> bool {
    forall|j: int, k: int| 0 <= j < ks && 0 <= k <= ks
        ==> i32::MIN <= #[trigger] partial_ijk(pool_term_i8(s, h, w), 0, j, k, ks) <= i32::MAX
}

/// `avg_pool_helper(s, h, w, ks)` is defined: the window can be read, every running total
/// fits in `i32`, the square of the size fits in `usize`, and the `i32` division neither
/// divides by zero nor overflows.
pub open spec fn pool_i8_ok(s: Seq<Seq<i8>>, h: int, w: int, ks: int) -> bool {
    &&& pool_window_ok(s, h, w, ks)
    &&& pool_fits_i32(s, h, w, ks)
    &&& ks * ks <= usize::MAX
    &&& pool_div_i8(ks) != 0
    &&& !(pool_sum_i8(s, h, w, ks) == i32::MIN && pool_div_i8(ks) == -1)
}

/// The average of the window (rounded toward zero), truncated to `i8`.
pub open spec fn pool_avg_i8(s: Seq<Seq<i8>>, h: int, w: int, ks: int) -> i8 {
    div_toward_zero(pool_sum_i8(s, h, w, ks), pool_div_i8(ks)) as i8
}

proof fn lemma_div_toward_zero_bounds(x: int, d: int)
    requires
        i32::MIN <= x <= i32::MAX,
        i32::MIN <= d <= i32::MAX,
        d != 0,
        !(x == i32::MIN && d == -1),
    ensures
        i32::MIN <= div_toward_zero(x, d) <= i32::MAX,
{
    if x > 0 && d > 0 {
        assert(0 <= x / d <= x) by (nonlinear_arith) requires x > 0, d > 0;
    } else if x < 0 && d < 0 {
        let a = x * -1;
        let b = d * -1;
        if b == 1 {
            assert(a <= i32::MAX);
            assert(a / b == a);
        } else {
            assert(0 <= a / b <= a) by (nonlinear_arith) requires a > 0, b > 1;
            assert(a / b <= i32::MAX) by (nonlinear_arith) requires a > 0, b > 1, a <= 2147483648;
        }
    } else if x < 0 {
        let a = x * -1;
        assert(0 <= a / d <= a) by (nonlinear_arith) requires a > 0, d > 0;
    } else if x > 0 {
        let b = d * -1;
        assert(0 <= x / b <= x) by (nonlinear_arith) requires x > 0, b > 0;
    }
}

fn window_sum_i8(input: &Vec<Vec<i8>>, h_start: usize, w_start: usize, kernel_size: usize) -> (res: i32)
    requires
        pool_window_ok(t2(input@), h_start as int, w_start as int, kernel_size as int),
        pool_fits_i32(t2(input@), h_start as int, w_start as int, kernel_size as int),
    ensures
        res == pool_sum_i8(t2(input@), h_start as int, w_start as int, kernel_size as int),
{
    let ghost s = t2(input@);
    let ghost f = pool_term_i8(s, h_start as int, w_start as int);
    let ghost ks = kernel_size as int;
    let mut res: i32 = 0;
    for i in h_start..(h_start + kernel_size)
        invariant
            s == t2(input@),
            f == pool_term_i8(s, h_start as int, w_start as int),
            ks == kernel_size,
            pool_window_ok(s, h_start as int, w_start as int, ks),
            pool_fits_i32(s, h_start as int, w_start as int, ks),
            h_start <= i <= h_start + kernel_size,
            res == sum_jk(f, 0, i - h_start, ks),
    {
        for j in w_start..(w_start + kernel_size)
            invariant
                s == t2(input@),
                f == pool_term_i8(s, h_start as int, w_start as int),
                ks == kernel_size,
                pool_window_ok(s, h_start as int, w_start as int, ks),
                pool_fits_i32(s, h_start as int, w_start as int, ks),
                h_start <= i < h_start + kernel_size,
                w_start <= j <= w_start + kernel_size,
                res == partial_ijk(f, 0, i - h_start, j - w_start, ks),
        {
            let ghost jj = i - h_start;
            let ghost kk = j - w_start;
            assert(in_pool_window(s, h_start as int, w_start as int, jj, kk));
            assert(i32::MIN <= partial_ijk(f, 0, jj, kk + 1, ks) <= i32::MAX);
            res += input[i][j] as i32;
        }
    }
    res
}

/// The average of the `kernel_size` x `kernel_size` window at `(h_start, w_start)`:
/// its `i32` sum divided (rounding toward zero) by the square of the size cast to `i32`,
/// truncated to `i8`.
pub fn avg_pool_helper(input: &Vec<Vec<i8>>, h_start: usize, w_start: usize, kernel_size: usize) -> (r: i8)
    requires
        pool_i8_ok(t2(input@), h_start as int, w_start as int, kernel_size as int),
    ensures
        r == pool_avg_i8(t2(input@), h_start as int, w_start as int, kernel_size as int),
{
    let res = window_sum_i8(input, h_start, w_start, kernel_size);
    let d = (kernel_size * kernel_size) as i32;
    proof {
        lemma_div_toward_zero_bounds(res as int, d as int);
    }
    let q = res.checked_div(d).unwrap();
    #[verifier::truncate]
    (q as i8)
}

pub open spec fn pool_row_avg_i8(old: Seq<i8>, s: Seq<Seq<i8>>, h: int, wc: int, ks: int) -> Seq<i8> {
    Seq::new(old.len(), |w: int| if w < wc { pool_avg_i8(s, ks * h, ks * w, ks) } else { old[w] })
}

pub open spec fn pool_plane_avg_i8(old: Seq<Seq<i8>>, s: Seq<Seq<i8>>, hc: int, wc: int, ks: int) -> Seq<Seq<i8>> {
    Seq::new(old.len(), |h: int| if h < hc { pool_row_avg_i8(old[h], s, h, wc, ks) } else { old[h] })
}

pub open spec fn pool_image_avg_i8(old: Seq<Seq<Seq<i8>>>, x: Seq<Seq<Seq<i8>>>, nc: int, hc: int, wc: int, ks: int) -> Seq<Seq<Seq<i8>>> {
    Seq::new(old.len(), |c: int| if c < nc { pool_plane_avg_i8(old[c], x[c], hc, wc, ks) } else { old[c] })
}

/// `old` with `[n][c][h][w]` set, for each image `n`, channel `c < nc` and output
/// position `h < hc`, `w < wc`, to the `i8` average of the window at `(ks * h, ks * w)`.
pub open spec fn pool_batch_avg_i8(old: Seq<Seq<Seq<Seq<i8>>>>, v: Seq<Seq<Seq<Seq<i8>>>>, nc: int, hc: int, wc: int, ks: int) -> Seq<Seq<Seq<Seq<i8>>>> {
    Seq::new(old.len(), |n: int| if n < v.len() { pool_image_avg_i8(old[n], v[n], nc, hc, wc, ks) } else { old[n] })
}

pub open spec fn pool_row_i8_ok(out: Seq<i8>, s: Seq<Seq<i8>>, h: int, wc: int, ks: int) -> bool {
    wc <= out.len() && forall|w: int| 0 <= w < wc ==> #[trigger] pool_i8_ok(s, ks * h, ks * w, ks)
}

pub open spec fn pool_plane_i8_ok(out: Seq<Seq<i8>>, s: Seq<Seq<i8>>, hc: int, wc: int, ks: int) -> bool {
    hc <= out.len() && forall|h: int| 0 <= h < hc ==> pool_row_i8_ok(#[trigger] out[h], s, h, wc, ks)
}

pub open spec fn pool_image_i8_ok(out: Seq<Seq<Seq<i8>>>, x: Seq<Seq<Seq<i8>>>, nc: int, hc: int, wc: int, ks: int) -> bool {
    nc <= out.len() && nc <= x.len() && forall|c: int| 0 <= c < nc ==> pool_plane_i8_ok(#[trigger] out[c], x[c], hc, wc, ks)
}

pub open spec fn pool_batch_i8_ok(out: Seq<Seq<Seq<Seq<i8>>>>, v: Seq<Seq<Seq<Seq<i8>>>>, nc: int, hc: int, wc: int, ks: int) -> bool {
    v.len() <= out.len() && forall|n: int| 0 <= n < v.len() ==> pool_image_i8_ok(#[trigger] out[n], v[n], nc, hc, wc, ks)
}

fn pool_row_i8(input: &Vec<Vec<i8>>, h: usize, wc: usize, ks: usize, out: &mut Vec<i8>)
    requires
        pool_row_i8_ok(old(out)@, t2(input@), h as int, wc as int, ks as int),
    ensures
        final(out)@ == pool_row_avg_i8(old(out)@, t2(input@), h as int, wc as int, ks as int),
{
    for w in 0..wc
        invariant
            pool_row_i8_ok(old(out)@, t2(input@), h as int, wc as int, ks as int),
            out@.len() == old(out)@.len(),
            forall|j: int| 0 <= j < w ==> out@[j] == pool_avg_i8(t2(input@), ks * h, ks * j, ks as int),
            forall|j: int| w <= j < out@.len() ==> out@[j] == old(out)@[j],
    {
        assert(pool_i8_ok(t2(input@), ks * h, ks * w, ks as int));
        assert(ks * h <= usize::MAX && ks * w <= usize::MAX);
        out[w] = avg_pool_helper(input, ks * h, ks * w, ks);
    }
    assert(out@ =~= pool_row_avg_i8(old(out)@, t2(input@), h as int, wc as int, ks as int));
}

fn pool_plane_i8(input: &Vec<Vec<i8>>, hc: usize, wc: usize, ks: usize, out: &mut Vec<Vec<i8>>)
    requires
        pool_plane_i8_ok(t2(old(out)@), t2(input@), hc as int, wc as int, ks as int),
    ensures
        t2(final(out)@) == pool_plane_avg_i8(t2(old(out)@), t2(input@), hc as int, wc as int, ks as int),
{
    let ghost o = t2(old(out)@);
    for h in 0..hc
        invariant
            o == t2(old(out)@),
            pool_plane_i8_ok(o, t2(input@), hc as int, wc as int, ks as int),
            out@.len() == old(out)@.len(),
            forall|j: int| 0 <= j < h ==> (#[trigger] out@[j])@ == pool_row_avg_i8(o[j], t2(input@), j, wc as int, ks as int),
            forall|j: int| h <= j < out@.len() ==> #[trigger] out@[j] == old(out)@[j],
    {
        assert(pool_row_i8_ok(o[h as int], t2(input@), h as int, wc as int, ks as int));
        pool_row_i8(input, h, wc, ks, &mut out[h]);
    }
    assert(t2(out@) =~= pool_plane_avg_i8(o, t2(input@), hc as int, wc as int, ks as int));
}

fn pool_image_i8(input: &Vec<Vec<Vec<i8>>>, nc: usize, hc: usize, wc: usize, ks: usize, out: &mut Vec<Vec<Vec<i8>>>)
    requires
        pool_image_i8_ok(t3(old(out)@), t3(input@), nc as int, hc as int, wc as int, ks as int),
    ensures
        t3(final(out)@) == pool_image_avg_i8(t3(old(out)@), t3(input@), nc as int, hc as int, wc as int, ks as int),
{
    let ghost o = t3(old(out)@);
    let ghost x = t3(input@);
    for c in 0..nc
        invariant
            o == t3(old(out)@),
            x == t3(input@),
            pool_image_i8_ok(o, x, nc as int, hc as int, wc as int, ks as int),
            out@.len() == old(out)@.len(),
            forall|j: int| 0 <= j < c ==> t2((#[trigger] out@[j])@) == pool_plane_avg_i8(o[j], x[j], hc as int, wc as int, ks as int),
            forall|j: int| c <= j < out@.len() ==> #[trigger] out@[j] == old(out)@[j],
    {
        assert(pool_plane_i8_ok(o[c as int], x[c as int], hc as int, wc as int, ks as int));
        pool_plane_i8(&input[c], hc, wc, ks, &mut out[c]);
    }
    assert(t3(out@) =~= pool_image_avg_i8(o, x, nc as int, hc as int, wc as int, ks as int));
}

/// The output extents of `avg_pool_scala`: images, the first image's channels,
/// and its height and width divided by the window size.
pub open spec fn pool_out_shape_i8(v: Seq<Seq<Seq<Seq<i8>>>>, ks: int) -> Seq<Seq<Seq<Seq<i8>>>> {
    filled4(0i8, v.len(), v[0].len(), (v[0][0].len() as int / ks) as nat, (v[0][0][0].len() as int / ks) as nat)
}

/// Plain average pooling with `kernel_size` x `kernel_size` windows and stride
/// `kernel_size`: an output shaped (images, channels, height / size, width / size)
/// after the first image, each entry the `i8` average of its window.
pub fn avg_pool_scala(vec: &Vec<Vec<Vec<Vec<i8>>>>, kernel_size: usize) -> (output: Vec<Vec<Vec<Vec<i8>>>>)
    requires
        pool_shape_ok(t4(vec@), kernel_size as int),
        pool_batch_i8_ok(
            pool_out_shape_i8(t4(vec@), kernel_size as int),
            t4(vec@),
            t4(vec@)[0].len() as int,
            t4(vec@)[0][0].len() as int / kernel_size as int,
            t4(vec@)[0][0][0].len() as int / kernel_size as int,
            kernel_size as int,
        ),
    ensures
        t4(output@) == pool_batch_avg_i8(
            pool_out_shape_i8(t4(vec@), kernel_size as int),
            t4(vec@),
            t4(vec@)[0].len() as int,
            t4(vec@)[0][0].len() as int / kernel_size as int,
            t4(vec@)[0][0][0].len() as int / kernel_size as int,
            kernel_size as int,
        ),
{
    let ghost v = t4(vec@);
    let batch_size = vec.len();
    let num_channels = vec[0].len();
    let input_height = vec[0][0].len();
    let input_width = vec[0][0][0].len();
    let mut output = fill4(0i8, batch_size, num_channels, input_height / kernel_size, input_width / kernel_size);
    let ghost o = t4(output@);
    let hc = input_height / kernel_size;
    let wc = input_width / kernel_size;
    assert(o == pool_out_shape_i8(v, kernel_size as int));
    for n in 0..batch_size
        invariant
            v == t4(vec@),
            o == pool_out_shape_i8(v, kernel_size as int),
            batch_size == v.len(),
            num_channels == v[0].len(),
            hc == v[0][0].len() as int / kernel_size as int,
            wc == v[0][0][0].len() as int / kernel_size as int,
            pool_batch_i8_ok(o, v, num_channels as int, hc as int, wc as int, kernel_size as int),
            output@.len() == o.len(),
            forall|j: int| 0 <= j < n ==> t3((#[trigger] output@[j])@) == pool_image_avg_i8(o[j], v[j], num_channels as int, hc as int, wc as int, kernel_size as int),
            forall|j: int| n <= j < output@.len() ==> t3((#[trigger] output@[j])@) == o[j],
    {
        assert(pool_image_i8_ok(o[n as int], v[n as int], num_channels as int, hc as int, wc as int, kernel_size as int));
        pool_image_i8(&vec[n], num_channels, hc, wc, kernel_size, &mut output[n]);
    }
    assert(t4(output@) =~= pool_batch_avg_i8(o, v, num_channels as int, hc as int, wc as int, kernel_size as int));
    output
}

/// Average pooling loses nothing that its remainder records: where the divisor is at
/// most 256 and the average fits in a `u8`, the window's sum is the average times the
/// divisor plus the remainder.
pub proof fn lemma_pool_u8_recover(s: Seq<Seq<u8>>, h: int, w: int, ks: int)
    requires
        pool_u8_ok(s, h, w, ks),
        pool_div_u8(ks) <= 256,
        pool_sum_u8(s, h, w, ks) / pool_div_u8(ks) < 256,
    ensures
        pool_avg_u8(s, h, w, ks) * pool_div_u8(ks) + pool_rem_u8(s, h, w, ks) == pool_sum_u8(s, h, w, ks),
{
    let f = pool_term_u8(s, h, w);
    let d = pool_div_u8(ks);
    let x = pool_sum_u8(s, h, w, ks);
    assert forall|a: int, b: int, c: int| #[trigger] f(a, b, c) >= 0 by {}
    lemma_sum_jk_mono(f, 0, 0, ks, ks);
    lemma_fundamental_div_mod(x, d);
    assert(d > 0) by (nonlinear_arith)
        requires
            d == (ks as u32) as int * (ks as u32) as int,
            d != 0,
    ;
    assert(0 <= x % d < d);
    assert(0 <= x / d);
    assert(pool_avg_u8(s, h, w, ks) == x / d);
    assert(pool_rem_u8(s, h, w, ks) == x % d);
    assert((x / d) * d == d * (x / d)) by (nonlinear_arith);
}

/// Pooling keeps the shape of the tensor it writes into.
pub proof fn lemma_pool_batch_avg_shaped(
    old: Seq<Seq<Seq<Seq<u8>>>>,
    v: Seq<Seq<Seq<Seq<u8>>>>,
    nc: int,
    hc: int,
    wc: int,
    ks: int,
    a: nat,
    b: nat,
    c: nat,
    d: nat,
)
    requires
        shaped4(old, a, b, c, d),
    ensures
        shaped4(pool_batch_avg(old, v, nc, hc, wc, ks), a, b, c, d),
{
    let r = pool_batch_avg(old, v, nc, hc, wc, ks);
    assert forall|i: int, j: int| 0 <= i < a && 0 <= j < b implies (#[trigger] r[i][j]).len() == c by {
        assert(old[i][j].len() == c);
    }
    assert forall|i: int, j: int, k: int| 0 <= i < a && 0 <= j < b && 0 <= k < c implies (#[trigger] r[i][j][k]).len() == d by {
        assert(old[i][j][k].len() == d);
    }
}

/// Plain pooling keeps the shape of the tensor it writes into.
pub proof fn lemma_pool_batch_avg_i8_shaped(
    old: Seq<Seq<Seq<Seq<i8>>>>,
    v: Seq<Seq<Seq<Seq<i8>>>>,
    nc: int,
    hc: int,
    wc: int,
    ks: int,
    a: nat,
    b: nat,
    c: nat,
    d: nat,
)
    requires
        shaped4(old, a, b, c, d),
    ensures
        shaped4(pool_batch_avg_i8(old, v, nc, hc, wc, ks), a, b, c, d),
{
    let r = pool_batch_avg_i8(old, v, nc, hc, wc, ks);
    assert forall|i: int, j: int| 0 <= i < a && 0 <= j < b implies (#[trigger] r[i][j]).len() == c by {
        assert(old[i][j].len() == c);
    }
    assert forall|i: int, j: int, k: int| 0 <= i < a && 0 <= j < b && 0 <= k < c implies (#[trigger] r[i][j][k]).len() == d by {
        assert(old[i][j][k].len() == d);
    }
}

/// A 2 x 2 average reads only its window: two planes that agree there give the same average.
pub proof fn lemma_pool_avg_u8_window(s: Seq<Seq<u8>>, t: Seq<Seq<u8>>, h: int, w: int)
    requires
        forall|j: int, k: int| 0 <= j < 2 && 0 <= k < 2 ==> #[trigger] s[h + j][w + k] == t[h + j][w + k],
    ensures
        pool_avg_u8(s, h, w, 2) == pool_avg_u8(t, h, w, 2),
{
    reveal_with_fuel(sum_jk, 3);
    reveal_with_fuel(sum_k, 3);
    assert(s[h + 0][w + 0] == t[h + 0][w + 0]);
    assert(s[h + 0][w + 1] == t[h + 0][w + 1]);
    assert(s[h + 1][w + 0] == t[h + 1][w + 0]);
    assert(s[h + 1][w + 1] == t[h + 1][w + 1]);
    assert(pool_sum_u8(s, h, w, 2) == pool_sum_u8(t, h, w, 2));
}

/// A plain 2 x 2 average reads only its window: two planes that agree there give the same average.
pub proof fn lemma_pool_avg_i8_window(s: Seq<Seq<i8>>, t: Seq<Seq<i8>>, h: int, w: int)
    requires
        forall|j: int, k: int| 0 <= j < 2 && 0 <= k < 2 ==> #[trigger] s[h + j][w + k] == t[h + j][w + k],
    ensures
        pool_avg_i8(s, h, w, 2) == pool_avg_i8(t, h, w, 2),
{
    reveal_with_fuel(sum_jk, 3);
    reveal_with_fuel(sum_k, 3);
    assert(s[h + 0][w + 0] == t[h + 0][w + 0]);
    assert(s[h + 0][w + 1] == t[h + 0][w + 1]);
    assert(s[h + 1][w + 0] == t[h + 1][w + 0]);
    assert(s[h + 1][w + 1] == t[h + 1][w + 1]);
    assert(pool_sum_i8(s, h, w, 2) == pool_sum_i8(t, h, w, 2));
}

} // verus!
