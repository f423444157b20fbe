//! Dot products and fully connected layers: plain `i8` ones that truncate the
//! `i32` accumulator to `i8`, and zero-point quantized `u8` ones that requantize
//! with a fixed-point multiplier and record what the requantization drops.
use vstd::prelude::*;
use crate::sums::{sum, lemma_sum_mono, lemma_sum_combine};

verus! {

/// The zero point that quantized values use unless a layer says otherwise.
pub const DEFAULT_ZERO_POINT: u8 = 10;

/// 2^22: the fixed-point one of the requantization multipliers.
pub const FIXED_ONE: u64 = 4194304;

/// 2^30: what a requantized accumulator is divided by for the part above the `u8` result.
pub const FIXED_ONE_TIMES_256: u64 = 1073741824;

/// The products `a[t] * b[t]`.
pub open spec fn mul_i8(a: Seq<i8>, b: Seq<i8>) -> spec_fn(int) -> int {
    |t: int| a[t] * b[t]
}

/// The first `n` terms of the dot product of `a` and `b`.
pub open spec fn dot_i8(a: Seq<i8>, b: Seq<i8>, n: int) -> int {
    sum(n, mul_i8(a, b))
}

/// Every running total of the dot product fits in an `i32` accumulator.
pub open spec fn dot_fits_i32(a: Seq<i8>, b: Seq<i8>) -> bool {
    forall|k: int| 0 <= k <= a.len() ==> i32::MIN <= #[trigger] dot_i8(a, b, k) <= i32::MAX
}

/// `scalar(a, b)` is defined: equal lengths and no overflow of the accumulator.
pub open spec fn scalar_ok(a: Seq<i8>, b: Seq<i8>) -> bool {
    a.len() == b.len() && dot_fits_i32(a, b)
}

/// The `i8` dot product, truncated to `i8` as the accumulator's cast does.
pub open spec fn scalar_spec(a: Seq<i8>, b: Seq<i8>) -> i8 {
    dot_i8(a, b, a.len() as int) as i8
}

/// The rows that a slice of row slices holds.
pub open spec fn rows_of<T>(mat: Seq<&[T]>) -> Seq<Seq<T>> {
    Seq::new(mat.len(), |i: int| mat[i]@)
}

/// Borrows each row of a matrix as a slice.
pub fn row_slices<'a, T>(m: &'a Vec<Vec<T>>) -> (r: Vec<&'a [T]>)
    ensures
        rows_of(r@) == crate::tensor::t2(m@),
{
    let mut r: Vec<&'a [T]> = Vec::new();
    for i in 0..m.len()
        invariant
            r@.len() == i,
            forall|j: int| 0 <= j < i ==> (#[trigger] r@[j])@ == m@[j]@,
    {
        r.push(m[i].as_slice());
    }
    assert(rows_of(r@) =~= crate::tensor::t2(m@));
    r
}

/// `res` with its first `rows.len()` entries replaced by the dot products of `x` with the rows.
pub open spec fn mat_vec_i8(x: Seq<i8>, rows: Seq<Seq<i8>>, res: Seq<i8>) -> Seq<i8> {
    Seq::new(res.len(), |i: int| if i < rows.len() { scalar_spec(x, rows[i]) } else { res[i] })
}

/// `vec_mat_mul(x, rows, res)` is defined.
pub open spec fn mat_vec_i8_ok(x: Seq<i8>, rows: Seq<Seq<i8>>, res_len: int) -> bool {
    &&& rows.len() <= res_len
    &&& forall|i: int| 0 <= i < rows.len() ==> scalar_ok(x, #[trigger] rows[i])
}

/// Dot product of two `i8` vectors of equal length, accumulated in `i32`
/// and truncated to `i8`.
pub fn scalar(a: &[i8], b: &[i8]) -> (r: i8)
    requires
        scalar_ok(a@, b@),
    ensures
        r == scalar_spec(a@, b@),
{
    let mut res: i32 = 0;
    let n = a.len();
    for i in 0..n
        invariant
            n == a@.len(),
            scalar_ok(a@, b@),
            res == dot_i8(a@, b@, i as int),
    {
        assert(dot_i8(a@, b@, i + 1) == dot_i8(a@, b@, i as int) + a@[i as int] * b@[i as int]);
        assert(i32::MIN <= dot_i8(a@, b@, i + 1) <= i32::MAX);
        let x = a[i];
        let y = b[i];
        assert(-16384 <= x as int * y as int <= 16384) by (nonlinear_arith)
            requires -128 <= x <= 127, -128 <= y <= 127;
        res += x as i32 * y as i32;
    }
    #[verifier::truncate]
    (res as i8)
}

/// Multiplies the vector with each row of `mat`, writing the `i8` results to the
/// first `mat.len()` entries of `res`.
pub fn vec_mat_mul(vec: &[i8], mat: &[&[i8]], res: &mut [i8])
    requires
        mat_vec_i8_ok(vec@, rows_of(mat@), old(res)@.len() as int),
    ensures
        final(res)@ == mat_vec_i8(vec@, rows_of(mat@), old(res)@),
{
    let n = mat.len();
    for i in 0..n
        invariant
            n == mat@.len(),
            mat_vec_i8_ok(vec@, rows_of(mat@), old(res)@.len() as int),
            res@.len() == old(res)@.len(),
            forall|j: int| 0 <= j < i ==> res@[j] == scalar_spec(vec@, mat@[j]@),
            forall|j: int| i <= j < res@.len() ==> res@[j] == old(res)@[j],
    {
        assert(scalar_ok(vec@, rows_of(mat@)[i as int]));
        res[i] = scalar(vec, mat[i]);
    }
    assert(res@ =~= mat_vec_i8(vec@, rows_of(mat@), old(res)@));
}

/// The products `a[t] * b[t]` of two `u8` vectors.
pub open spec fn mul_u8(a: Seq<u8>, b: Seq<u8>) -> spec_fn(int) -> int {
    |t: int| a[t] * b[t]
}

/// The products `a[t] * c`.
pub open spec fn mul_u8_by(a: Seq<u8>, c: u8) -> spec_fn(int) -> int {
    |t: int| a[t] * c
}

/// The products `c * b[t]`.
pub open spec fn mul_by_u8(c: u8, b: Seq<u8>) -> spec_fn(int) -> int {
    |t: int| c * b[t]
}

/// The constant terms `c * d`.
pub open spec fn mul_const(c: u8, d: u8) -> spec_fn(int) -> int {
    |t: int| c * d
}

/// The products of the values relative to their zero points, `(a[t] - a0) * (b[t] - b0)`.
pub open spec fn mul_centered(a: Seq<u8>, b: Seq<u8>, a0: u8, b0: u8) -> spec_fn(int) -> int {
    |t: int| (a[t] - a0) * (b[t] - b0)
}

/// The four sums that a zero-point dot product accumulates separately:
/// `sum a*b`, `sum a*b0`, `sum a0*b`, `sum a0*b0` over the first `n` positions.
pub open spec fn zp_sum_ab(a: Seq<u8>, b: Seq<u8>, n: int) -> int {
    sum(n, mul_u8(a, b))
}

pub open spec fn zp_sum_ab0(a: Seq<u8>, b0: u8, n: int) -> int {
    sum(n, mul_u8_by(a, b0))
}

pub open spec fn zp_sum_a0b(a0: u8, b: Seq<u8>, n: int) -> int {
    sum(n, mul_by_u8(a0, b))
}

pub open spec fn zp_sum_a0b0(a0: u8, b0: u8, n: int) -> int {
    sum(n, mul_const(a0, b0))
}

/// The dot product of the real values that `a` and `b` encode with zero points `a0` and `b0`.
pub open spec fn zp_dot(a: Seq<u8>, b: Seq<u8>, a0: u8, b0: u8) -> int {
    sum(a.len() as int, mul_centered(a, b, a0, b0))
}

/// `scalar_u8(a, b, a0, b0)` is defined: equal lengths, no `u32` overflow in any
/// accumulator or in `s_ab + s_a0b0`, and no underflow in subtracting the cross terms.
pub open spec fn scalar_u8_ok(a: Seq<u8>, b: Seq<u8>, a0: u8, b0: u8) -> bool {
    let n = a.len() as int;
    &&& a.len() == b.len()
    &&& zp_sum_ab(a, b, n) <= u32::MAX
    &&& zp_sum_ab0(a, b0, n) <= u32::MAX
    &&& zp_sum_a0b(a0, b, n) <= u32::MAX
    &&& zp_sum_a0b0(a0, b0, n) <= u32::MAX
    &&& zp_sum_ab(a, b, n) + zp_sum_a0b0(a0, b0, n) <= u32::MAX
    &&& zp_sum_ab(a, b, n) + zp_sum_a0b0(a0, b0, n) >= zp_sum_ab0(a, b0, n) + zp_sum_a0b(a0, b, n)
}

/// `scalar_with_remainder_u8(a, b, a0, b0, y0)` is defined: the same in `u64`, with
/// `y0` added before the cross terms are subtracted.
pub open spec fn scalar_wr_ok(a: Seq<u8>, b: Seq<u8>, a0: u8, b0: u8, y0: int) -> bool {
    let n = a.len() as int;
    &&& a.len() == b.len()
    &&& zp_sum_ab(a, b, n) <= u64::MAX
    &&& zp_sum_ab0(a, b0, n) <= u64::MAX
    &&& zp_sum_a0b(a0, b, n) <= u64::MAX
    &&& zp_sum_a0b0(a0, b0, n) <= u64::MAX
    &&& zp_sum_ab(a, b, n) + zp_sum_a0b0(a0, b0, n) + y0 <= u64::MAX
    &&& zp_sum_ab0(a, b0, n) + zp_sum_a0b(a0, b, n) <= u64::MAX
    &&& zp_sum_ab(a, b, n) + zp_sum_a0b0(a0, b0, n) + y0 >= zp_sum_ab0(a, b0, n) + zp_sum_a0b(a0, b, n)
}

/// The zero-point dot product as the four accumulators combine it.
pub open spec fn zp_combined(a: Seq<u8>, b: Seq<u8>, a0: u8, b0: u8) -> int {
    let n = a.len() as int;
    zp_sum_ab(a, b, n) + zp_sum_a0b0(a0, b0, n) - zp_sum_ab0(a, b0, n) - zp_sum_a0b(a0, b, n)
}

/// Combining the four separately accumulated sums gives the dot product of the
/// values relative to their zero points.
pub proof fn lemma_zero_point_dot(a: Seq<u8>, b: Seq<u8>, a0: u8, b0: u8)
    ensures
        zp_combined(a, b, a0, b0) == zp_dot(a, b, a0, b0),
{
    let n = a.len() as int;
    assert forall|t: int| 0 <= t < n implies #[trigger] mul_centered(a, b, a0, b0)(t)
        == mul_u8(a, b)(t) + mul_const(a0, b0)(t) - mul_u8_by(a, b0)(t) - mul_by_u8(a0, b)(t) by {
        let x = a[t] as int;
        let y = b[t] as int;
        let p = a0 as int;
        let q = b0 as int;
        assert((x - p) * (y - q) == x * y + p * q - x * q - p * y) by (nonlinear_arith);
    }
    lemma_sum_combine(mul_u8(a, b), mul_u8_by(a, b0), mul_by_u8(a0, b), mul_const(a0, b0), mul_centered(a, b, a0, b0), n);
}

proof fn lemma_u8_products_nonneg(a: Seq<u8>, b: Seq<u8>, a0: u8, b0: u8, n: int)
    ensures
        forall|t: int| 0 <= t < n ==> #[trigger] mul_u8(a, b)(t) >= 0,
        forall|t: int| 0 <= t < n ==> #[trigger] mul_u8_by(a, b0)(t) >= 0,
        forall|t: int| 0 <= t < n ==> #[trigger] mul_by_u8(a0, b)(t) >= 0,
        forall|t: int| 0 <= t < n ==> #[trigger] mul_const(a0, b0)(t) >= 0,
{
    assert forall|t: int| 0 <= t < n implies #[trigger] mul_u8(a, b)(t) >= 0 by {
        assert(a[t] as int * b[t] as int >= 0) by (nonlinear_arith);
    }
    assert forall|t: int| 0 <= t < n implies #[trigger] mul_u8_by(a, b0)(t) >= 0 by {
        assert(a[t] as int * b0 as int >= 0) by (nonlinear_arith);
    }
    assert forall|t: int| 0 <= t < n implies #[trigger] mul_by_u8(a0, b)(t) >= 0 by {
        assert(a0 as int * b[t] as int >= 0) by (nonlinear_arith);
    }
    assert forall|t: int| 0 <= t < n implies #[trigger] mul_const(a0, b0)(t) >= 0 by {
        assert(a0 as int * b0 as int >= 0) by (nonlinear_arith);
    }
}

/// Every running total of the four accumulators is bounded by its final value.
proof fn lemma_zp_partial(a: Seq<u8>, b: Seq<u8>, a0: u8, b0: u8, i: int, n: int)
    requires
        0 <= i < n,
    ensures
        0 <= zp_sum_ab(a, b, i + 1) <= zp_sum_ab(a, b, n),
        0 <= zp_sum_ab0(a, b0, i + 1) <= zp_sum_ab0(a, b0, n),
        0 <= zp_sum_a0b(a0, b, i + 1) <= zp_sum_a0b(a0, b, n),
        0 <= zp_sum_a0b0(a0, b0, i + 1) <= zp_sum_a0b0(a0, b0, n),
        zp_sum_ab(a, b, i + 1) == zp_sum_ab(a, b, i) + a[i] * b[i],
        zp_sum_ab0(a, b0, i + 1) == zp_sum_ab0(a, b0, i) + a[i] * b0,
        zp_sum_a0b(a0, b, i + 1) == zp_sum_a0b(a0, b, i) + a0 * b[i],
        zp_sum_a0b0(a0, b0, i + 1) == zp_sum_a0b0(a0, b0, i) + a0 * b0,
{
    lemma_u8_products_nonneg(a, b, a0, b0, n);
    lemma_sum_mono(mul_u8(a, b), i + 1, n);
    lemma_sum_mono(mul_u8_by(a, b0), i + 1, n);
    lemma_sum_mono(mul_by_u8(a0, b), i + 1, n);
    lemma_sum_mono(mul_const(a0, b0), i + 1, n);
}

/// Zero-point quantized dot product in `u32`:
/// `sum a*b + sum a0*b0 - sum a*b0 - sum a0*b`, which is the dot product of the
/// values relative to their zero points.
pub fn scalar_u8(a: &[u8], b: &[u8], a_0: u8, b_0: u8) -> (r: u32)
    requires
        scalar_u8_ok(a@, b@, a_0, b_0),
    ensures
        r == zp_combined(a@, b@, a_0, b_0),
        r == zp_dot(a@, b@, a_0, b_0),
{
    let mut tmp1: u32 = 0;
    let mut tmp2: u32 = 0;
    let mut tmp3: u32 = 0;
    let mut tmp4: u32 = 0;
    let n = a.len();
    for i in 0..n
        invariant
            n == a@.len(),
            scalar_u8_ok(a@, b@, a_0, b_0),
            tmp1 == zp_sum_ab(a@, b@, i as int),
            tmp2 == zp_sum_ab0(a@, b_0, i as int),
            tmp3 == zp_sum_a0b(a_0, b@, i as int),
            tmp4 == zp_sum_a0b0(a_0, b_0, i as int),
    {
        proof {
            lemma_zp_partial(a@, b@, a_0, b_0, i as int, n as int);
        }
        tmp1 += a[i] as u32 * b[i] as u32;
        tmp2 += a[i] as u32 * b_0 as u32;
        tmp3 += a_0 as u32 * b[i] as u32;
        tmp4 += a_0 as u32 * b_0 as u32;
    }
    proof {
        lemma_zero_point_dot(a@, b@, a_0, b_0);
    }
    tmp1 + tmp4 - tmp2 - tmp3
}

/// Zero-point quantized dot product in `u64` with an offset `y_0` added:
/// `(sum a*b + sum a0*b0 + y_0) - (sum a*b0 + sum a0*b)`.
pub fn scalar_with_remainder_u8(a: &[u8], b: &[u8], a_0: u8, b_0: u8, y_0: u64) -> (r: u64)
    requires
        scalar_wr_ok(a@, b@, a_0, b_0, y_0 as int),
    ensures
        r == zp_combined(a@, b@, a_0, b_0) + y_0,
        r == zp_dot(a@, b@, a_0, b_0) + y_0,
{
    let mut tmp1: u64 = 0;
    let mut tmp2: u64 = 0;
    let mut tmp3: u64 = 0;
    let mut tmp4: u64 = 0;
    let n = a.len();
    for i in 0..n
        invariant
            n == a@.len(),
            scalar_wr_ok(a@, b@, a_0, b_0, y_0 as int),
            tmp1 == zp_sum_ab(a@, b@, i as int),
            tmp2 == zp_sum_ab0(a@, b_0, i as int),
            tmp3 == zp_sum_a0b(a_0, b@, i as int),
            tmp4 == zp_sum_a0b0(a_0, b_0, i as int),
    {
        proof {
            lemma_zp_partial(a@, b@, a_0, b_0, i as int, n as int);
        }
        tmp1 += a[i] as u64 * b[i] as u64;
        tmp2 += a[i] as u64 * b_0 as u64;
        tmp3 += a_0 as u64 * b[i] as u64;
        tmp4 += a_0 as u64 * b_0 as u64;
    }
    proof {
        lemma_zero_point_dot(a@, b@, a_0, b_0);
    }
    let res = (tmp1 + tmp4 + y_0) - (tmp2 + tmp3);
    res
}

/// The output zero point in the accumulator's fixed-point scale, divided by the
/// multiplier: what is added to the dot product before it is multiplied.
pub open spec fn zero_point_offset(res_0: u8, m: u64) -> int {
    (res_0 * FIXED_ONE) / (m as int)
}

/// The requantized accumulator of one output: the multiplier times the offset dot product.
pub open spec fn requant_acc(x: Seq<u8>, row: Seq<u8>, x_0: u8, w_0: u8, res_0: u8, m: u64) -> int {
    m * (zp_combined(x, row, x_0, w_0) + zero_point_offset(res_0, m))
}

/// Requantizing one output is defined: nonzero multiplier, a defined dot product,
/// and no overflow of the product.
pub open spec fn requant_ok(x: Seq<u8>, row: Seq<u8>, x_0: u8, w_0: u8, res_0: u8, m: u64) -> bool {
    &&& m != 0
    &&& scalar_wr_ok(x, row, x_0, w_0, zero_point_offset(res_0, m))
    &&& requant_acc(x, row, x_0, w_0, res_0, m) <= u64::MAX
}

/// `vec_mat_mul_with_remainder_u8(x, rows, res, x_0, w_0, res_0, m)` is defined.
pub open spec fn fc_u8_ok(x: Seq<u8>, rows: Seq<Seq<u8>>, res_len: int, x_0: u8, w_0: u8, res_0: u8, m: Seq<u64>) -> bool {
    &&& rows.len() <= res_len
    &&& rows.len() <= m.len()
    &&& forall|i: int| 0 <= i < rows.len() ==> requant_ok(x, #[trigger] rows[i], x_0, w_0, res_0, m[i])
}

/// The `u8` outputs: the requantized accumulator shifted down by 22 bits and
/// truncated to `u8`, for the first `rows.len()` entries.
pub open spec fn fc_u8_out(x: Seq<u8>, rows: Seq<Seq<u8>>, res: Seq<u8>, x_0: u8, w_0: u8, res_0: u8, m: Seq<u64>) -> Seq<u8> {
    Seq::new(res.len(), |i: int| if i < rows.len() {
        (requant_acc(x, rows[i], x_0, w_0, res_0, m[i]) / FIXED_ONE as int) as u8
    } else {
        res[i]
    })
}

/// The low 22 bits of each requantized accumulator: what the shift drops.
pub open spec fn fc_u8_remainder(x: Seq<u8>, rows: Seq<Seq<u8>>, len: int, x_0: u8, w_0: u8, res_0: u8, m: Seq<u64>) -> Seq<u32> {
    Seq::new(len as nat, |i: int| if i < rows.len() {
        (requant_acc(x, rows[i], x_0, w_0, res_0, m[i]) % FIXED_ONE as int) as u32
    } else {
        0u32
    })
}

/// The part of each requantized accumulator above the `u8` result (bits 30 and up),
/// truncated to `u32`.
pub open spec fn fc_u8_high(x: Seq<u8>, rows: Seq<Seq<u8>>, len: int, x_0: u8, w_0: u8, res_0: u8, m: Seq<u64>) -> Seq<u32> {
    Seq::new(len as nat, |i: int| if i < rows.len() {
        (requant_acc(x, rows[i], x_0, w_0, res_0, m[i]) / FIXED_ONE_TIMES_256 as int) as u32
    } else {
        0u32
    })
}

/// Quantized fully connected layer without the requantization by a multiplier:
/// each output is `(m * scalar_u8(x, row)) >> 22`, truncated to `u8`, plus `res_0`.
pub open spec fn fc_u8_plain_ok(x: Seq<u8>, rows: Seq<Seq<u8>>, res_len: int, x_0: u8, w_0: u8, res_0: u8, m: Seq<u64>) -> bool {
    &&& rows.len() <= res_len
    &&& rows.len() <= m.len()
    &&& forall|i: int| 0 <= i < rows.len() ==> {
        &&& scalar_u8_ok(x, #[trigger] rows[i], x_0, w_0)
        &&& m[i] * zp_combined(x, rows[i], x_0, w_0) <= u64::MAX
        &&& ((m[i] * zp_combined(x, rows[i], x_0, w_0)) / FIXED_ONE as int) as u8 + res_0 <= u8::MAX
    }
}

pub open spec fn fc_u8_plain_out(x: Seq<u8>, rows: Seq<Seq<u8>>, res: Seq<u8>, x_0: u8, w_0: u8, res_0: u8, m: Seq<u64>) -> Seq<u8> {
    Seq::new(res.len(), |i: int| if i < rows.len() {
        (((m[i] * zp_combined(x, rows[i], x_0, w_0)) / FIXED_ONE as int) as u8 + res_0) as u8
    } else {
        res[i]
    })
}

/// Quantized fully connected layer with fixed-point multipliers `multiplier`
/// (the real multipliers times 2^22): each output is
/// `((multiplier[i] * scalar_u8(vec, mat[i])) >> 22) as u8 + res_0`.
pub fn vec_mat_mul_u8(
    vec: &[u8],
    mat: &[&[u8]],
    res: &mut [u8],
    vec_0: u8,
    mat_0: u8,
    res_0: u8,
    multiplier: &[u64],
)
    requires
        fc_u8_plain_ok(vec@, rows_of(mat@), old(res)@.len() as int, vec_0, mat_0, res_0, multiplier@),
    ensures
        final(res)@ == fc_u8_plain_out(vec@, rows_of(mat@), old(res)@, vec_0, mat_0, res_0, multiplier@),
{
    let n = mat.len();
    for i in 0..n
        invariant
            n == mat@.len(),
            fc_u8_plain_ok(vec@, rows_of(mat@), old(res)@.len() as int, vec_0, mat_0, res_0, multiplier@),
            res@.len() == old(res)@.len(),
            forall|j: int| 0 <= j < i ==> res@[j] == fc_u8_plain_out(vec@, rows_of(mat@), old(res)@, vec_0, mat_0, res_0, multiplier@)[j],
            forall|j: int| i <= j < res@.len() ==> res@[j] == old(res)@[j],
    {
        assert(scalar_u8_ok(vec@, rows_of(mat@)[i as int], vec_0, mat_0));
        let s = scalar_u8(vec, mat[i], vec_0, mat_0);
        res[i] = ((multiplier[i] * s as u64) / FIXED_ONE) as u8 + res_0;
    }
    assert(res@ =~= fc_u8_plain_out(vec@, rows_of(mat@), old(res)@, vec_0, mat_0, res_0, multiplier@));
}

/// Quantized fully connected layer with fixed-point multipliers `multiplier`
/// (the real multipliers times 2^22). For each row `i` of `mat` the accumulator is
/// `multiplier[i] * scalar_with_remainder_u8(vec, mat[i], vec_0, mat_0, res_0 * 2^22 / multiplier[i])`;
/// `res[i]` gets it shifted down by 22 bits as `u8`, and the returned vectors (as long as `res`)
/// record its low 22 bits and its bits from 30 up, so that the `u8` result can be checked.
pub fn vec_mat_mul_with_remainder_u8(
    vec: &[u8],
    mat: &[&[u8]],
    res: &mut [u8],
    vec_0: u8,
    mat_0: u8,
    res_0: u8,
    multiplier: &[u64],
) -> (out: (Vec<u32>, Vec<u32>))
    requires
        fc_u8_ok(vec@, rows_of(mat@), old(res)@.len() as int, vec_0, mat_0, res_0, multiplier@),
    ensures
        final(res)@ == fc_u8_out(vec@, rows_of(mat@), old(res)@, vec_0, mat_0, res_0, multiplier@),
        out.0@ == fc_u8_remainder(vec@, rows_of(mat@), old(res)@.len() as int, vec_0, mat_0, res_0, multiplier@),
        out.1@ == fc_u8_high(vec@, rows_of(mat@), old(res)@.len() as int, vec_0, mat_0, res_0, multiplier@),
{
    let mut remainder = crate::tensor::fill1(0u32, res.len());
    let mut div_res = crate::tensor::fill1(0u32, res.len());
    let ghost len = old(res)@.len() as int;
    let n = mat.len();
    for i in 0..n
        invariant
            n == mat@.len(),
            len == old(res)@.len(),
            fc_u8_ok(vec@, rows_of(mat@), len, vec_0, mat_0, res_0, multiplier@),
            res@.len() == len,
            remainder@.len() == len,
            div_res@.len() == len,
            forall|j: int| 0 <= j < i ==> res@[j] == fc_u8_out(vec@, rows_of(mat@), old(res)@, vec_0, mat_0, res_0, multiplier@)[j],
            forall|j: int| i <= j < len ==> res@[j] == old(res)@[j],
            forall|j: int| 0 <= j < i ==> remainder@[j] == fc_u8_remainder(vec@, rows_of(mat@), len, vec_0, mat_0, res_0, multiplier@)[j],
            forall|j: int| i <= j < len ==> remainder@[j] == 0,
            forall|j: int| 0 <= j < i ==> div_res@[j] == fc_u8_high(vec@, rows_of(mat@), len, vec_0, mat_0, res_0, multiplier@)[j],
            forall|j: int| i <= j < len ==> div_res@[j] == 0,
    {
        let m = multiplier[i];
        assert(requant_ok(vec@, rows_of(mat@)[i as int], vec_0, mat_0, res_0, m));
        assert(res_0 as u64 * FIXED_ONE <= 255 * 4194304);
        let res_converted = (res_0 as u64 * FIXED_ONE) / m;
        let scalar_tmp = m * scalar_with_remainder_u8(vec, mat[i], vec_0, mat_0, res_converted);
        remainder[i] = (scalar_tmp % FIXED_ONE) as u32;
        div_res[i] = (scalar_tmp / FIXED_ONE_TIMES_256) as u32;
        res[i] = (scalar_tmp / FIXED_ONE) as u8;
    }
    assert(res@ =~= fc_u8_out(vec@, rows_of(mat@), old(res)@, vec_0, mat_0, res_0, multiplier@));
    assert(remainder@ =~= fc_u8_remainder(vec@, rows_of(mat@), len, vec_0, mat_0, res_0, multiplier@));
    assert(div_res@ =~= fc_u8_high(vec@, rows_of(mat@), len, vec_0, mat_0, res_0, multiplier@));
    (remainder, div_res)
}

/// A requantization accumulator below 2^62 splits exactly into the three values that
/// requantization keeps: its bits from 30 up as `u32`, bits 22 to 29 as the `u8` result,
/// and the low 22 bits.
pub proof fn lemma_requant_split(acc: int)
    requires
        0 <= acc < 0x4000_0000_0000_0000,
    ensures
        ((acc / FIXED_ONE_TIMES_256 as int) as u32) * FIXED_ONE_TIMES_256
            + ((acc / FIXED_ONE as int) as u8) * FIXED_ONE
            + ((acc % FIXED_ONE as int) as u32) == acc,
{
    let a = acc as u64;
    assert((((a / 1073741824u64) as u32) as u64) * 1073741824u64 + (((a / 4194304u64) as u8) as u64) * 4194304u64
        + (((a % 4194304u64) as u32) as u64) == a) by (bit_vector)
        requires
            a < 0x4000_0000_0000_0000u64,
    ;
}

/// The fully connected layer's three outputs lose nothing of an accumulator below 2^62:
/// `high * 2^30 + out * 2^22 + remainder` gives it back.
pub proof fn lemma_fc_u8_recover(
    x: Seq<u8>,
    rows: Seq<Seq<u8>>,
    res: Seq<u8>,
    x_0: u8,
    w_0: u8,
    res_0: u8,
    m: Seq<u64>,
    i: int,
)
    requires
        fc_u8_ok(x, rows, res.len() as int, x_0, w_0, res_0, m),
        0 <= i < rows.len(),
        requant_acc(x, rows[i], x_0, w_0, res_0, m[i]) < 0x4000_0000_0000_0000,
    ensures
        fc_u8_high(x, rows, res.len() as int, x_0, w_0, res_0, m)[i] * FIXED_ONE_TIMES_256
            + fc_u8_out(x, rows, res, x_0, w_0, res_0, m)[i] * FIXED_ONE
            + fc_u8_remainder(x, rows, res.len() as int, x_0, w_0, res_0, m)[i]
            == requant_acc(x, rows[i], x_0, w_0, res_0, m[i]),
{
    let acc = requant_acc(x, rows[i], x_0, w_0, res_0, m[i]);
    assert(requant_ok(x, rows[i], x_0, w_0, res_0, m[i]));
    let y = zp_combined(x, rows[i], x_0, w_0) + zero_point_offset(res_0, m[i]);
    assert(y >= 0);
    assert(acc >= 0) by (nonlinear_arith)
        requires
            acc == m[i] * y,
            m[i] >= 0,
            y >= 0,
    ;
    lemma_requant_split(acc);
}

} // verus!
