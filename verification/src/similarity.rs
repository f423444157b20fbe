//! Comparing score vectors: the cosine-similarity threshold test (on `u8` and
//! on `i8` vectors) and the index of the largest score.
use vstd::prelude::*;
use crate::sums::{sum, lemma_sum_mono};
use crate::linear::{mul_u8, mul_i8, dot_i8};

verus! {

/// `sum vec[i] * mat[i]` over the positions of `mat`.
pub open spec fn dot_u8(vec: Seq<u8>, mat: Seq<u8>) -> int {
    sum(mat.len() as int, mul_u8(vec, mat))
}

/// Dot product over the positions of `mat`, accumulated in `u64`.
pub fn vec_mat_mul_cos_helper(vec: &[u8], mat: &[u8]) -> (r: u64)
    requires
        vec@.len() >= mat@.len(),
        dot_u8(vec@, mat@) <= u64::MAX,
    ensures
        r == dot_u8(vec@, mat@),
{
    let mut res = 0u64;
    let n = mat.len();
    proof {
        assert forall|t: int| 0 <= t < n implies #[trigger] mul_u8(vec@, mat@)(t) >= 0 by {
            assert(vec@[t] as int * mat@[t] as int >= 0) by (nonlinear_arith);
        }
    }
    for i in 0..n
        invariant
            n == mat@.len(),
            vec@.len() >= n,
            dot_u8(vec@, mat@) <= u64::MAX,
            forall|t: int| 0 <= t < n ==> #[trigger] mul_u8(vec@, mat@)(t) >= 0,
            res == sum(i as int, mul_u8(vec@, mat@)),
    {
        proof {
            lemma_sum_mono(mul_u8(vec@, mat@), i + 1, n as int);
        }
        res += vec[i] as u64 * mat[i] as u64;
    }
    res
}

/// `cosine_similarity(vec1, vec2, threshold)` is defined: `vec1` is at least as long
/// as `vec2` and no product in the comparison overflows `u64`.
pub open spec fn cosine_ok(vec1: Seq<u8>, vec2: Seq<u8>, threshold: u32) -> bool {
    let n1 = dot_u8(vec1, vec1);
    let n2 = dot_u8(vec2, vec2);
    let num = dot_u8(vec1, vec2);
    let t = threshold as int;
    &&& vec1.len() >= vec2.len()
    &&& n1 <= u64::MAX
    &&& n2 <= u64::MAX
    &&& num <= u64::MAX
    &&& 10000 * num <= u64::MAX
    &&& 10000 * num * num <= u64::MAX
    &&& t * t * n1 <= u64::MAX
    &&& t * t * n1 * n2 <= u64::MAX
}

/// Whether the cosine of the angle between the two vectors exceeds `threshold / 100`:
/// `10000 * (v1 . v2)^2 > threshold^2 * |v1|^2 * |v2|^2`.
pub open spec fn cosine_spec(vec1: Seq<u8>, vec2: Seq<u8>, threshold: u32) -> bool {
    10000 * dot_u8(vec1, vec2) * dot_u8(vec1, vec2)
        > threshold as int * threshold as int * dot_u8(vec1, vec1) * dot_u8(vec2, vec2)
}

/// Tests whether the cosine similarity of two `u8` vectors is above `threshold` percent.
pub fn cosine_similarity(vec1: Vec<u8>, vec2: Vec<u8>, threshold: u32) -> (r: bool)
    requires
        cosine_ok(vec1@, vec2@, threshold),
    ensures
        r == cosine_spec(vec1@, vec2@, threshold),
{
    let norm_1 = vec_mat_mul_cos_helper(vec1.as_slice(), vec1.as_slice());
    let norm_2 = vec_mat_mul_cos_helper(vec2.as_slice(), vec2.as_slice());
    let numerator = vec_mat_mul_cos_helper(vec1.as_slice(), vec2.as_slice());
    let t = threshold as u64;
    assert(t * t <= u64::MAX) by (nonlinear_arith)
        requires t <= u32::MAX;
    let res: bool = (10000 * numerator * numerator) > t * t * norm_1 * norm_2;
    res
}

/// Every running total of the `i8` dot product over the positions of `mat` fits in `i64`.
pub open spec fn dot_fits_i64(vec: Seq<i8>, mat: Seq<i8>) -> bool {
    forall|k: int| 0 <= k <= mat.len() ==> i64::MIN <= #[trigger] dot_i8(vec, mat, k) <= i64::MAX
}

/// Dot product over the positions of `mat`, accumulated in `i64`.
pub fn vec_mat_mul_cos_helper_i8(vec: &[i8], mat: &[i8]) -> (r: i64)
    requires
        vec@.len() >= mat@.len(),
        dot_fits_i64(vec@, mat@),
    ensures
        r == dot_i8(vec@, mat@, mat@.len() as int),
{
    let mut res = 0i64;
    let n = mat.len();
    for i in 0..n
        invariant
            n == mat@.len(),
            vec@.len() >= n,
            dot_fits_i64(vec@, mat@),
            res == dot_i8(vec@, mat@, i as int),
    {
        assert(dot_i8(vec@, mat@, i + 1) == dot_i8(vec@, mat@, i as int) + vec@[i as int] * mat@[i as int]);
        assert(i64::MIN <= dot_i8(vec@, mat@, i + 1) <= i64::MAX);
        let x = vec[i];
        let y = mat[i];
        assert(-16384 <= x as int * y as int <= 16384) by (nonlinear_arith)
            requires -128 <= x <= 127, -128 <= y <= 127;
        res += x as i64 * y as i64;
    }
    res
}

pub open spec fn fits_i64(x: int) -> bool {
    i64::MIN <= x <= i64::MAX
}

/// `cosine_similarity_i8(vec1, vec2, threshold)` is defined: `vec1` is at least as long
/// as `vec2` and no running total or product in the comparison overflows `i64`.
pub open spec fn cosine_i8_ok(vec1: Seq<i8>, vec2: Seq<i8>, threshold: i32) -> bool {
    let n1 = dot_i8(vec1, vec1, vec1.len() as int);
    let n2 = dot_i8(vec2, vec2, vec2.len() as int);
    let num = dot_i8(vec1, vec2, vec2.len() as int);
    let t = threshold as int;
    &&& vec1.len() >= vec2.len()
    &&& dot_fits_i64(vec1, vec1)
    &&& dot_fits_i64(vec2, vec2)
    &&& dot_fits_i64(vec1, vec2)
    &&& fits_i64(10000 * num)
    &&& fits_i64(10000 * num * num)
    &&& fits_i64(t * t * n1)
    &&& fits_i64(t * t * n1 * n2)
}

/// `10000 * (v1 . v2)^2 > threshold^2 * |v1|^2 * |v2|^2` for `i8` vectors.
pub open spec fn cosine_i8_spec(vec1: Seq<i8>, vec2: Seq<i8>, threshold: i32) -> bool {
    let num = dot_i8(vec1, vec2, vec2.len() as int);
    10000 * num * num > threshold as int * threshold as int * dot_i8(vec1, vec1, vec1.len() as int)
        * dot_i8(vec2, vec2, vec2.len() as int)
}

/// Tests whether the cosine similarity of two `i8` vectors is above `threshold` percent
/// (comparing squares, so the sign of the cosine is not looked at).
pub fn cosine_similarity_i8(vec1: Vec<i8>, vec2: Vec<i8>, threshold: i32) -> (r: bool)
    requires
        cosine_i8_ok(vec1@, vec2@, threshold),
    ensures
        r == cosine_i8_spec(vec1@, vec2@, threshold),
{
    let norm_1 = vec_mat_mul_cos_helper_i8(vec1.as_slice(), vec1.as_slice());
    let norm_2 = vec_mat_mul_cos_helper_i8(vec2.as_slice(), vec2.as_slice());
    let numerator = vec_mat_mul_cos_helper_i8(vec1.as_slice(), vec2.as_slice());
    let t = threshold as i64;
    assert(0 <= t * t <= 4611686018427387904) by (nonlinear_arith)
        requires i32::MIN <= t <= i32::MAX;
    let res: bool = (10000 * numerator * numerator) > t * t * norm_1 * norm_2;
    res
}

/// The index of the largest entry, the first one where several are largest; 0 for an empty vector.
pub fn argmax_u8(input: Vec<u8>) -> (r: usize)
    ensures
        input@.len() == 0 ==> r == 0,
        input@.len() > 0 ==> r < input@.len(),
        forall|j: int| 0 <= j < input@.len() ==> input@[j] <= input@[r as int],
        forall|j: int| 0 <= j < r ==> input@[j] < input@[r as int],
{
    let mut res = 0usize;
    let mut tmp_max = 0u8;
    let n = input.len();
    for i in 0..n
        invariant
            n == input@.len(),
            i == 0 ==> res == 0 && tmp_max == 0,
            i > 0 ==> res < i && tmp_max == input@[res as int],
            forall|j: int| 0 <= j < i ==> input@[j] <= tmp_max,
            forall|j: int| 0 <= j < res ==> input@[j] < tmp_max,
    {
        if input[i] > tmp_max {
            tmp_max = input[i];
            res = i;
        }
    }
    res
}

// ---------------------------------------------------------------------------
// What the cosine tests decide.

/// The entries of `v` times `a` (as bytes).
pub open spec fn scale_u8(v: Seq<u8>, a: u8) -> Seq<u8> {
    Seq::new(v.len(), |i: int| (v[i] * a) as u8)
}

proof fn lemma_sum_scaled(f: spec_fn(int) -> int, g: spec_fn(int) -> int, a: int, n: int)
    requires
        forall|t: int| 0 <= t < n ==> #[trigger] g(t) == a * f(t),
    ensures
        sum(n, g) == a * sum(n, f),
    decreases n,
{
    if n > 0 {
        lemma_sum_scaled(f, g, a, n - 1);
        let x = sum(n - 1, f);
        let y = f(n - 1);
        assert(a * x + a * y == a * (x + y)) by (nonlinear_arith);
    }
}

proof fn lemma_dot_scaled(v: Seq<u8>, w: Seq<u8>, a: u8, c: u8)
    requires
        v.len() >= w.len(),
        forall|i: int| 0 <= i < v.len() ==> #[trigger] v[i] * a <= 255,
        forall|i: int| 0 <= i < w.len() ==> #[trigger] w[i] * c <= 255,
    ensures
        dot_u8(scale_u8(v, a), scale_u8(w, c)) == a * c * dot_u8(v, w),
{
    let f = mul_u8(v, w);
    let g = mul_u8(scale_u8(v, a), scale_u8(w, c));
    assert forall|t: int| 0 <= t < w.len() implies #[trigger] g(t) == (a * c) * f(t) by {
        assert(v[t] * a <= 255);
        assert(w[t] * c <= 255);
        assert(scale_u8(v, a)[t] == v[t] * a);
        assert(scale_u8(w, c)[t] == w[t] * c);
        let p = v[t] as int;
        let q = w[t] as int;
        assert((p * a) * (q * c) == (a * c) * (p * q)) by (nonlinear_arith);
    }
    lemma_sum_scaled(f, g, a * c, w.len() as int);
    assert(a * c * dot_u8(v, w) == (a * c) * sum(w.len() as int, f));
}

/// The cosine test depends only on the angle between the vectors: scaling either of them
/// by a positive factor (its entries staying bytes) leaves the answer unchanged.
pub proof fn lemma_cosine_scale_invariant(vec1: Seq<u8>, vec2: Seq<u8>, a: u8, c: u8, threshold: u32)
    requires
        vec1.len() >= vec2.len(),
        a > 0,
        c > 0,
        forall|i: int| 0 <= i < vec1.len() ==> #[trigger] vec1[i] * a <= 255,
        forall|i: int| 0 <= i < vec2.len() ==> #[trigger] vec2[i] * c <= 255,
    ensures
        cosine_spec(scale_u8(vec1, a), scale_u8(vec2, c), threshold) == cosine_spec(vec1, vec2, threshold),
{
    lemma_dot_scaled(vec1, vec2, a, c);
    lemma_dot_scaled(vec1, vec1, a, a);
    lemma_dot_scaled(vec2, vec2, c, c);
    let num = dot_u8(vec1, vec2);
    let n1 = dot_u8(vec1, vec1);
    let n2 = dot_u8(vec2, vec2);
    let t = threshold as int;
    let ai = a as int;
    let ci = c as int;
    let k = (ai * ci) * (ai * ci);
    let lhs = 10000 * num * num;
    let rhs = t * t * n1 * n2;
    assert(k > 0) by (nonlinear_arith)
        requires
            ai > 0,
            ci > 0,
            k == (ai * ci) * (ai * ci),
    ;
    assert(10000 * (ai * ci * num) * (ai * ci * num) == k * lhs) by (nonlinear_arith)
        requires
            k == (ai * ci) * (ai * ci),
            lhs == 10000 * num * num,
    ;
    assert(t * t * (ai * ai * n1) * (ci * ci * n2) == k * rhs) by (nonlinear_arith)
        requires
            k == (ai * ci) * (ai * ci),
            rhs == t * t * n1 * n2,
    ;
    assert((k * lhs > k * rhs) == (lhs > rhs)) by (nonlinear_arith)
        requires
            k > 0,
    ;
}

/// `10000 * n * n > t * t * n * n` holds exactly when `t < 100`, for positive `n` and
/// nonnegative `t`.
proof fn lemma_square_threshold(n: int, t: int)
    requires
        n > 0,
        t >= 0,
    ensures
        (10000 * n * n > t * t * n * n) == (t < 100),
{
    let nn = n * n;
    assert(nn > 0) by (nonlinear_arith)
        requires
            n > 0,
            nn == n * n,
    ;
    assert(10000 * n * n == 10000 * nn && t * t * n * n == (t * t) * nn) by (nonlinear_arith)
        requires
            nn == n * n,
    ;
    assert(((t * t) * nn < 10000 * nn) == (t * t < 10000)) by (nonlinear_arith)
        requires
            nn > 0,
    ;
    assert((t * t < 10000) == (t < 100)) by (nonlinear_arith)
        requires
            t >= 0,
    ;
}

/// A vector with a nonzero entry passes the cosine test against itself for every
/// threshold below 100 and for none from 100 up; the zero vector passes for none.
pub proof fn lemma_cosine_self(v: Seq<u8>, threshold: u32)
    ensures
        (exists|i: int| 0 <= i < v.len() && v[i] != 0) ==> (cosine_spec(v, v, threshold) <==> threshold < 100),
        (forall|i: int| 0 <= i < v.len() ==> v[i] == 0) ==> !cosine_spec(v, v, threshold),
{
    let f = mul_u8(v, v);
    let n = dot_u8(v, v);
    assert forall|t: int| 0 <= t < v.len() implies #[trigger] f(t) >= 0 by {
        let p = v[t] as int;
        assert(p * p >= 0) by (nonlinear_arith);
    }
    if exists|i: int| 0 <= i < v.len() && v[i] != 0 {
        let i = choose|i: int| 0 <= i < v.len() && v[i] != 0;
        let p = v[i] as int;
        assert(p * p >= 1) by (nonlinear_arith)
            requires
                p >= 1,
        ;
        lemma_sum_mono(f, i, v.len() as int);
        lemma_sum_mono(f, i + 1, v.len() as int);
        assert(n >= 1);
        lemma_square_threshold(n, threshold as int);
    }
    if forall|i: int| 0 <= i < v.len() ==> v[i] == 0 {
        assert forall|t: int| 0 <= t < v.len() implies #[trigger] f(t) == 0 * f(t) by {
            assert(v[t] == 0);
        }
        lemma_sum_scaled(f, f, 0, v.len() as int);
        assert(n == 0);
    }
}

/// An `i8` vector with a nonzero entry passes the cosine test against itself for every
/// threshold from -99 to 99 and for none further from 0; the zero vector passes for none.
pub proof fn lemma_cosine_i8_self(v: Seq<i8>, threshold: i32)
    ensures
        (exists|i: int| 0 <= i < v.len() && v[i] != 0) ==> (cosine_i8_spec(v, v, threshold) <==> -100 < threshold < 100),
        (forall|i: int| 0 <= i < v.len() ==> v[i] == 0) ==> !cosine_i8_spec(v, v, threshold),
{
    let f = mul_i8(v, v);
    let n = dot_i8(v, v, v.len() as int);
    assert forall|t: int| 0 <= t < v.len() implies #[trigger] f(t) >= 0 by {
        let p = v[t] as int;
        assert(p * p >= 0) by (nonlinear_arith);
    }
    let t = threshold as int;
    let u = if t >= 0 { t } else { -t };
    assert(t * t == u * u) by (nonlinear_arith)
        requires
            u == t || u == -t,
    ;
    if exists|i: int| 0 <= i < v.len() && v[i] != 0 {
        let i = choose|i: int| 0 <= i < v.len() && v[i] != 0;
        let p = v[i] as int;
        assert(p * p >= 1) by (nonlinear_arith)
            requires
                p >= 1 || p <= -1,
        ;
        lemma_sum_mono(f, i, v.len() as int);
        lemma_sum_mono(f, i + 1, v.len() as int);
        assert(n >= 1);
        lemma_square_threshold(n, u);
        assert((10000 * n * n > t * t * n * n) == (10000 * n * n > u * u * n * n));
    }
    if forall|i: int| 0 <= i < v.len() ==> v[i] == 0 {
        assert forall|k: int| 0 <= k < v.len() implies #[trigger] f(k) == 0 * f(k) by {
            assert(v[k] == 0);
        }
        lemma_sum_scaled(f, f, 0, v.len() as int);
        assert(n == 0);
    }
}

} // verus!
