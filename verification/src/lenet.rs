//! LeNet: three convolution layers (each followed by a ReLU, the first two by a
//! 2 x 2 average pooling), the last one flattened into a row per image, then two
//! fully connected layers with a ReLU between them. A plain `i8` network and a
//! zero-point quantized `u8` one with fixed-point multipliers.
use vstd::prelude::*;
use crate::tensor::{
    t2, t4, filled1, filled4, fill1, fill4, shaped4, flatten4, flatten, copy2, copy4, lemma_filled4_shaped,
};
use crate::activation::{
    relu_t4, relu_mat, relu4d, relu2d, lemma_relu_t4_shaped, relu_u8_t4, relu_u8_mat, relu4d_u8, relu2d_u8,
    relu_u8_vec,
    lemma_relu_u8_t4_shaped, lemma_shaped_bounded_by_first,
};
use crate::linear::{
    mat_vec_i8, mat_vec_i8_ok, vec_mat_mul, row_slices, fc_u8_ok, fc_u8_out, vec_mat_mul_with_remainder_u8,
    dot_i8, requant_acc, FIXED_ONE,
};
use crate::conv_layer::{
    conv_shape_ok, out_rows, out_cols, conv_batch_i8, conv_batch_i8_ok, vec_conv, lemma_conv_batch_i8_shaped,
    q_batch_val, q_batch_ok, zeros_like_first, vec_conv_with_remainder_u8, lemma_q_batch_val_shaped, q_image_ok,
    q_plane_ok, q_row_ok, conv_q_ok, conv_image_i8_ok, conv_plane_i8_ok, conv_row_i8_ok,
};
use crate::conv::{in_window, conv_i8_ok};
use crate::pool::{
    pool_shape_ok, pool_out_shape_i8, pool_batch_avg_i8, pool_batch_i8_ok, avg_pool_scala, pool_out_shape,
    pool_batch_avg, pool_batch_ok, avg_pool_scala_u8, pool_image_ok, lemma_pool_batch_avg_shaped,
    pool_image_i8_ok, lemma_pool_batch_avg_i8_shaped,
};

verus! {

// ---------------------------------------------------------------------------
// Stages shared by both networks.

/// The zero tensor that a convolution stage writes into: one entry per image, kernel
/// and window position, with the window rows counted from the first kernel's rows and
/// the window columns from its columns.
pub open spec fn conv_zeros<A, B>(v: Seq<Seq<Seq<Seq<A>>>>, k: Seq<Seq<Seq<Seq<A>>>>, zero: B) -> Seq<Seq<Seq<Seq<B>>>> {
    filled4(
        zero,
        v.len(),
        k.len(),
        (v[0][0].len() - k[0][0].len() + 1) as nat,
        (v[0][0][0].len() - k[0][0][0].len() + 1) as nat,
    )
}

/// A convolution stage can size its output: the layer's own shapes hold, the first
/// kernel has a first row, and that row fits the first image's width.
pub open spec fn conv_alloc_ok<A>(v: Seq<Seq<Seq<Seq<A>>>>, k: Seq<Seq<Seq<Seq<A>>>>) -> bool {
    &&& conv_shape_ok(v, k)
    &&& k[0][0].len() > 0
    &&& k[0][0][0].len() <= v[0][0][0].len()
    &&& v[0][0][0].len() - k[0][0][0].len() < usize::MAX
}

/// The flattened rows of a batch fit in memory: channels times rows times columns
/// of the first image is a `usize`.
pub open spec fn flat_fits<T>(s: Seq<Seq<Seq<Seq<T>>>>) -> bool {
    s[0].len() * s[0][0].len() * s[0][0][0].len() <= usize::MAX
}

// ---------------------------------------------------------------------------
// Plain i8 stages.

/// A plain convolution stage: the layer run into a fresh zero tensor.
pub open spec fn conv_stage_i8(v: Seq<Seq<Seq<Seq<i8>>>>, k: Seq<Seq<Seq<Seq<i8>>>>) -> Seq<Seq<Seq<Seq<i8>>>> {
    conv_batch_i8(conv_zeros(v, k, 0i8), v, k, out_rows(v, k), out_cols(v, k))
}

pub open spec fn conv_stage_i8_ok(v: Seq<Seq<Seq<Seq<i8>>>>, k: Seq<Seq<Seq<Seq<i8>>>>) -> bool {
    &&& conv_alloc_ok(v, k)
    &&& conv_batch_i8_ok(conv_zeros(v, k, 0i8), v, k, out_rows(v, k), out_cols(v, k))
}

/// A plain 2 x 2 average pooling stage.
pub open spec fn pool_stage_i8(v: Seq<Seq<Seq<Seq<i8>>>>) -> Seq<Seq<Seq<Seq<i8>>>> {
    pool_batch_avg_i8(pool_out_shape_i8(v, 2), v, v[0].len() as int, v[0][0].len() as int / 2, v[0][0][0].len() as int / 2, 2)
}

pub open spec fn pool_stage_i8_ok(v: Seq<Seq<Seq<Seq<i8>>>>) -> bool {
    &&& pool_shape_ok(v, 2)
    &&& pool_batch_i8_ok(pool_out_shape_i8(v, 2), v, v[0].len() as int, v[0][0].len() as int / 2, v[0][0][0].len() as int / 2, 2)
}

/// A plain fully connected stage: each row of `xs` times the weight rows `w`.
pub open spec fn fc_batch_i8(xs: Seq<Seq<i8>>, w: Seq<Seq<i8>>) -> Seq<Seq<i8>> {
    Seq::new(xs.len(), |i: int| mat_vec_i8(xs[i], w, filled1(0i8, w.len())))
}

pub open spec fn fc_batch_i8_ok(xs: Seq<Seq<i8>>, w: Seq<Seq<i8>>) -> bool {
    forall|i: int| 0 <= i < xs.len() ==> mat_vec_i8_ok(#[trigger] xs[i], w, w.len() as int)
}

fn conv_layer_i8(input: &Vec<Vec<Vec<Vec<i8>>>>, kernel: &Vec<Vec<Vec<Vec<i8>>>>) -> (out: Vec<Vec<Vec<Vec<i8>>>>)
    requires
        conv_stage_i8_ok(t4(input@), t4(kernel@)),
    ensures
        t4(out@) == conv_stage_i8(t4(input@), t4(kernel@)),
        shaped4(
            t4(out@),
            input@.len() as nat,
            kernel@.len() as nat,
            (t4(input@)[0][0].len() - t4(kernel@)[0][0].len() + 1) as nat,
            (t4(input@)[0][0][0].len() - t4(kernel@)[0][0][0].len() + 1) as nat,
        ),
{
    let ghost v = t4(input@);
    let ghost k = t4(kernel@);
    let h = input[0][0].len() - kernel[0][0].len() + 1;
    let w = input[0][0][0].len() - kernel[0][0][0].len() + 1;
    let mut out = fill4(0i8, input.len(), kernel.len(), h, w);
    assert(t4(out@) == conv_zeros(v, k, 0i8));
    proof {
        lemma_filled4_shaped(0i8, v.len(), k.len(), h as nat, w as nat);
        lemma_conv_batch_i8_shaped(t4(out@), v, k, out_rows(v, k), out_cols(v, k), v.len(), k.len(), h as nat, w as nat);
    }
    vec_conv(input, kernel, &mut out);
    out
}

fn fc_layer_i8(xs: &Vec<Vec<i8>>, w: &Vec<Vec<i8>>) -> (out: Vec<Vec<i8>>)
    requires
        fc_batch_i8_ok(t2(xs@), t2(w@)),
    ensures
        t2(out@) == fc_batch_i8(t2(xs@), t2(w@)),
{
    let w_ref = row_slices(w);
    let mut out: Vec<Vec<i8>> = Vec::new();
    let n = xs.len();
    for i in 0..n
        invariant
            n == xs@.len(),
            fc_batch_i8_ok(t2(xs@), t2(w@)),
            crate::linear::rows_of(w_ref@) == t2(w@),
            out@.len() == i,
            forall|j: int| 0 <= j < i ==> (#[trigger] out@[j])@ == mat_vec_i8(xs@[j]@, t2(w@), filled1(0i8, w@.len() as nat)),
    {
        let mut row = fill1(0i8, w.len());
        assert(mat_vec_i8_ok(t2(xs@)[i as int], t2(w@), w@.len() as int));
        vec_mat_mul(xs[i].as_slice(), w_ref.as_slice(), row.as_mut_slice());
        out.push(row);
    }
    assert(t2(out@) =~= fc_batch_i8(t2(xs@), t2(w@)));
    out
}

// ---------------------------------------------------------------------------
// Plain i8 LeNet.

/// The plain network's first pooled feature maps.
pub open spec fn lenet_i8_pool1(x: Seq<Seq<Seq<Seq<i8>>>>, k1: Seq<Seq<Seq<Seq<i8>>>>) -> Seq<Seq<Seq<Seq<i8>>>> {
    pool_stage_i8(relu_t4(conv_stage_i8(x, k1)))
}

/// The plain network's second pooled feature maps.
pub open spec fn lenet_i8_pool2(
    x: Seq<Seq<Seq<Seq<i8>>>>,
    k1: Seq<Seq<Seq<Seq<i8>>>>,
    k2: Seq<Seq<Seq<Seq<i8>>>>,
) -> Seq<Seq<Seq<Seq<i8>>>> {
    pool_stage_i8(relu_t4(conv_stage_i8(lenet_i8_pool1(x, k1), k2)))
}

/// The plain network's third convolution, after its ReLU.
pub open spec fn lenet_i8_conv3(
    x: Seq<Seq<Seq<Seq<i8>>>>,
    k1: Seq<Seq<Seq<Seq<i8>>>>,
    k2: Seq<Seq<Seq<Seq<i8>>>>,
    k3: Seq<Seq<Seq<Seq<i8>>>>,
) -> Seq<Seq<Seq<Seq<i8>>>> {
    relu_t4(conv_stage_i8(lenet_i8_pool2(x, k1, k2), k3))
}

/// The plain network's first fully connected layer, after its ReLU.
pub open spec fn lenet_i8_fc1(
    x: Seq<Seq<Seq<Seq<i8>>>>,
    k1: Seq<Seq<Seq<Seq<i8>>>>,
    k2: Seq<Seq<Seq<Seq<i8>>>>,
    k3: Seq<Seq<Seq<Seq<i8>>>>,
    f1: Seq<Seq<i8>>,
) -> Seq<Seq<i8>> {
    relu_mat(fc_batch_i8(flatten4(lenet_i8_conv3(x, k1, k2, k3)), f1))
}

/// What the plain network returns: one row of `f2.len()` scores per image.
pub open spec fn lenet_i8_spec(
    x: Seq<Seq<Seq<Seq<i8>>>>,
    k1: Seq<Seq<Seq<Seq<i8>>>>,
    k2: Seq<Seq<Seq<Seq<i8>>>>,
    k3: Seq<Seq<Seq<Seq<i8>>>>,
    f1: Seq<Seq<i8>>,
    f2: Seq<Seq<i8>>,
) -> Seq<Seq<i8>> {
    fc_batch_i8(lenet_i8_fc1(x, k1, k2, k3, f1), f2)
}

/// The plain network is defined on its inputs: every stage gets the shapes it reads
/// and no accumulator overflows.
pub open spec fn lenet_i8_ok(
    x: Seq<Seq<Seq<Seq<i8>>>>,
    k1: Seq<Seq<Seq<Seq<i8>>>>,
    k2: Seq<Seq<Seq<Seq<i8>>>>,
    k3: Seq<Seq<Seq<Seq<i8>>>>,
    f1: Seq<Seq<i8>>,
    f2: Seq<Seq<i8>>,
) -> bool {
    &&& conv_stage_i8_ok(x, k1)
    &&& pool_stage_i8_ok(relu_t4(conv_stage_i8(x, k1)))
    &&& conv_stage_i8_ok(lenet_i8_pool1(x, k1), k2)
    &&& pool_stage_i8_ok(relu_t4(conv_stage_i8(lenet_i8_pool1(x, k1), k2)))
    &&& conv_stage_i8_ok(lenet_i8_pool2(x, k1, k2), k3)
    &&& flat_fits(lenet_i8_conv3(x, k1, k2, k3))
    &&& fc_batch_i8_ok(flatten4(lenet_i8_conv3(x, k1, k2, k3)), f1)
    &&& fc_batch_i8_ok(lenet_i8_fc1(x, k1, k2, k3, f1), f2)
}

/// The plain LeNet on a batch of images `x`: three convolutions with ReLU (2 x 2
/// average pooling after the first two), the third flattened per image, then the
/// fully connected layers `fc1_weight` (with ReLU) and `fc2_weight`.
pub fn lenet_circuit_forward(
    x: Vec<Vec<Vec<Vec<i8>>>>,
    conv1_kernel: Vec<Vec<Vec<Vec<i8>>>>,
    conv2_kernel: Vec<Vec<Vec<Vec<i8>>>>,
    conv3_kernel: Vec<Vec<Vec<Vec<i8>>>>,
    fc1_weight: Vec<Vec<i8>>,
    fc2_weight: Vec<Vec<i8>>,
) -> (out: Vec<Vec<i8>>)
    requires
        lenet_i8_ok(t4(x@), t4(conv1_kernel@), t4(conv2_kernel@), t4(conv3_kernel@), t2(fc1_weight@), t2(fc2_weight@)),
    ensures
        t2(out@) == lenet_i8_spec(t4(x@), t4(conv1_kernel@), t4(conv2_kernel@), t4(conv3_kernel@), t2(fc1_weight@), t2(fc2_weight@)),
{
    let ghost k3 = t4(conv3_kernel@);
    let mut conv1_output = conv_layer_i8(&x, &conv1_kernel);
    relu4d(&mut conv1_output);
    let avg_pool1_output = avg_pool_scala(&conv1_output, 2);

    let mut conv2_output = conv_layer_i8(&avg_pool1_output, &conv2_kernel);
    relu4d(&mut conv2_output);
    let avg_pool2_output = avg_pool_scala(&conv2_output, 2);

    let ghost p2 = t4(avg_pool2_output@);
    let mut conv3_output = conv_layer_i8(&avg_pool2_output, &conv3_kernel);
    let ghost c3 = t4(conv3_output@);
    relu4d(&mut conv3_output);
    proof {
        let h = (p2[0][0].len() - k3[0][0].len() + 1) as nat;
        let w = (p2[0][0][0].len() - k3[0][0][0].len() + 1) as nat;
        lemma_relu_t4_shaped(c3, p2.len(), k3.len(), h, w);
    }
    let transformed_conv3_output = flatten(&conv3_output);

    let mut fc1_output = fc_layer_i8(&transformed_conv3_output, &fc1_weight);
    relu2d(&mut fc1_output);
    fc_layer_i8(&fc1_output, &fc2_weight)
}

// ---------------------------------------------------------------------------
// Quantized u8 stages.

/// A quantized convolution stage: the layer run into a fresh zero tensor.
pub open spec fn conv_stage_u8(
    v: Seq<Seq<Seq<Seq<u8>>>>,
    k: Seq<Seq<Seq<Seq<u8>>>>,
    v_0: u8,
    k_0: u8,
    out_0: u8,
    m: Seq<u64>,
) -> Seq<Seq<Seq<Seq<u8>>>> {
    q_batch_val(conv_zeros(v, k, 0u8), v, k, out_rows(v, k), out_cols(v, k), v_0, k_0, out_0, m)
}

pub open spec fn conv_stage_u8_ok(
    v: Seq<Seq<Seq<Seq<u8>>>>,
    k: Seq<Seq<Seq<Seq<u8>>>>,
    v_0: u8,
    k_0: u8,
    out_0: u8,
    m: Seq<u64>,
) -> bool {
    &&& conv_alloc_ok(v, k)
    &&& q_batch_ok(conv_zeros(v, k, 0u8), conv_zeros(v, k, 0u32), v, k, out_rows(v, k), out_cols(v, k), v_0, k_0, out_0, m)
}

/// A quantized 2 x 2 average pooling stage.
pub open spec fn pool_stage_u8(v: Seq<Seq<Seq<Seq<u8>>>>) -> Seq<Seq<Seq<Seq<u8>>>> {
    pool_batch_avg(pool_out_shape(v, 2), v, v[0].len() as int, v[0][0].len() as int / 2, v[0][0][0].len() as int / 2, 2)
}

pub open spec fn pool_stage_u8_ok(v: Seq<Seq<Seq<Seq<u8>>>>) -> bool {
    &&& pool_shape_ok(v, 2)
    &&& pool_batch_ok(pool_out_shape(v, 2), v, v[0].len() as int, v[0][0].len() as int / 2, v[0][0][0].len() as int / 2, 2)
}

/// A quantized fully connected stage: each row of `xs` against the weight rows `w`,
/// requantized to zero point `out_0`.
pub open spec fn fc_batch_u8(xs: Seq<Seq<u8>>, w: Seq<Seq<u8>>, x_0: u8, w_0: u8, out_0: u8, m: Seq<u64>) -> Seq<Seq<u8>> {
    Seq::new(xs.len(), |i: int| fc_u8_out(xs[i], w, filled1(0u8, w.len()), x_0, w_0, out_0, m))
}

pub open spec fn fc_batch_u8_ok(xs: Seq<Seq<u8>>, w: Seq<Seq<u8>>, x_0: u8, w_0: u8, out_0: u8, m: Seq<u64>) -> bool {
    forall|i: int| 0 <= i < xs.len() ==> fc_u8_ok(#[trigger] xs[i], w, w.len() as int, x_0, w_0, out_0, m)
}

fn conv_layer_u8(
    input: &Vec<Vec<Vec<Vec<u8>>>>,
    kernel: &Vec<Vec<Vec<Vec<u8>>>>,
    input_0: u8,
    kernel_0: u8,
    output_0: u8,
    multiplier: &[u64],
) -> (out: Vec<Vec<Vec<Vec<u8>>>>)
    requires
        conv_stage_u8_ok(t4(input@), t4(kernel@), input_0, kernel_0, output_0, multiplier@),
    ensures
        t4(out@) == conv_stage_u8(t4(input@), t4(kernel@), input_0, kernel_0, output_0, multiplier@),
        shaped4(
            t4(out@),
            input@.len() as nat,
            kernel@.len() as nat,
            (t4(input@)[0][0].len() - t4(kernel@)[0][0].len() + 1) as nat,
            (t4(input@)[0][0][0].len() - t4(kernel@)[0][0][0].len() + 1) as nat,
        ),
{
    let ghost v = t4(input@);
    let ghost k = t4(kernel@);
    let h = input[0][0].len() - kernel[0][0].len() + 1;
    let w = input[0][0][0].len() - kernel[0][0][0].len() + 1;
    let mut out = fill4(0u8, input.len(), kernel.len(), h, w);
    assert(t4(out@) == conv_zeros(v, k, 0u8));
    assert(zeros_like_first(t4(out@)) == conv_zeros(v, k, 0u32));
    proof {
        lemma_filled4_shaped(0u8, v.len(), k.len(), h as nat, w as nat);
        lemma_q_batch_val_shaped(
            t4(out@), v, k, out_rows(v, k), out_cols(v, k), input_0, kernel_0, output_0, multiplier@,
            v.len(), k.len(), h as nat, w as nat,
        );
    }
    let _ = vec_conv_with_remainder_u8(input, kernel, &mut out, input_0, kernel_0, output_0, multiplier);
    out
}

fn fc_layer_u8(xs: &Vec<Vec<u8>>, w: &Vec<Vec<u8>>, x_0: u8, w_0: u8, out_0: u8, multiplier: &[u64]) -> (out: Vec<Vec<u8>>)
    requires
        fc_batch_u8_ok(t2(xs@), t2(w@), x_0, w_0, out_0, multiplier@),
    ensures
        t2(out@) == fc_batch_u8(t2(xs@), t2(w@), x_0, w_0, out_0, multiplier@),
{
    let w_ref = row_slices(w);
    let mut out: Vec<Vec<u8>> = Vec::new();
    let n = xs.len();
    for i in 0..n
        invariant
            n == xs@.len(),
            fc_batch_u8_ok(t2(xs@), t2(w@), x_0, w_0, out_0, multiplier@),
            crate::linear::rows_of(w_ref@) == t2(w@),
            out@.len() == i,
            forall|j: int| 0 <= j < i ==> (#[trigger] out@[j])@ == fc_u8_out(xs@[j]@, t2(w@), filled1(0u8, w@.len() as nat), x_0, w_0, out_0, multiplier@),
    {
        let mut row = fill1(0u8, w.len());
        assert(fc_u8_ok(t2(xs@)[i as int], t2(w@), w@.len() as int, x_0, w_0, out_0, multiplier@));
        let _ = vec_mat_mul_with_remainder_u8(xs[i].as_slice(), w_ref.as_slice(), row.as_mut_slice(), x_0, w_0, out_0, multiplier);
        out.push(row);
    }
    assert(t2(out@) =~= fc_batch_u8(t2(xs@), t2(w@), x_0, w_0, out_0, multiplier@));
    out
}

// ---------------------------------------------------------------------------
// Quantized u8 LeNet.

/// What the quantized network computes, stage by stage.
pub struct LenetU8View {
    /// The first convolution, requantized, before its ReLU.
    pub conv1: Seq<Seq<Seq<Seq<u8>>>>,
    /// The first ReLU and pooling: the input of the second convolution.
    pub pool1: Seq<Seq<Seq<Seq<u8>>>>,
    /// The second convolution, requantized, before its ReLU.
    pub conv2: Seq<Seq<Seq<Seq<u8>>>>,
    /// The second ReLU and pooling: the input of the third convolution.
    pub pool2: Seq<Seq<Seq<Seq<u8>>>>,
    /// The third convolution, requantized, before its ReLU.
    pub conv3: Seq<Seq<Seq<Seq<u8>>>>,
    /// The third ReLU, flattened into a row per image.
    pub features: Seq<Seq<u8>>,
    /// The first fully connected layer, requantized, before its ReLU.
    pub fc1: Seq<Seq<u8>>,
    /// The second fully connected layer: the network's output.
    pub output: Seq<Seq<u8>>,
}

/// The stages of the quantized network. Each layer reads the zero point of its input
/// (`x_0` for the images, then the previous layer's output zero point), its weights'
/// zero point and its output zero point, and one fixed-point multiplier per output
/// channel (the real multiplier times 2^22).
pub open spec fn lenet_u8_view(
    x: Seq<Seq<Seq<Seq<u8>>>>,
    k1: Seq<Seq<Seq<Seq<u8>>>>,
    k2: Seq<Seq<Seq<Seq<u8>>>>,
    k3: Seq<Seq<Seq<Seq<u8>>>>,
    f1: Seq<Seq<u8>>,
    f2: Seq<Seq<u8>>,
    x_0: u8,
    conv1_output_0: u8,
    conv2_output_0: u8,
    conv3_output_0: u8,
    fc1_output_0: u8,
    fc2_output_0: u8,
    conv1_weights_0: u8,
    conv2_weights_0: u8,
    conv3_weights_0: u8,
    fc1_weights_0: u8,
    fc2_weights_0: u8,
    m_conv1: Seq<u64>,
    m_conv2: Seq<u64>,
    m_conv3: Seq<u64>,
    m_fc1: Seq<u64>,
    m_fc2: Seq<u64>,
) -> LenetU8View {
    let conv1 = conv_stage_u8(x, k1, x_0, conv1_weights_0, conv1_output_0, m_conv1);
    let pool1 = pool_stage_u8(relu_u8_t4(conv1, conv1_output_0));
    let conv2 = conv_stage_u8(pool1, k2, conv1_output_0, conv2_weights_0, conv2_output_0, m_conv2);
    let pool2 = pool_stage_u8(relu_u8_t4(conv2, conv2_output_0));
    let conv3 = conv_stage_u8(pool2, k3, conv2_output_0, conv3_weights_0, conv3_output_0, m_conv3);
    let features = flatten4(relu_u8_t4(conv3, conv3_output_0));
    let fc1 = fc_batch_u8(features, f1, conv3_output_0, fc1_weights_0, fc1_output_0, m_fc1);
    let output = fc_batch_u8(relu_u8_mat(fc1, fc1_output_0), f2, fc1_output_0, fc2_weights_0, fc2_output_0, m_fc2);
    LenetU8View { conv1, pool1, conv2, pool2, conv3, features, fc1, output }
}

/// The quantized network is defined on its inputs: every stage gets the shapes it
/// reads and every requantization fits.
pub open spec fn lenet_u8_ok(
    x: Seq<Seq<Seq<Seq<u8>>>>,
    k1: Seq<Seq<Seq<Seq<u8>>>>,
    k2: Seq<Seq<Seq<Seq<u8>>>>,
    k3: Seq<Seq<Seq<Seq<u8>>>>,
    f1: Seq<Seq<u8>>,
    f2: Seq<Seq<u8>>,
    x_0: u8,
    conv1_output_0: u8,
    conv2_output_0: u8,
    conv3_output_0: u8,
    fc1_output_0: u8,
    fc2_output_0: u8,
    conv1_weights_0: u8,
    conv2_weights_0: u8,
    conv3_weights_0: u8,
    fc1_weights_0: u8,
    fc2_weights_0: u8,
    m_conv1: Seq<u64>,
    m_conv2: Seq<u64>,
    m_conv3: Seq<u64>,
    m_fc1: Seq<u64>,
    m_fc2: Seq<u64>,
) -> bool {
    let v = lenet_u8_view(
        x, k1, k2, k3, f1, f2, x_0, conv1_output_0, conv2_output_0, conv3_output_0, fc1_output_0,
        fc2_output_0, conv1_weights_0, conv2_weights_0, conv3_weights_0, fc1_weights_0, fc2_weights_0,
        m_conv1, m_conv2, m_conv3, m_fc1, m_fc2,
    );
    &&& conv_stage_u8_ok(x, k1, x_0, conv1_weights_0, conv1_output_0, m_conv1)
    &&& pool_stage_u8_ok(relu_u8_t4(v.conv1, conv1_output_0))
    &&& conv_stage_u8_ok(v.pool1, k2, conv1_output_0, conv2_weights_0, conv2_output_0, m_conv2)
    &&& pool_stage_u8_ok(relu_u8_t4(v.conv2, conv2_output_0))
    &&& conv_stage_u8_ok(v.pool2, k3, conv2_output_0, conv3_weights_0, conv3_output_0, m_conv3)
    &&& flat_fits(v.conv3)
    &&& fc_batch_u8_ok(v.features, f1, conv3_output_0, fc1_weights_0, fc1_output_0, m_fc1)
    &&& fc_batch_u8_ok(relu_u8_mat(v.fc1, fc1_output_0), f2, fc1_output_0, fc2_weights_0, fc2_output_0, m_fc2)
}

/// The intermediate results of one run of the quantized network.
pub struct LenetU8Trace {
    /// The first convolution, before its ReLU.
    pub conv1: Vec<Vec<Vec<Vec<u8>>>>,
    /// The second convolution, before its ReLU.
    pub conv2: Vec<Vec<Vec<Vec<u8>>>>,
    /// The second pooling: the input of the third convolution.
    pub avgpool2: Vec<Vec<Vec<Vec<u8>>>>,
    /// The third convolution, before its ReLU.
    pub conv3: Vec<Vec<Vec<Vec<u8>>>>,
    /// The first fully connected layer, before its ReLU.
    pub fc1: Vec<Vec<u8>>,
    /// The network's output.
    pub output: Vec<Vec<u8>>,
}

impl LenetU8Trace {
    /// The trace holds the stages of `v`.
    pub open spec fn shows(&self, v: LenetU8View) -> bool {
        &&& t4(self.conv1@) == v.conv1
        &&& t4(self.conv2@) == v.conv2
        &&& t4(self.avgpool2@) == v.pool2
        &&& t4(self.conv3@) == v.conv3
        &&& t2(self.fc1@) == v.fc1
        &&& t2(self.output@) == v.output
    }
}

fn lenet_u8_run(
    x: &Vec<Vec<Vec<Vec<u8>>>>,
    conv1_kernel: &Vec<Vec<Vec<Vec<u8>>>>,
    conv2_kernel: &Vec<Vec<Vec<Vec<u8>>>>,
    conv3_kernel: &Vec<Vec<Vec<Vec<u8>>>>,
    fc1_weight: &Vec<Vec<u8>>,
    fc2_weight: &Vec<Vec<u8>>,
    x_0: u8,
    conv1_output_0: u8,
    conv2_output_0: u8,
    conv3_output_0: u8,
    fc1_output_0: u8,
    fc2_output_0: u8,
    conv1_weights_0: u8,
    conv2_weights_0: u8,
    conv3_weights_0: u8,
    fc1_weights_0: u8,
    fc2_weights_0: u8,
    multiplier_conv1: &[u64],
    multiplier_conv2: &[u64],
    multiplier_conv3: &[u64],
    multiplier_fc1: &[u64],
    multiplier_fc2: &[u64],
) -> (r: LenetU8Trace)
    requires
        lenet_u8_ok(
            t4(x@), t4(conv1_kernel@), t4(conv2_kernel@), t4(conv3_kernel@), t2(fc1_weight@), t2(fc2_weight@),
            x_0, conv1_output_0, conv2_output_0, conv3_output_0, fc1_output_0, fc2_output_0,
            conv1_weights_0, conv2_weights_0, conv3_weights_0, fc1_weights_0, fc2_weights_0,
            multiplier_conv1@, multiplier_conv2@, multiplier_conv3@, multiplier_fc1@, multiplier_fc2@,
        ),
    ensures
        r.shows(lenet_u8_view(
            t4(x@), t4(conv1_kernel@), t4(conv2_kernel@), t4(conv3_kernel@), t2(fc1_weight@), t2(fc2_weight@),
            x_0, conv1_output_0, conv2_output_0, conv3_output_0, fc1_output_0, fc2_output_0,
            conv1_weights_0, conv2_weights_0, conv3_weights_0, fc1_weights_0, fc2_weights_0,
            multiplier_conv1@, multiplier_conv2@, multiplier_conv3@, multiplier_fc1@, multiplier_fc2@,
        )),
        r.conv1@.len() == x@.len(),
        r.conv2@.len() == x@.len(),
        r.avgpool2@.len() == x@.len(),
        r.conv3@.len() == x@.len(),
        r.fc1@.len() == x@.len(),
{
    let ghost xs = t4(x@);
    let ghost k1 = t4(conv1_kernel@);
    let ghost k2 = t4(conv2_kernel@);
    let ghost k3 = t4(conv3_kernel@);

    let mut conv1_output = conv_layer_u8(x, conv1_kernel, x_0, conv1_weights_0, conv1_output_0, multiplier_conv1);
    let conv1_raw = copy4(&conv1_output);
    proof {
        lemma_shaped_bounded_by_first(
            t4(conv1_output@), xs.len(), k1.len(),
            (xs[0][0].len() - k1[0][0].len() + 1) as nat,
            (xs[0][0][0].len() - k1[0][0][0].len() + 1) as nat,
        );
    }
    let _ = relu4d_u8(&mut conv1_output, conv1_output_0);
    let avg_pool1_output = avg_pool_scala_u8(&conv1_output, 2);

    let ghost p1 = t4(avg_pool1_output@);
    let mut conv2_output = conv_layer_u8(&avg_pool1_output, conv2_kernel, conv1_output_0, conv2_weights_0, conv2_output_0, multiplier_conv2);
    let conv2_raw = copy4(&conv2_output);
    proof {
        lemma_shaped_bounded_by_first(
            t4(conv2_output@), p1.len(), k2.len(),
            (p1[0][0].len() - k2[0][0].len() + 1) as nat,
            (p1[0][0][0].len() - k2[0][0][0].len() + 1) as nat,
        );
    }
    let _ = relu4d_u8(&mut conv2_output, conv2_output_0);
    let avg_pool2_output = avg_pool_scala_u8(&conv2_output, 2);

    let ghost p2 = t4(avg_pool2_output@);
    let mut conv3_output = conv_layer_u8(&avg_pool2_output, conv3_kernel, conv2_output_0, conv3_weights_0, conv3_output_0, multiplier_conv3);
    let conv3_raw = copy4(&conv3_output);
    let ghost c3 = t4(conv3_output@);
    proof {
        let h = (p2[0][0].len() - k3[0][0].len() + 1) as nat;
        let w = (p2[0][0][0].len() - k3[0][0][0].len() + 1) as nat;
        lemma_shaped_bounded_by_first(c3, p2.len(), k3.len(), h, w);
        lemma_relu_u8_t4_shaped(c3, conv3_output_0, p2.len(), k3.len(), h, w);
    }
    let _ = relu4d_u8(&mut conv3_output, conv3_output_0);
    let transformed_conv3_output = flatten(&conv3_output);

    let mut fc1_output = fc_layer_u8(&transformed_conv3_output, fc1_weight, conv3_output_0, fc1_weights_0, fc1_output_0, multiplier_fc1);
    let fc1_raw = copy2(&fc1_output);
    relu2d_u8(&mut fc1_output, fc1_output_0);
    let fc2_output = fc_layer_u8(&fc1_output, fc2_weight, fc1_output_0, fc2_weights_0, fc2_output_0, multiplier_fc2);
    LenetU8Trace {
        conv1: conv1_raw,
        conv2: conv2_raw,
        avgpool2: avg_pool2_output,
        conv3: conv3_raw,
        fc1: fc1_raw,
        output: fc2_output,
    }
}

/// The quantized LeNet on a batch of images `x` with fixed-point multipliers (the real
/// multipliers times 2^22), one per output channel of each layer: the stages of
/// `lenet_u8_view`, returning one row of `fc2_weight.len()` outputs per image.
pub fn lenet_circuit_forward_u8(
    x: Vec<Vec<Vec<Vec<u8>>>>,
    conv1_kernel: Vec<Vec<Vec<Vec<u8>>>>,
    conv2_kernel: Vec<Vec<Vec<Vec<u8>>>>,
    conv3_kernel: Vec<Vec<Vec<Vec<u8>>>>,
    fc1_weight: Vec<Vec<u8>>,
    fc2_weight: Vec<Vec<u8>>,
    x_0: u8,
    conv1_output_0: u8,
    conv2_output_0: u8,
    conv3_output_0: u8,
    fc1_output_0: u8,
    fc2_output_0: u8,
    conv1_weights_0: u8,
    conv2_weights_0: u8,
    conv3_weights_0: u8,
    fc1_weights_0: u8,
    fc2_weights_0: u8,
    multiplier_conv1: Vec<u64>,
    multiplier_conv2: Vec<u64>,
    multiplier_conv3: Vec<u64>,
    multiplier_fc1: Vec<u64>,
    multiplier_fc2: Vec<u64>,
) -> (out: Vec<Vec<u8>>)
    requires
        lenet_u8_ok(
            t4(x@), t4(conv1_kernel@), t4(conv2_kernel@), t4(conv3_kernel@), t2(fc1_weight@), t2(fc2_weight@),
            x_0, conv1_output_0, conv2_output_0, conv3_output_0, fc1_output_0, fc2_output_0,
            conv1_weights_0, conv2_weights_0, conv3_weights_0, fc1_weights_0, fc2_weights_0,
            multiplier_conv1@, multiplier_conv2@, multiplier_conv3@, multiplier_fc1@, multiplier_fc2@,
        ),
    ensures
        t2(out@) == lenet_u8_view(
            t4(x@), t4(conv1_kernel@), t4(conv2_kernel@), t4(conv3_kernel@), t2(fc1_weight@), t2(fc2_weight@),
            x_0, conv1_output_0, conv2_output_0, conv3_output_0, fc1_output_0, fc2_output_0,
            conv1_weights_0, conv2_weights_0, conv3_weights_0, fc1_weights_0, fc2_weights_0,
            multiplier_conv1@, multiplier_conv2@, multiplier_conv3@, multiplier_fc1@, multiplier_fc2@,
        ).output,
{
    let r = lenet_u8_run(
        &x, &conv1_kernel, &conv2_kernel, &conv3_kernel, &fc1_weight, &fc2_weight,
        x_0, conv1_output_0, conv2_output_0, conv3_output_0, fc1_output_0, fc2_output_0,
        conv1_weights_0, conv2_weights_0, conv3_weights_0, fc1_weights_0, fc2_weights_0,
        multiplier_conv1.as_slice(), multiplier_conv2.as_slice(), multiplier_conv3.as_slice(),
        multiplier_fc1.as_slice(), multiplier_fc2.as_slice(),
    );
    r.output
}

// ---------------------------------------------------------------------------
// Checking a run against expected intermediate results.

/// The positions `i < n`, in increasing order, at which `a` and `b` differ.
pub open spec fn differing<T>(a: Seq<T>, b: Seq<T>, n: int) -> Seq<usize>
    decreases n,
{
    if n <= 0 {
        Seq::empty()
    } else {
        let r = differing(a, b, n - 1);
        if a[n - 1] != b[n - 1] {
            r.push((n - 1) as usize)
        } else {
            r
        }
    }
}

/// The list of differing positions is exact: it holds, in increasing order, each
/// position below `n` at which `a` and `b` differ, and no other.
pub proof fn lemma_differing_exact<T>(a: Seq<T>, b: Seq<T>, n: int)
    requires
        0 <= n <= usize::MAX + 1,
    ensures
        forall|j: int| 0 <= j < differing(a, b, n).len() ==>
            #[trigger] differing(a, b, n)[j] < n && a[differing(a, b, n)[j] as int] != b[differing(a, b, n)[j] as int],
        forall|p: int, q: int| 0 <= p < q < differing(a, b, n).len() ==>
            #[trigger] differing(a, b, n)[p] < #[trigger] differing(a, b, n)[q],
        forall|i: int| 0 <= i < n && a[i] != b[i] ==> #[trigger] differing(a, b, n).contains(i as usize),
    decreases n,
{
    if n > 0 {
        lemma_differing_exact(a, b, n - 1);
        let r = differing(a, b, n - 1);
        if a[n - 1] != b[n - 1] {
            let s = r.push((n - 1) as usize);
            assert(s[s.len() - 1] == (n - 1) as usize);
            assert forall|i: int| 0 <= i < n && a[i] != b[i] implies #[trigger] s.contains(i as usize) by {
                if i < n - 1 {
                    assert(r.contains(i as usize));
                    let k = choose|k: int| 0 <= k < r.len() && r[k] == i as usize;
                    assert(s[k] == i as usize);
                } else {
                    assert(s[s.len() - 1] == i as usize);
                }
            }
        }
    }
}

fn same_row(a: &Vec<u8>, b: &Vec<u8>) -> (r: bool)
    ensures
        r == (a@ == b@),
{
    if a.len() != b.len() {
        return false;
    }
    let n = a.len();
    for i in 0..n
        invariant
            n == a@.len(),
            n == b@.len(),
            forall|j: int| 0 <= j < i ==> a@[j] == b@[j],
    {
        if a[i] != b[i] {
            return false;
        }
    }
    assert(a@ =~= b@);
    true
}

fn same_matrix(a: &Vec<Vec<u8>>, b: &Vec<Vec<u8>>) -> (r: bool)
    ensures
        r == (t2(a@) == t2(b@)),
{
    if a.len() != b.len() {
        assert(t2(a@).len() != t2(b@).len());
        return false;
    }
    let n = a.len();
    for i in 0..n
        invariant
            n == a@.len(),
            n == b@.len(),
            forall|j: int| 0 <= j < i ==> (#[trigger] a@[j])@ == b@[j]@,
    {
        if !same_row(&a[i], &b[i]) {
            assert(t2(a@)[i as int] != t2(b@)[i as int]);
            return false;
        }
    }
    assert(t2(a@) =~= t2(b@));
    true
}

fn same_t3(a: &Vec<Vec<Vec<u8>>>, b: &Vec<Vec<Vec<u8>>>) -> (r: bool)
    ensures
        r == (crate::tensor::t3(a@) == crate::tensor::t3(b@)),
{
    if a.len() != b.len() {
        assert(crate::tensor::t3(a@).len() != crate::tensor::t3(b@).len());
        return false;
    }
    let n = a.len();
    for i in 0..n
        invariant
            n == a@.len(),
            n == b@.len(),
            forall|j: int| 0 <= j < i ==> t2((#[trigger] a@[j])@) == t2(b@[j]@),
    {
        if !same_matrix(&a[i], &b[i]) {
            assert(crate::tensor::t3(a@)[i as int] != crate::tensor::t3(b@)[i as int]);
            return false;
        }
    }
    assert(crate::tensor::t3(a@) =~= crate::tensor::t3(b@));
    true
}

/// The images among the first `n` on which two batches of feature maps differ.
pub fn mismatches4(computed: &Vec<Vec<Vec<Vec<u8>>>>, truth: &Vec<Vec<Vec<Vec<u8>>>>, n: usize) -> (r: Vec<usize>)
    requires
        n <= computed@.len(),
        n <= truth@.len(),
    ensures
        r@ == differing(t4(computed@), t4(truth@), n as int),
{
    let mut r: Vec<usize> = Vec::new();
    for i in 0..n
        invariant
            n <= computed@.len(),
            n <= truth@.len(),
            r@ == differing(t4(computed@), t4(truth@), i as int),
    {
        if !same_t3(&computed[i], &truth[i]) {
            r.push(i);
        }
    }
    r
}

/// The rows among the first `n` on which two matrices differ.
pub fn mismatches2(computed: &Vec<Vec<u8>>, truth: &Vec<Vec<u8>>, n: usize) -> (r: Vec<usize>)
    requires
        n <= computed@.len(),
        n <= truth@.len(),
    ensures
        r@ == differing(t2(computed@), t2(truth@), n as int),
{
    let mut r: Vec<usize> = Vec::new();
    for i in 0..n
        invariant
            n <= computed@.len(),
            n <= truth@.len(),
            r@ == differing(t2(computed@), t2(truth@), i as int),
    {
        if !same_row(&computed[i], &truth[i]) {
            r.push(i);
        }
    }
    r
}

/// A run of the quantized network and, for each checked stage, the images on which it
/// differs from the expected result.
pub struct LenetU8Check {
    pub trace: LenetU8Trace,
    pub conv1_mismatch: Vec<usize>,
    pub conv2_mismatch: Vec<usize>,
    pub avgpool2_mismatch: Vec<usize>,
    pub conv3_mismatch: Vec<usize>,
    pub fc1_mismatch: Vec<usize>,
}

/// Runs the quantized LeNet as `lenet_circuit_forward_u8` does and compares, image by
/// image, the first three convolutions (before their ReLU), the second pooling and the
/// first fully connected layer (before its ReLU) with the expected results.
pub fn lenet_circuit_forward_u8_helper(
    x: Vec<Vec<Vec<Vec<u8>>>>,
    conv1_kernel: Vec<Vec<Vec<Vec<u8>>>>,
    conv2_kernel: Vec<Vec<Vec<Vec<u8>>>>,
    conv3_kernel: Vec<Vec<Vec<Vec<u8>>>>,
    fc1_weight: Vec<Vec<u8>>,
    fc2_weight: Vec<Vec<u8>>,
    x_0: u8,
    conv1_output_0: u8,
    conv2_output_0: u8,
    conv3_output_0: u8,
    fc1_output_0: u8,
    fc2_output_0: u8,
    conv1_weights_0: u8,
    conv2_weights_0: u8,
    conv3_weights_0: u8,
    fc1_weights_0: u8,
    fc2_weights_0: u8,
    multiplier_conv1: Vec<u64>,
    multiplier_conv2: Vec<u64>,
    multiplier_conv3: Vec<u64>,
    multiplier_fc1: Vec<u64>,
    multiplier_fc2: Vec<u64>,
    true_conv1_output: Vec<Vec<Vec<Vec<u8>>>>,
    true_conv2_output: Vec<Vec<Vec<Vec<u8>>>>,
    true_conv3_output: Vec<Vec<Vec<Vec<u8>>>>,
    true_fc1_output: Vec<Vec<u8>>,
    true_fc2_output: Vec<Vec<u8>>,
    true_avgpool2_output: Vec<Vec<Vec<Vec<u8>>>>,
) -> (r: LenetU8Check)
    requires
        lenet_u8_ok(
            t4(x@), t4(conv1_kernel@), t4(conv2_kernel@), t4(conv3_kernel@), t2(fc1_weight@), t2(fc2_weight@),
            x_0, conv1_output_0, conv2_output_0, conv3_output_0, fc1_output_0, fc2_output_0,
            conv1_weights_0, conv2_weights_0, conv3_weights_0, fc1_weights_0, fc2_weights_0,
            multiplier_conv1@, multiplier_conv2@, multiplier_conv3@, multiplier_fc1@, multiplier_fc2@,
        ),
        x@.len() <= true_conv1_output@.len(),
        x@.len() <= true_conv2_output@.len(),
        x@.len() <= true_conv3_output@.len(),
        x@.len() <= true_fc1_output@.len(),
        x@.len() <= true_avgpool2_output@.len(),
    ensures
        ({
            let v = lenet_u8_view(
                t4(x@), t4(conv1_kernel@), t4(conv2_kernel@), t4(conv3_kernel@), t2(fc1_weight@), t2(fc2_weight@),
                x_0, conv1_output_0, conv2_output_0, conv3_output_0, fc1_output_0, fc2_output_0,
                conv1_weights_0, conv2_weights_0, conv3_weights_0, fc1_weights_0, fc2_weights_0,
                multiplier_conv1@, multiplier_conv2@, multiplier_conv3@, multiplier_fc1@, multiplier_fc2@,
            );
            let n = x@.len() as int;
            &&& r.trace.shows(v)
            &&& r.conv1_mismatch@ == differing(v.conv1, t4(true_conv1_output@), n)
            &&& r.conv2_mismatch@ == differing(v.conv2, t4(true_conv2_output@), n)
            &&& r.avgpool2_mismatch@ == differing(v.pool2, t4(true_avgpool2_output@), n)
            &&& r.conv3_mismatch@ == differing(v.conv3, t4(true_conv3_output@), n)
            &&& r.fc1_mismatch@ == differing(v.fc1, t2(true_fc1_output@), n)
        }),
{
    let trace = lenet_u8_run(
        &x, &conv1_kernel, &conv2_kernel, &conv3_kernel, &fc1_weight, &fc2_weight,
        x_0, conv1_output_0, conv2_output_0, conv3_output_0, fc1_output_0, fc2_output_0,
        conv1_weights_0, conv2_weights_0, conv3_weights_0, fc1_weights_0, fc2_weights_0,
        multiplier_conv1.as_slice(), multiplier_conv2.as_slice(), multiplier_conv3.as_slice(),
        multiplier_fc1.as_slice(), multiplier_fc2.as_slice(),
    );
    let n = x.len();
    let conv1_mismatch = mismatches4(&trace.conv1, &true_conv1_output, n);
    let conv2_mismatch = mismatches4(&trace.conv2, &true_conv2_output, n);
    let avgpool2_mismatch = mismatches4(&trace.avgpool2, &true_avgpool2_output, n);
    let conv3_mismatch = mismatches4(&trace.conv3, &true_conv3_output, n);
    let fc1_mismatch = mismatches2(&trace.fc1, &true_fc1_output, n);
    LenetU8Check { trace, conv1_mismatch, conv2_mismatch, avgpool2_mismatch, conv3_mismatch, fc1_mismatch }
}

// ---------------------------------------------------------------------------
// Each image of a batch goes through the quantized network on its own.

proof fn lemma_conv_stage_u8_image(
    v: Seq<Seq<Seq<Seq<u8>>>>,
    w: Seq<Seq<Seq<Seq<u8>>>>,
    k: Seq<Seq<Seq<Seq<u8>>>>,
    v_0: u8,
    k_0: u8,
    out_0: u8,
    m: Seq<u64>,
    b: int,
)
    requires
        conv_stage_u8_ok(v, k, v_0, k_0, out_0, m),
        0 <= b < v.len(),
        w.len() == 1,
        w[0] == v[b],
        w[0].len() > 0,
        w[0][0].len() == v[0][0].len(),
        w[0][0][0].len() == v[0][0][0].len(),
    ensures
        conv_stage_u8_ok(w, k, v_0, k_0, out_0, m),
        conv_stage_u8(w, k, v_0, k_0, out_0, m)[0] == conv_stage_u8(v, k, v_0, k_0, out_0, m)[b],
        shaped4(
            conv_stage_u8(v, k, v_0, k_0, out_0, m),
            v.len(),
            k.len(),
            (v[0][0].len() - k[0][0].len() + 1) as nat,
            (v[0][0][0].len() - k[0][0][0].len() + 1) as nat,
        ),
        shaped4(
            conv_stage_u8(w, k, v_0, k_0, out_0, m),
            1,
            k.len(),
            (v[0][0].len() - k[0][0].len() + 1) as nat,
            (v[0][0][0].len() - k[0][0][0].len() + 1) as nat,
        ),
{
    let hh = (v[0][0].len() - k[0][0].len() + 1) as nat;
    let ww = (v[0][0][0].len() - k[0][0][0].len() + 1) as nat;
    let zv = conv_zeros(v, k, 0u8);
    let zw = conv_zeros(w, k, 0u8);
    let rv = conv_zeros(v, k, 0u32);
    let rw = conv_zeros(w, k, 0u32);
    assert(zw == filled4(0u8, 1, k.len(), hh, ww));
    assert(zv == filled4(0u8, v.len(), k.len(), hh, ww));
    assert(zw[0] == zv[b]);
    assert(rw[0] == rv[b]);
    assert(out_rows(w, k) == out_rows(v, k));
    assert(out_cols(w, k) == out_cols(v, k));
    assert(q_image_ok(zv[b], rv[b], v[b], k, out_rows(v, k), out_cols(v, k), v_0, k_0, out_0, m));
    lemma_filled4_shaped(0u8, v.len(), k.len(), hh, ww);
    lemma_filled4_shaped(0u8, 1, k.len(), hh, ww);
    lemma_q_batch_val_shaped(zv, v, k, out_rows(v, k), out_cols(v, k), v_0, k_0, out_0, m, v.len(), k.len(), hh, ww);
    lemma_q_batch_val_shaped(zw, w, k, out_rows(w, k), out_cols(w, k), v_0, k_0, out_0, m, 1, k.len(), hh, ww);
}

proof fn lemma_pool_stage_u8_image(r: Seq<Seq<Seq<Seq<u8>>>>, s: Seq<Seq<Seq<Seq<u8>>>>, b: int, c: nat, h: nat, w: nat)
    requires
        pool_stage_u8_ok(r),
        shaped4(r, r.len(), c, h, w),
        shaped4(s, 1, c, h, w),
        c > 0,
        h > 0,
        0 <= b < r.len(),
        s[0] == r[b],
    ensures
        pool_stage_u8_ok(s),
        pool_stage_u8(s)[0] == pool_stage_u8(r)[b],
        shaped4(pool_stage_u8(r), r.len(), c, h / 2, w / 2),
        shaped4(pool_stage_u8(s), 1, c, h / 2, w / 2),
{
    assert(r[0].len() == c && r[0][0].len() == h && r[0][0][0].len() == w);
    assert(s[0].len() == c && s[0][0].len() == h && s[0][0][0].len() == w);
    let ov = pool_out_shape(r, 2);
    let os = pool_out_shape(s, 2);
    assert(ov == filled4(0u8, r.len(), c, h / 2, w / 2));
    assert(os == filled4(0u8, 1, c, h / 2, w / 2));
    assert(os[0] == ov[b]);
    assert(pool_image_ok(ov[b], r[b], c as int, h as int / 2, w as int / 2, 2));
    lemma_filled4_shaped(0u8, r.len(), c, h / 2, w / 2);
    lemma_filled4_shaped(0u8, 1, c, h / 2, w / 2);
    lemma_pool_batch_avg_shaped(ov, r, c as int, h as int / 2, w as int / 2, 2, r.len(), c, h / 2, w / 2);
    lemma_pool_batch_avg_shaped(os, s, c as int, h as int / 2, w as int / 2, 2, 1, c, h / 2, w / 2);
}

proof fn lemma_flatten4_image<T>(r: Seq<Seq<Seq<Seq<T>>>>, s: Seq<Seq<Seq<Seq<T>>>>, b: int, c: nat, h: nat, w: nat)
    requires
        shaped4(r, r.len(), c, h, w),
        shaped4(s, 1, c, h, w),
        c > 0,
        h > 0,
        0 <= b < r.len(),
        s[0] == r[b],
    ensures
        flatten4(s).len() == 1,
        flatten4(s)[0] == flatten4(r)[b],
        flat_fits(s) == flat_fits(r),
{
    assert(r[0].len() == c && r[0][0].len() == h && r[0][0][0].len() == w);
    assert(s[0].len() == c && s[0][0].len() == h && s[0][0][0].len() == w);
    assert(flatten4(s)[0] =~= flatten4(r)[b]);
}

proof fn lemma_fc_batch_u8_image(
    xs: Seq<Seq<u8>>,
    ys: Seq<Seq<u8>>,
    w: Seq<Seq<u8>>,
    x_0: u8,
    w_0: u8,
    out_0: u8,
    m: Seq<u64>,
    b: int,
)
    requires
        0 <= b < xs.len(),
        ys.len() == 1,
        ys[0] == xs[b],
    ensures
        fc_batch_u8(ys, w, x_0, w_0, out_0, m).len() == 1,
        fc_batch_u8(ys, w, x_0, w_0, out_0, m)[0] == fc_batch_u8(xs, w, x_0, w_0, out_0, m)[b],
        fc_batch_u8_ok(xs, w, x_0, w_0, out_0, m) ==> fc_batch_u8_ok(ys, w, x_0, w_0, out_0, m),
{
    if fc_batch_u8_ok(xs, w, x_0, w_0, out_0, m) {
        assert(fc_u8_ok(xs[b], w, w.len() as int, x_0, w_0, out_0, m));
    }
}

/// The quantized network treats each image of a batch on its own: an image with the
/// height and width of the first image of a batch that the network accepts is accepted
/// alone, and its output row is the row the batch gives it.
pub proof fn lemma_lenet_u8_per_image_same_size(
    x: Seq<Seq<Seq<Seq<u8>>>>,
    k1: Seq<Seq<Seq<Seq<u8>>>>,
    k2: Seq<Seq<Seq<Seq<u8>>>>,
    k3: Seq<Seq<Seq<Seq<u8>>>>,
    f1: Seq<Seq<u8>>,
    f2: Seq<Seq<u8>>,
    x_0: u8,
    conv1_output_0: u8,
    conv2_output_0: u8,
    conv3_output_0: u8,
    fc1_output_0: u8,
    fc2_output_0: u8,
    conv1_weights_0: u8,
    conv2_weights_0: u8,
    conv3_weights_0: u8,
    fc1_weights_0: u8,
    fc2_weights_0: u8,
    m_conv1: Seq<u64>,
    m_conv2: Seq<u64>,
    m_conv3: Seq<u64>,
    m_fc1: Seq<u64>,
    m_fc2: Seq<u64>,
    b: int,
)
    requires
        lenet_u8_ok(
            x, k1, k2, k3, f1, f2, x_0, conv1_output_0, conv2_output_0, conv3_output_0, fc1_output_0,
            fc2_output_0, conv1_weights_0, conv2_weights_0, conv3_weights_0, fc1_weights_0, fc2_weights_0,
            m_conv1, m_conv2, m_conv3, m_fc1, m_fc2,
        ),
        0 <= b < x.len(),
        x[b][0].len() == x[0][0].len(),
        x[b][0][0].len() == x[0][0][0].len(),
    ensures
        lenet_u8_ok(
            seq![x[b]], k1, k2, k3, f1, f2, x_0, conv1_output_0, conv2_output_0, conv3_output_0, fc1_output_0,
            fc2_output_0, conv1_weights_0, conv2_weights_0, conv3_weights_0, fc1_weights_0, fc2_weights_0,
            m_conv1, m_conv2, m_conv3, m_fc1, m_fc2,
        ),
        lenet_u8_view(
            seq![x[b]], k1, k2, k3, f1, f2, x_0, conv1_output_0, conv2_output_0, conv3_output_0, fc1_output_0,
            fc2_output_0, conv1_weights_0, conv2_weights_0, conv3_weights_0, fc1_weights_0, fc2_weights_0,
            m_conv1, m_conv2, m_conv3, m_fc1, m_fc2,
        ).output[0] == lenet_u8_view(
            x, k1, k2, k3, f1, f2, x_0, conv1_output_0, conv2_output_0, conv3_output_0, fc1_output_0,
            fc2_output_0, conv1_weights_0, conv2_weights_0, conv3_weights_0, fc1_weights_0, fc2_weights_0,
            m_conv1, m_conv2, m_conv3, m_fc1, m_fc2,
        ).output[b],
{
    let w = seq![x[b]];
    let v = lenet_u8_view(
        x, k1, k2, k3, f1, f2, x_0, conv1_output_0, conv2_output_0, conv3_output_0, fc1_output_0,
        fc2_output_0, conv1_weights_0, conv2_weights_0, conv3_weights_0, fc1_weights_0, fc2_weights_0,
        m_conv1, m_conv2, m_conv3, m_fc1, m_fc2,
    );
    let u = lenet_u8_view(
        w, k1, k2, k3, f1, f2, x_0, conv1_output_0, conv2_output_0, conv3_output_0, fc1_output_0,
        fc2_output_0, conv1_weights_0, conv2_weights_0, conv3_weights_0, fc1_weights_0, fc2_weights_0,
        m_conv1, m_conv2, m_conv3, m_fc1, m_fc2,
    );
    let n = x.len();

    // image `b` has a channel: the first window of the first kernel reads it
    let z1 = conv_zeros(x, k1, 0u8);
    let y1 = conv_zeros(x, k1, 0u32);
    let hc = out_rows(x, k1);
    let wc = out_cols(x, k1);
    assert(q_image_ok(z1[b], y1[b], x[b], k1, hc, wc, x_0, conv1_weights_0, conv1_output_0, m_conv1));
    assert(q_plane_ok(z1[b][0], y1[b][0], x[b], k1[0], hc, wc, x_0, conv1_weights_0, conv1_output_0, m_conv1[0]));
    assert(q_row_ok(z1[b][0][0].len() as int, y1[b][0][0].len() as int, x[b], k1[0], 0, wc, x_0, conv1_weights_0, conv1_output_0, m_conv1[0]));
    assert(conv_q_ok(x[b], k1[0], 0, 0, x_0, conv1_weights_0, conv1_output_0, m_conv1[0]));
    assert(in_window(x[b], k1[0], 0, 0, 0, 0, 0));

    // first convolution, ReLU and pooling
    let h1 = (x[0][0].len() - k1[0][0].len() + 1) as nat;
    let w1 = (x[0][0][0].len() - k1[0][0][0].len() + 1) as nat;
    lemma_conv_stage_u8_image(x, w, k1, x_0, conv1_weights_0, conv1_output_0, m_conv1, b);
    lemma_relu_u8_t4_shaped(v.conv1, conv1_output_0, n, k1.len(), h1, w1);
    lemma_relu_u8_t4_shaped(u.conv1, conv1_output_0, 1, k1.len(), h1, w1);
    let r1 = relu_u8_t4(v.conv1, conv1_output_0);
    let s1 = relu_u8_t4(u.conv1, conv1_output_0);
    assert(s1[0] == r1[b]);
    lemma_pool_stage_u8_image(r1, s1, b, k1.len(), h1, w1);

    // second convolution, ReLU and pooling
    let p1 = v.pool1;
    let q1 = u.pool1;
    assert(p1[0].len() == k1.len() && p1[0][0].len() == h1 / 2 && p1[0][0][0].len() == w1 / 2);
    assert(q1[0].len() == k1.len() && q1[0][0].len() == h1 / 2 && q1[0][0][0].len() == w1 / 2);
    let h2 = (p1[0][0].len() - k2[0][0].len() + 1) as nat;
    let w2 = (p1[0][0][0].len() - k2[0][0][0].len() + 1) as nat;
    lemma_conv_stage_u8_image(p1, q1, k2, conv1_output_0, conv2_weights_0, conv2_output_0, m_conv2, b);
    lemma_relu_u8_t4_shaped(v.conv2, conv2_output_0, n, k2.len(), h2, w2);
    lemma_relu_u8_t4_shaped(u.conv2, conv2_output_0, 1, k2.len(), h2, w2);
    let r2 = relu_u8_t4(v.conv2, conv2_output_0);
    let s2 = relu_u8_t4(u.conv2, conv2_output_0);
    assert(s2[0] == r2[b]);
    lemma_pool_stage_u8_image(r2, s2, b, k2.len(), h2, w2);

    // third convolution, ReLU and flattening
    let p2 = v.pool2;
    let q2 = u.pool2;
    assert(p2[0].len() == k2.len() && p2[0][0].len() == h2 / 2 && p2[0][0][0].len() == w2 / 2);
    assert(q2[0].len() == k2.len() && q2[0][0].len() == h2 / 2 && q2[0][0][0].len() == w2 / 2);
    let h3 = (p2[0][0].len() - k3[0][0].len() + 1) as nat;
    let w3 = (p2[0][0][0].len() - k3[0][0][0].len() + 1) as nat;
    lemma_conv_stage_u8_image(p2, q2, k3, conv2_output_0, conv3_weights_0, conv3_output_0, m_conv3, b);
    lemma_relu_u8_t4_shaped(v.conv3, conv3_output_0, n, k3.len(), h3, w3);
    lemma_relu_u8_t4_shaped(u.conv3, conv3_output_0, 1, k3.len(), h3, w3);
    let r3 = relu_u8_t4(v.conv3, conv3_output_0);
    let s3 = relu_u8_t4(u.conv3, conv3_output_0);
    assert(s3[0] == r3[b]);
    lemma_flatten4_image(r3, s3, b, k3.len(), h3, w3);
    assert(v.conv3[0].len() == k3.len() && v.conv3[0][0].len() == h3 && v.conv3[0][0][0].len() == w3);
    assert(u.conv3[0].len() == k3.len() && u.conv3[0][0].len() == h3 && u.conv3[0][0][0].len() == w3);
    assert(flat_fits(u.conv3) == flat_fits(v.conv3));

    // the fully connected layers
    lemma_fc_batch_u8_image(v.features, u.features, f1, conv3_output_0, fc1_weights_0, fc1_output_0, m_fc1, b);
    let g = relu_u8_mat(v.fc1, fc1_output_0);
    let g2 = relu_u8_mat(u.fc1, fc1_output_0);
    assert(g2[0] == g[b]);
    lemma_fc_batch_u8_image(g, g2, f2, fc1_output_0, fc2_weights_0, fc2_output_0, m_fc2, b);
}

// ---------------------------------------------------------------------------
// Each image of a batch goes through the plain network on its own.

proof fn lemma_conv_stage_i8_image(v: Seq<Seq<Seq<Seq<i8>>>>, w: Seq<Seq<Seq<Seq<i8>>>>, k: Seq<Seq<Seq<Seq<i8>>>>, b: int)
    requires
        conv_stage_i8_ok(v, k),
        0 <= b < v.len(),
        w.len() == 1,
        w[0] == v[b],
        w[0].len() > 0,
        w[0][0].len() == v[0][0].len(),
        w[0][0][0].len() == v[0][0][0].len(),
    ensures
        conv_stage_i8_ok(w, k),
        conv_stage_i8(w, k)[0] == conv_stage_i8(v, k)[b],
        shaped4(
            conv_stage_i8(v, k),
            v.len(),
            k.len(),
            (v[0][0].len() - k[0][0].len() + 1) as nat,
            (v[0][0][0].len() - k[0][0][0].len() + 1) as nat,
        ),
        shaped4(
            conv_stage_i8(w, k),
            1,
            k.len(),
            (v[0][0].len() - k[0][0].len() + 1) as nat,
            (v[0][0][0].len() - k[0][0][0].len() + 1) as nat,
        ),
{
    let hh = (v[0][0].len() - k[0][0].len() + 1) as nat;
    let ww = (v[0][0][0].len() - k[0][0][0].len() + 1) as nat;
    let zv = conv_zeros(v, k, 0i8);
    let zw = conv_zeros(w, k, 0i8);
    assert(zw == filled4(0i8, 1, k.len(), hh, ww));
    assert(zv == filled4(0i8, v.len(), k.len(), hh, ww));
    assert(zw[0] == zv[b]);
    assert(out_rows(w, k) == out_rows(v, k));
    assert(out_cols(w, k) == out_cols(v, k));
    assert(conv_image_i8_ok(zv[b], v[b], k, out_rows(v, k), out_cols(v, k)));
    lemma_filled4_shaped(0i8, v.len(), k.len(), hh, ww);
    lemma_filled4_shaped(0i8, 1, k.len(), hh, ww);
    lemma_conv_batch_i8_shaped(zv, v, k, out_rows(v, k), out_cols(v, k), v.len(), k.len(), hh, ww);
    lemma_conv_batch_i8_shaped(zw, w, k, out_rows(w, k), out_cols(w, k), 1, k.len(), hh, ww);
}

proof fn lemma_pool_stage_i8_image(r: Seq<Seq<Seq<Seq<i8>>>>, s: Seq<Seq<Seq<Seq<i8>>>>, b: int, c: nat, h: nat, w: nat)
    requires
        pool_stage_i8_ok(r),
        shaped4(r, r.len(), c, h, w),
        shaped4(s, 1, c, h, w),
        c > 0,
        h > 0,
        0 <= b < r.len(),
        s[0] == r[b],
    ensures
        pool_stage_i8_ok(s),
        pool_stage_i8(s)[0] == pool_stage_i8(r)[b],
        shaped4(pool_stage_i8(r), r.len(), c, h / 2, w / 2),
        shaped4(pool_stage_i8(s), 1, c, h / 2, w / 2),
{
    assert(r[0].len() == c && r[0][0].len() == h && r[0][0][0].len() == w);
    assert(s[0].len() == c && s[0][0].len() == h && s[0][0][0].len() == w);
    let ov = pool_out_shape_i8(r, 2);
    let os = pool_out_shape_i8(s, 2);
    assert(ov == filled4(0i8, r.len(), c, h / 2, w / 2));
    assert(os == filled4(0i8, 1, c, h / 2, w / 2));
    assert(os[0] == ov[b]);
    assert(pool_image_i8_ok(ov[b], r[b], c as int, h as int / 2, w as int / 2, 2));
    lemma_filled4_shaped(0i8, r.len(), c, h / 2, w / 2);
    lemma_filled4_shaped(0i8, 1, c, h / 2, w / 2);
    lemma_pool_batch_avg_i8_shaped(ov, r, c as int, h as int / 2, w as int / 2, 2, r.len(), c, h / 2, w / 2);
    lemma_pool_batch_avg_i8_shaped(os, s, c as int, h as int / 2, w as int / 2, 2, 1, c, h / 2, w / 2);
}

proof fn lemma_fc_batch_i8_image(xs: Seq<Seq<i8>>, ys: Seq<Seq<i8>>, w: Seq<Seq<i8>>, b: int)
    requires
        0 <= b < xs.len(),
        ys.len() == 1,
        ys[0] == xs[b],
    ensures
        fc_batch_i8(ys, w).len() == 1,
        fc_batch_i8(ys, w)[0] == fc_batch_i8(xs, w)[b],
        fc_batch_i8_ok(xs, w) ==> fc_batch_i8_ok(ys, w),
{
    if fc_batch_i8_ok(xs, w) {
        assert(mat_vec_i8_ok(xs[b], w, w.len() as int));
    }
}

/// The plain network treats each image of a batch on its own: an image with the
/// height and width of the first image of a batch that the network accepts is accepted
/// alone, and its output row is the row the batch gives it.
pub proof fn lemma_lenet_i8_per_image_same_size(
    x: Seq<Seq<Seq<Seq<i8>>>>,
    k1: Seq<Seq<Seq<Seq<i8>>>>,
    k2: Seq<Seq<Seq<Seq<i8>>>>,
    k3: Seq<Seq<Seq<Seq<i8>>>>,
    f1: Seq<Seq<i8>>,
    f2: Seq<Seq<i8>>,
    b: int,
)
    requires
        lenet_i8_ok(x, k1, k2, k3, f1, f2),
        0 <= b < x.len(),
        x[b][0].len() == x[0][0].len(),
        x[b][0][0].len() == x[0][0][0].len(),
    ensures
        lenet_i8_ok(seq![x[b]], k1, k2, k3, f1, f2),
        lenet_i8_spec(seq![x[b]], k1, k2, k3, f1, f2)[0] == lenet_i8_spec(x, k1, k2, k3, f1, f2)[b],
{
    let w = seq![x[b]];
    let n = x.len();

    // image `b` has a channel: the first window of the first kernel reads it
    let z1 = conv_zeros(x, k1, 0i8);
    let hc = out_rows(x, k1);
    let wc = out_cols(x, k1);
    assert(conv_image_i8_ok(z1[b], x[b], k1, hc, wc));
    assert(conv_plane_i8_ok(z1[b][0], x[b], k1[0], hc, wc));
    assert(conv_row_i8_ok(z1[b][0][0].len() as int, x[b], k1[0], 0, wc));
    assert(conv_i8_ok(x[b], k1[0], 0, 0));
    assert(in_window(x[b], k1[0], 0, 0, 0, 0, 0));

    // first convolution, ReLU and pooling
    let c1 = conv_stage_i8(x, k1);
    let d1 = conv_stage_i8(w, k1);
    let h1 = (x[0][0].len() - k1[0][0].len() + 1) as nat;
    let w1 = (x[0][0][0].len() - k1[0][0][0].len() + 1) as nat;
    lemma_conv_stage_i8_image(x, w, k1, b);
    lemma_relu_t4_shaped(c1, n, k1.len(), h1, w1);
    lemma_relu_t4_shaped(d1, 1, k1.len(), h1, w1);
    let r1 = relu_t4(c1);
    let s1 = relu_t4(d1);
    assert(s1[0] == r1[b]);
    lemma_pool_stage_i8_image(r1, s1, b, k1.len(), h1, w1);

    // second convolution, ReLU and pooling
    let p1 = lenet_i8_pool1(x, k1);
    let q1 = lenet_i8_pool1(w, k1);
    assert(p1[0].len() == k1.len() && p1[0][0].len() == h1 / 2 && p1[0][0][0].len() == w1 / 2);
    assert(q1[0].len() == k1.len() && q1[0][0].len() == h1 / 2 && q1[0][0][0].len() == w1 / 2);
    let c2 = conv_stage_i8(p1, k2);
    let d2 = conv_stage_i8(q1, k2);
    let h2 = (p1[0][0].len() - k2[0][0].len() + 1) as nat;
    let w2 = (p1[0][0][0].len() - k2[0][0][0].len() + 1) as nat;
    lemma_conv_stage_i8_image(p1, q1, k2, b);
    lemma_relu_t4_shaped(c2, n, k2.len(), h2, w2);
    lemma_relu_t4_shaped(d2, 1, k2.len(), h2, w2);
    let r2 = relu_t4(c2);
    let s2 = relu_t4(d2);
    assert(s2[0] == r2[b]);
    lemma_pool_stage_i8_image(r2, s2, b, k2.len(), h2, w2);

    // third convolution, ReLU and flattening
    let p2 = lenet_i8_pool2(x, k1, k2);
    let q2 = lenet_i8_pool2(w, k1, k2);
    assert(p2[0].len() == k2.len() && p2[0][0].len() == h2 / 2 && p2[0][0][0].len() == w2 / 2);
    assert(q2[0].len() == k2.len() && q2[0][0].len() == h2 / 2 && q2[0][0][0].len() == w2 / 2);
    let c3 = conv_stage_i8(p2, k3);
    let d3 = conv_stage_i8(q2, k3);
    let h3 = (p2[0][0].len() - k3[0][0].len() + 1) as nat;
    let w3 = (p2[0][0][0].len() - k3[0][0][0].len() + 1) as nat;
    lemma_conv_stage_i8_image(p2, q2, k3, b);
    lemma_relu_t4_shaped(c3, n, k3.len(), h3, w3);
    lemma_relu_t4_shaped(d3, 1, k3.len(), h3, w3);
    let r3 = lenet_i8_conv3(x, k1, k2, k3);
    let s3 = lenet_i8_conv3(w, k1, k2, k3);
    assert(s3[0] == r3[b]);
    lemma_flatten4_image(r3, s3, b, k3.len(), h3, w3);

    // the fully connected layers
    lemma_fc_batch_i8_image(flatten4(r3), flatten4(s3), f1, b);
    let g = lenet_i8_fc1(x, k1, k2, k3, f1);
    let g2 = lenet_i8_fc1(w, k1, k2, k3, f1);
    assert(g2[0] == g[b]);
    lemma_fc_batch_i8_image(g, g2, f2, b);
}

// ---------------------------------------------------------------------------
// Images of other sizes that the first pooling brings to the same extents.

/// With first kernel `k`, the first convolution and pooling read the same part of two
/// images `a` and `c`: their pooled heights agree, their pooled widths agree, and so
/// does how much of the pooled width the kernel's windows reach (the windows slide over
/// the width less the kernel's row count, the output is as wide as the width less its
/// column count).
pub open spec fn same_pooled_extents<T>(a: Seq<Seq<Seq<T>>>, c: Seq<Seq<Seq<T>>>, k: Seq<Seq<Seq<Seq<T>>>>) -> bool {
    let kh = k[0][0].len() as int;
    let kw = k[0][0][0].len() as int;
    let wa = a[0][0].len() - kw + 1;
    let wc = c[0][0].len() - kw + 1;
    let reach_a = a[0][0].len() - kh + 1;
    let reach_c = c[0][0].len() - kh + 1;
    &&& (a[0].len() - kh + 1) / 2 == (c[0].len() - kh + 1) / 2
    &&& wa / 2 == wc / 2
    &&& (if reach_a < 2 * (wa / 2) { reach_a } else { 2 * (wa / 2) })
        == (if reach_c < 2 * (wc / 2) { reach_c } else { 2 * (wc / 2) })
}

proof fn lemma_first_stage_u8_image(
    v: Seq<Seq<Seq<Seq<u8>>>>,
    w: Seq<Seq<Seq<Seq<u8>>>>,
    k: Seq<Seq<Seq<Seq<u8>>>>,
    v_0: u8,
    k_0: u8,
    out_0: u8,
    m: Seq<u64>,
    b: int,
)
    requires
        conv_stage_u8_ok(v, k, v_0, k_0, out_0, m),
        conv_stage_u8_ok(w, k, v_0, k_0, out_0, m),
        0 <= b < v.len(),
        w.len() == 1,
        w[0] == v[b],
        same_pooled_extents(v[0], w[0], k),
    ensures
        pool_stage_u8(relu_u8_t4(conv_stage_u8(w, k, v_0, k_0, out_0, m), out_0))[0]
            == pool_stage_u8(relu_u8_t4(conv_stage_u8(v, k, v_0, k_0, out_0, m), out_0))[b],
        shaped4(
            pool_stage_u8(relu_u8_t4(conv_stage_u8(v, k, v_0, k_0, out_0, m), out_0)),
            v.len(),
            k.len(),
            ((v[0][0].len() - k[0][0].len() + 1) / 2) as nat,
            ((v[0][0][0].len() - k[0][0][0].len() + 1) / 2) as nat,
        ),
        shaped4(
            pool_stage_u8(relu_u8_t4(conv_stage_u8(w, k, v_0, k_0, out_0, m), out_0)),
            1,
            k.len(),
            ((v[0][0].len() - k[0][0].len() + 1) / 2) as nat,
            ((v[0][0][0].len() - k[0][0][0].len() + 1) / 2) as nat,
        ),
{
    let n = v.len();
    let kk = k.len();
    let rv = out_rows(v, k);
    let rw = out_rows(w, k);
    let cv = out_cols(v, k);
    let cw = out_cols(w, k);
    let av = (v[0][0][0].len() - k[0][0][0].len() + 1) as nat;
    let aw = (w[0][0][0].len() - k[0][0][0].len() + 1) as nat;
    let zv = conv_zeros(v, k, 0u8);
    let zw = conv_zeros(w, k, 0u8);
    let cc = conv_stage_u8(v, k, v_0, k_0, out_0, m);
    let dd = conv_stage_u8(w, k, v_0, k_0, out_0, m);
    lemma_filled4_shaped(0u8, n, kk, rv as nat, av);
    lemma_filled4_shaped(0u8, 1, kk, rw as nat, aw);
    lemma_q_batch_val_shaped(zv, v, k, rv, cv, v_0, k_0, out_0, m, n, kk, rv as nat, av);
    lemma_q_batch_val_shaped(zw, w, k, rw, cw, v_0, k_0, out_0, m, 1, kk, rw as nat, aw);
    lemma_relu_u8_t4_shaped(cc, out_0, n, kk, rv as nat, av);
    lemma_relu_u8_t4_shaped(dd, out_0, 1, kk, rw as nat, aw);
    let r = relu_u8_t4(cc, out_0);
    let s = relu_u8_t4(dd, out_0);
    let pp = rv / 2;
    let qq = av as int / 2;
    assert(rw / 2 == pp && aw as int / 2 == qq);

    // the convolution outputs agree where the pooling reads them
    assert forall|c: int, i: int, j: int| 0 <= c < kk && 0 <= i < 2 * pp && 0 <= j < 2 * qq
        implies #[trigger] r[b][c][i][j] == s[0][c][i][j] by {
        assert((j < cv) == (j < cw));
        assert(zv[b][c][i][j] == 0u8);
        assert(zw[0][c][i][j] == 0u8);
        assert(cc[b][c][i][j] == (if j < cv { crate::conv_layer::conv_q_val(v[b], k[c], i, j, v_0, k_0, out_0, m[c]) } else { 0u8 }));
        assert(dd[0][c][i][j] == (if j < cw { crate::conv_layer::conv_q_val(w[0], k[c], i, j, v_0, k_0, out_0, m[c]) } else { 0u8 }));
    }

    // and so do the averages
    let ov = pool_out_shape(r, 2);
    let os = pool_out_shape(s, 2);
    assert(r[0][0].len() == rv && r[0][0][0].len() == av);
    assert(s[0][0].len() == rw && s[0][0][0].len() == aw);
    assert(ov == filled4(0u8, n, kk, pp as nat, qq as nat));
    assert(os == filled4(0u8, 1, kk, pp as nat, qq as nat));
    let po = pool_stage_u8(r);
    let qo = pool_stage_u8(s);
    assert forall|c: int, p: int, q: int| 0 <= c < kk && 0 <= p < pp && 0 <= q < qq
        implies #[trigger] po[b][c][p][q] == qo[0][c][p][q] by {
        assert forall|j: int, l: int| 0 <= j < 2 && 0 <= l < 2
            implies #[trigger] r[b][c][2 * p + j][2 * q + l] == s[0][c][2 * p + j][2 * q + l] by {
            assert(r[b][c][2 * p + j][2 * q + l] == s[0][c][2 * p + j][2 * q + l]);
        }
        crate::pool::lemma_pool_avg_u8_window(r[b][c], s[0][c], 2 * p, 2 * q);
    }
    lemma_filled4_shaped(0u8, n, kk, pp as nat, qq as nat);
    lemma_filled4_shaped(0u8, 1, kk, pp as nat, qq as nat);
    lemma_pool_batch_avg_shaped(ov, r, kk as int, pp, qq, 2, n, kk, pp as nat, qq as nat);
    lemma_pool_batch_avg_shaped(os, s, kk as int, pp, qq, 2, 1, kk, pp as nat, qq as nat);
    assert forall|c: int, p: int| 0 <= c < kk && 0 <= p < pp implies #[trigger] po[b][c][p] =~= qo[0][c][p] by {}
    assert forall|c: int| 0 <= c < kk implies #[trigger] po[b][c] =~= qo[0][c] by {}
    assert(po[b] =~= qo[0]);
}

/// The quantized network treats each image of a batch on its own: for an image of a
/// batch that the network accepts, if the network also accepts the image alone and the
/// first convolution and pooling read the same part of it as of the batch's first image,
/// its output row alone is the row the batch gives it.
pub proof fn lemma_lenet_u8_per_image(
    x: Seq<Seq<Seq<Seq<u8>>>>,
    k1: Seq<Seq<Seq<Seq<u8>>>>,
    k2: Seq<Seq<Seq<Seq<u8>>>>,
    k3: Seq<Seq<Seq<Seq<u8>>>>,
    f1: Seq<Seq<u8>>,
    f2: Seq<Seq<u8>>,
    x_0: u8,
    conv1_output_0: u8,
    conv2_output_0: u8,
    conv3_output_0: u8,
    fc1_output_0: u8,
    fc2_output_0: u8,
    conv1_weights_0: u8,
    conv2_weights_0: u8,
    conv3_weights_0: u8,
    fc1_weights_0: u8,
    fc2_weights_0: u8,
    m_conv1: Seq<u64>,
    m_conv2: Seq<u64>,
    m_conv3: Seq<u64>,
    m_fc1: Seq<u64>,
    m_fc2: Seq<u64>,
    b: int,
)
    requires
        lenet_u8_ok(
            x, k1, k2, k3, f1, f2, x_0, conv1_output_0, conv2_output_0, conv3_output_0, fc1_output_0,
            fc2_output_0, conv1_weights_0, conv2_weights_0, conv3_weights_0, fc1_weights_0, fc2_weights_0,
            m_conv1, m_conv2, m_conv3, m_fc1, m_fc2,
        ),
        lenet_u8_ok(
            seq![x[b]], k1, k2, k3, f1, f2, x_0, conv1_output_0, conv2_output_0, conv3_output_0, fc1_output_0,
            fc2_output_0, conv1_weights_0, conv2_weights_0, conv3_weights_0, fc1_weights_0, fc2_weights_0,
            m_conv1, m_conv2, m_conv3, m_fc1, m_fc2,
        ),
        0 <= b < x.len(),
        same_pooled_extents(x[0], x[b], k1),
    ensures
        lenet_u8_view(
            seq![x[b]], k1, k2, k3, f1, f2, x_0, conv1_output_0, conv2_output_0, conv3_output_0, fc1_output_0,
            fc2_output_0, conv1_weights_0, conv2_weights_0, conv3_weights_0, fc1_weights_0, fc2_weights_0,
            m_conv1, m_conv2, m_conv3, m_fc1, m_fc2,
        ).output[0] == lenet_u8_view(
            x, k1, k2, k3, f1, f2, x_0, conv1_output_0, conv2_output_0, conv3_output_0, fc1_output_0,
            fc2_output_0, conv1_weights_0, conv2_weights_0, conv3_weights_0, fc1_weights_0, fc2_weights_0,
            m_conv1, m_conv2, m_conv3, m_fc1, m_fc2,
        ).output[b],
{
    let w = seq![x[b]];
    let v = lenet_u8_view(
        x, k1, k2, k3, f1, f2, x_0, conv1_output_0, conv2_output_0, conv3_output_0, fc1_output_0,
        fc2_output_0, conv1_weights_0, conv2_weights_0, conv3_weights_0, fc1_weights_0, fc2_weights_0,
        m_conv1, m_conv2, m_conv3, m_fc1, m_fc2,
    );
    let u = lenet_u8_view(
        w, k1, k2, k3, f1, f2, x_0, conv1_output_0, conv2_output_0, conv3_output_0, fc1_output_0,
        fc2_output_0, conv1_weights_0, conv2_weights_0, conv3_weights_0, fc1_weights_0, fc2_weights_0,
        m_conv1, m_conv2, m_conv3, m_fc1, m_fc2,
    );
    let n = x.len();

    // first convolution, ReLU and pooling: the pooled maps agree
    lemma_first_stage_u8_image(x, w, k1, x_0, conv1_weights_0, conv1_output_0, m_conv1, b);
    let p1 = v.pool1;
    let q1 = u.pool1;
    let ph = ((x[0][0].len() - k1[0][0].len() + 1) / 2) as nat;
    let pw = ((x[0][0][0].len() - k1[0][0][0].len() + 1) / 2) as nat;
    assert(q1[0] == p1[b]);

    // second convolution, ReLU and pooling
    assert(p1[0].len() == k1.len() && p1[0][0].len() == ph && p1[0][0][0].len() == pw);
    assert(q1[0].len() == k1.len() && q1[0][0].len() == ph && q1[0][0][0].len() == pw);
    let h2 = (p1[0][0].len() - k2[0][0].len() + 1) as nat;
    let w2 = (p1[0][0][0].len() - k2[0][0][0].len() + 1) as nat;
    lemma_conv_stage_u8_image(p1, q1, k2, conv1_output_0, conv2_weights_0, conv2_output_0, m_conv2, b);
    lemma_relu_u8_t4_shaped(v.conv2, conv2_output_0, n, k2.len(), h2, w2);
    lemma_relu_u8_t4_shaped(u.conv2, conv2_output_0, 1, k2.len(), h2, w2);
    let r2 = relu_u8_t4(v.conv2, conv2_output_0);
    let s2 = relu_u8_t4(u.conv2, conv2_output_0);
    assert(s2[0] == r2[b]);
    lemma_pool_stage_u8_image(r2, s2, b, k2.len(), h2, w2);

    // third convolution, ReLU and flattening
    let p2 = v.pool2;
    let q2 = u.pool2;
    assert(p2[0].len() == k2.len() && p2[0][0].len() == h2 / 2 && p2[0][0][0].len() == w2 / 2);
    assert(q2[0].len() == k2.len() && q2[0][0].len() == h2 / 2 && q2[0][0][0].len() == w2 / 2);
    let h3 = (p2[0][0].len() - k3[0][0].len() + 1) as nat;
    let w3 = (p2[0][0][0].len() - k3[0][0][0].len() + 1) as nat;
    lemma_conv_stage_u8_image(p2, q2, k3, conv2_output_0, conv3_weights_0, conv3_output_0, m_conv3, b);
    lemma_relu_u8_t4_shaped(v.conv3, conv3_output_0, n, k3.len(), h3, w3);
    lemma_relu_u8_t4_shaped(u.conv3, conv3_output_0, 1, k3.len(), h3, w3);
    let r3 = relu_u8_t4(v.conv3, conv3_output_0);
    let s3 = relu_u8_t4(u.conv3, conv3_output_0);
    assert(s3[0] == r3[b]);
    lemma_flatten4_image(r3, s3, b, k3.len(), h3, w3);

    // the fully connected layers
    lemma_fc_batch_u8_image(v.features, u.features, f1, conv3_output_0, fc1_weights_0, fc1_output_0, m_fc1, b);
    let g = relu_u8_mat(v.fc1, fc1_output_0);
    let g2 = relu_u8_mat(u.fc1, fc1_output_0);
    assert(g2[0] == g[b]);
    lemma_fc_batch_u8_image(g, g2, f2, fc1_output_0, fc2_weights_0, fc2_output_0, m_fc2, b);
}

proof fn lemma_first_stage_i8_image(v: Seq<Seq<Seq<Seq<i8>>>>, w: Seq<Seq<Seq<Seq<i8>>>>, k: Seq<Seq<Seq<Seq<i8>>>>, b: int)
    requires
        conv_stage_i8_ok(v, k),
        conv_stage_i8_ok(w, k),
        0 <= b < v.len(),
        w.len() == 1,
        w[0] == v[b],
        same_pooled_extents(v[0], w[0], k),
    ensures
        pool_stage_i8(relu_t4(conv_stage_i8(w, k)))[0] == pool_stage_i8(relu_t4(conv_stage_i8(v, k)))[b],
        shaped4(
            pool_stage_i8(relu_t4(conv_stage_i8(v, k))),
            v.len(),
            k.len(),
            ((v[0][0].len() - k[0][0].len() + 1) / 2) as nat,
            ((v[0][0][0].len() - k[0][0][0].len() + 1) / 2) as nat,
        ),
        shaped4(
            pool_stage_i8(relu_t4(conv_stage_i8(w, k))),
            1,
            k.len(),
            ((v[0][0].len() - k[0][0].len() + 1) / 2) as nat,
            ((v[0][0][0].len() - k[0][0][0].len() + 1) / 2) as nat,
        ),
{
    let n = v.len();
    let kk = k.len();
    let rv = out_rows(v, k);
    let rw = out_rows(w, k);
    let cv = out_cols(v, k);
    let cw = out_cols(w, k);
    let av = (v[0][0][0].len() - k[0][0][0].len() + 1) as nat;
    let aw = (w[0][0][0].len() - k[0][0][0].len() + 1) as nat;
    let zv = conv_zeros(v, k, 0i8);
    let zw = conv_zeros(w, k, 0i8);
    let cc = conv_stage_i8(v, k);
    let dd = conv_stage_i8(w, k);
    lemma_filled4_shaped(0i8, n, kk, rv as nat, av);
    lemma_filled4_shaped(0i8, 1, kk, rw as nat, aw);
    lemma_conv_batch_i8_shaped(zv, v, k, rv, cv, n, kk, rv as nat, av);
    lemma_conv_batch_i8_shaped(zw, w, k, rw, cw, 1, kk, rw as nat, aw);
    lemma_relu_t4_shaped(cc, n, kk, rv as nat, av);
    lemma_relu_t4_shaped(dd, 1, kk, rw as nat, aw);
    let r = relu_t4(cc);
    let s = relu_t4(dd);
    let pp = rv / 2;
    let qq = av as int / 2;
    assert(rw / 2 == pp && aw as int / 2 == qq);

    // the convolution outputs agree where the pooling reads them
    assert forall|c: int, i: int, j: int| 0 <= c < kk && 0 <= i < 2 * pp && 0 <= j < 2 * qq
        implies #[trigger] r[b][c][i][j] == s[0][c][i][j] by {
        assert((j < cv) == (j < cw));
        assert(zv[b][c][i][j] == 0i8);
        assert(zw[0][c][i][j] == 0i8);
        assert(cc[b][c][i][j] == (if j < cv { crate::conv::conv_i8_val(v[b], k[c], i, j) } else { 0i8 }));
        assert(dd[0][c][i][j] == (if j < cw { crate::conv::conv_i8_val(w[0], k[c], i, j) } else { 0i8 }));
    }

    // and so do the averages
    let ov = pool_out_shape_i8(r, 2);
    let os = pool_out_shape_i8(s, 2);
    assert(r[0][0].len() == rv && r[0][0][0].len() == av);
    assert(s[0][0].len() == rw && s[0][0][0].len() == aw);
    assert(ov == filled4(0i8, n, kk, pp as nat, qq as nat));
    assert(os == filled4(0i8, 1, kk, pp as nat, qq as nat));
    let po = pool_stage_i8(r);
    let qo = pool_stage_i8(s);
    assert forall|c: int, p: int, q: int| 0 <= c < kk && 0 <= p < pp && 0 <= q < qq
        implies #[trigger] po[b][c][p][q] == qo[0][c][p][q] by {
        assert forall|j: int, l: int| 0 <= j < 2 && 0 <= l < 2
            implies #[trigger] r[b][c][2 * p + j][2 * q + l] == s[0][c][2 * p + j][2 * q + l] by {
            assert(r[b][c][2 * p + j][2 * q + l] == s[0][c][2 * p + j][2 * q + l]);
        }
        crate::pool::lemma_pool_avg_i8_window(r[b][c], s[0][c], 2 * p, 2 * q);
    }
    lemma_filled4_shaped(0i8, n, kk, pp as nat, qq as nat);
    lemma_filled4_shaped(0i8, 1, kk, pp as nat, qq as nat);
    lemma_pool_batch_avg_i8_shaped(ov, r, kk as int, pp, qq, 2, n, kk, pp as nat, qq as nat);
    lemma_pool_batch_avg_i8_shaped(os, s, kk as int, pp, qq, 2, 1, kk, pp as nat, qq as nat);
    assert forall|c: int, p: int| 0 <= c < kk && 0 <= p < pp implies #[trigger] po[b][c][p] =~= qo[0][c][p] by {}
    assert forall|c: int| 0 <= c < kk implies #[trigger] po[b][c] =~= qo[0][c] by {}
    assert(po[b] =~= qo[0]);
}

/// The plain network treats each image of a batch on its own: for an image of a batch
/// that the network accepts, if the network also accepts the image alone and the first
/// convolution and pooling read the same part of it as of the batch's first image, its
/// output row alone is the row the batch gives it.
pub proof fn lemma_lenet_i8_per_image(
    x: Seq<Seq<Seq<Seq<i8>>>>,
    k1: Seq<Seq<Seq<Seq<i8>>>>,
    k2: Seq<Seq<Seq<Seq<i8>>>>,
    k3: Seq<Seq<Seq<Seq<i8>>>>,
    f1: Seq<Seq<i8>>,
    f2: Seq<Seq<i8>>,
    b: int,
)
    requires
        lenet_i8_ok(x, k1, k2, k3, f1, f2),
        lenet_i8_ok(seq![x[b]], k1, k2, k3, f1, f2),
        0 <= b < x.len(),
        same_pooled_extents(x[0], x[b], k1),
    ensures
        lenet_i8_spec(seq![x[b]], k1, k2, k3, f1, f2)[0] == lenet_i8_spec(x, k1, k2, k3, f1, f2)[b],
{
    let w = seq![x[b]];
    let n = x.len();

    // first convolution, ReLU and pooling: the pooled maps agree
    lemma_first_stage_i8_image(x, w, k1, b);
    let p1 = lenet_i8_pool1(x, k1);
    let q1 = lenet_i8_pool1(w, k1);
    let ph = ((x[0][0].len() - k1[0][0].len() + 1) / 2) as nat;
    let pw = ((x[0][0][0].len() - k1[0][0][0].len() + 1) / 2) as nat;
    assert(q1[0] == p1[b]);

    // second convolution, ReLU and pooling
    assert(p1[0].len() == k1.len() && p1[0][0].len() == ph && p1[0][0][0].len() == pw);
    assert(q1[0].len() == k1.len() && q1[0][0].len() == ph && q1[0][0][0].len() == pw);
    let c2 = conv_stage_i8(p1, k2);
    let d2 = conv_stage_i8(q1, k2);
    let h2 = (p1[0][0].len() - k2[0][0].len() + 1) as nat;
    let w2 = (p1[0][0][0].len() - k2[0][0][0].len() + 1) as nat;
    lemma_conv_stage_i8_image(p1, q1, k2, b);
    lemma_relu_t4_shaped(c2, n, k2.len(), h2, w2);
    lemma_relu_t4_shaped(d2, 1, k2.len(), h2, w2);
    let r2 = relu_t4(c2);
    let s2 = relu_t4(d2);
    assert(s2[0] == r2[b]);
    lemma_pool_stage_i8_image(r2, s2, b, k2.len(), h2, w2);

    // third convolution, ReLU and flattening
    let p2 = lenet_i8_pool2(x, k1, k2);
    let q2 = lenet_i8_pool2(w, k1, k2);
    assert(p2[0].len() == k2.len() && p2[0][0].len() == h2 / 2 && p2[0][0][0].len() == w2 / 2);
    assert(q2[0].len() == k2.len() && q2[0][0].len() == h2 / 2 && q2[0][0][0].len() == w2 / 2);
    let c3 = conv_stage_i8(p2, k3);
    let d3 = conv_stage_i8(q2, k3);
    let h3 = (p2[0][0].len() - k3[0][0].len() + 1) as nat;
    let w3 = (p2[0][0][0].len() - k3[0][0][0].len() + 1) as nat;
    lemma_conv_stage_i8_image(p2, q2, k3, b);
    lemma_relu_t4_shaped(c3, n, k3.len(), h3, w3);
    lemma_relu_t4_shaped(d3, 1, k3.len(), h3, w3);
    let r3 = lenet_i8_conv3(x, k1, k2, k3);
    let s3 = lenet_i8_conv3(w, k1, k2, k3);
    assert(s3[0] == r3[b]);
    lemma_flatten4_image(r3, s3, b, k3.len(), h3, w3);

    // the fully connected layers
    lemma_fc_batch_i8_image(flatten4(r3), flatten4(s3), f1, b);
    let g = lenet_i8_fc1(x, k1, k2, k3, f1);
    let g2 = lenet_i8_fc1(w, k1, k2, k3, f1);
    assert(g2[0] == g[b]);
    lemma_fc_batch_i8_image(g, g2, f2, b);
}

// ---------------------------------------------------------------------------
// What the networks return.

/// The plain network returns the raw scores of its second fully connected layer, with
/// nothing applied after it: one row per image of the first layer's (ReLU'd) output,
/// entry `i` of row `n` the `i8`-truncated dot product of that row with weight row `i`
/// (so scores may be negative).
pub proof fn lemma_lenet_i8_output(
    x: Seq<Seq<Seq<Seq<i8>>>>,
    k1: Seq<Seq<Seq<Seq<i8>>>>,
    k2: Seq<Seq<Seq<Seq<i8>>>>,
    k3: Seq<Seq<Seq<Seq<i8>>>>,
    f1: Seq<Seq<i8>>,
    f2: Seq<Seq<i8>>,
)
    ensures
        lenet_i8_spec(x, k1, k2, k3, f1, f2).len() == lenet_i8_fc1(x, k1, k2, k3, f1).len(),
        forall|n: int| 0 <= n < lenet_i8_fc1(x, k1, k2, k3, f1).len() ==>
            (#[trigger] lenet_i8_spec(x, k1, k2, k3, f1, f2)[n]).len() == f2.len(),
        forall|n: int, i: int| 0 <= n < lenet_i8_fc1(x, k1, k2, k3, f1).len() && 0 <= i < f2.len() ==>
            #[trigger] lenet_i8_spec(x, k1, k2, k3, f1, f2)[n][i]
                == dot_i8(lenet_i8_fc1(x, k1, k2, k3, f1)[n], f2[i], lenet_i8_fc1(x, k1, k2, k3, f1)[n].len() as int) as i8,
{
}

/// The quantized network returns its second fully connected layer, requantized to zero
/// point `fc2_output_0`, with nothing applied after it: one row per image of the first
/// layer's output, entry `i` of row `n` the requantized accumulator of that row after
/// its ReLU with weight row `i`, shifted down by 22 bits and truncated to `u8` (so it may
/// lie below `fc2_output_0`).
pub proof fn lemma_lenet_u8_output(
    x: Seq<Seq<Seq<Seq<u8>>>>,
    k1: Seq<Seq<Seq<Seq<u8>>>>,
    k2: Seq<Seq<Seq<Seq<u8>>>>,
    k3: Seq<Seq<Seq<Seq<u8>>>>,
    f1: Seq<Seq<u8>>,
    f2: Seq<Seq<u8>>,
    x_0: u8,
    conv1_output_0: u8,
    conv2_output_0: u8,
    conv3_output_0: u8,
    fc1_output_0: u8,
    fc2_output_0: u8,
    conv1_weights_0: u8,
    conv2_weights_0: u8,
    conv3_weights_0: u8,
    fc1_weights_0: u8,
    fc2_weights_0: u8,
    m_conv1: Seq<u64>,
    m_conv2: Seq<u64>,
    m_conv3: Seq<u64>,
    m_fc1: Seq<u64>,
    m_fc2: Seq<u64>,
)
    ensures
        ({
            let v = lenet_u8_view(
                x, k1, k2, k3, f1, f2, x_0, conv1_output_0, conv2_output_0, conv3_output_0, fc1_output_0,
                fc2_output_0, conv1_weights_0, conv2_weights_0, conv3_weights_0, fc1_weights_0, fc2_weights_0,
                m_conv1, m_conv2, m_conv3, m_fc1, m_fc2,
            );
            &&& v.output.len() == v.fc1.len()
            &&& forall|n: int| 0 <= n < v.fc1.len() ==> (#[trigger] v.output[n]).len() == f2.len()
            &&& forall|n: int, i: int| 0 <= n < v.fc1.len() && 0 <= i < f2.len() ==>
                #[trigger] v.output[n][i] == (requant_acc(
                    relu_u8_vec(v.fc1[n], fc1_output_0),
                    f2[i],
                    fc1_output_0,
                    fc2_weights_0,
                    fc2_output_0,
                    m_fc2[i],
                ) / FIXED_ONE as int) as u8
        }),
{
}

} // verus!
