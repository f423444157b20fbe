//! The two-layer perceptron: a fully connected layer into `M` hidden values, a
//! ReLU, and a fully connected layer into `N` outputs; plain `i8` and quantized `u8`.
use vstd::prelude::*;
use crate::tensor::{t2, fill1, filled1};
use crate::activation::{relu, relu_vec, relu_u8, relu_u8_vec};
use crate::linear::{
    mat_vec_i8, mat_vec_i8_ok, vec_mat_mul, row_slices, fc_u8_ok, fc_u8_out,
    vec_mat_mul_with_remainder_u8, dot_i8, requant_acc, FIXED_ONE,
};

verus! {

/// The width of the hidden layer of the two-layer perceptron.
pub const M: usize = 128;

/// The number of outputs of the two-layer perceptron.
pub const N: usize = 10;

/// The hidden layer of the plain perceptron before the ReLU.
pub open spec fn forward_hidden(x: Seq<i8>, l1: Seq<Seq<i8>>) -> Seq<i8> {
    mat_vec_i8(x, l1, filled1(0i8, M as nat))
}

/// The output of the plain perceptron.
pub open spec fn forward_spec(x: Seq<i8>, l1: Seq<Seq<i8>>, l2: Seq<Seq<i8>>) -> Seq<i8> {
    mat_vec_i8(relu_vec(forward_hidden(x, l1)), l2, filled1(0i8, N as nat))
}

/// `forward(x, l1, l2)` is defined: each layer has at most as many rows as outputs,
/// and every row has the length of its input with no accumulator overflow.
pub open spec fn forward_ok(x: Seq<i8>, l1: Seq<Seq<i8>>, l2: Seq<Seq<i8>>) -> bool {
    mat_vec_i8_ok(x, l1, M as int) && mat_vec_i8_ok(relu_vec(forward_hidden(x, l1)), l2, N as int)
}

/// The plain perceptron with its intermediate results: the first layer's output,
/// that output after the ReLU, and the second layer's output.
pub fn forward_trace(x: Vec<i8>, l1_mat: Vec<Vec<i8>>, l2_mat: Vec<Vec<i8>>) -> (r: (Vec<i8>, Vec<i8>, Vec<i8>))
    requires
        forward_ok(x@, t2(l1_mat@), t2(l2_mat@)),
    ensures
        r.0@ == forward_hidden(x@, t2(l1_mat@)),
        r.1@ == relu_vec(forward_hidden(x@, t2(l1_mat@))),
        r.2@ == forward_spec(x@, t2(l1_mat@), t2(l2_mat@)),
{
    let mut y = fill1(0i8, M);
    let l1_mat_ref = row_slices(&l1_mat);
    vec_mat_mul(x.as_slice(), l1_mat_ref.as_slice(), y.as_mut_slice());
    let hidden = y.clone();
    assert(hidden@ == y@);
    relu(y.as_mut_slice());
    let mut z = fill1(0i8, N);
    let l2_mat_ref = row_slices(&l2_mat);
    vec_mat_mul(y.as_slice(), l2_mat_ref.as_slice(), z.as_mut_slice());
    (hidden, y, z)
}

/// The plain perceptron: `relu(l1 * x)` (into `M` entries), then `l2 *` that (into `N` entries).
pub fn forward(x: Vec<i8>, l1_mat: Vec<Vec<i8>>, l2_mat: Vec<Vec<i8>>) -> (z: Vec<i8>)
    requires
        forward_ok(x@, t2(l1_mat@), t2(l2_mat@)),
    ensures
        z@ == forward_spec(x@, t2(l1_mat@), t2(l2_mat@)),
{
    let (_, _, z) = forward_trace(x, l1_mat, l2_mat);
    z
}

/// The hidden layer of the quantized perceptron after the ReLU.
pub open spec fn full_hidden_u8(x: Seq<u8>, l1: Seq<Seq<u8>>, x_0: u8, y_0: u8, l1_0: u8, m1: Seq<u64>) -> Seq<u8> {
    relu_u8_vec(fc_u8_out(x, l1, filled1(0u8, M as nat), x_0, l1_0, y_0, m1), y_0)
}

/// The output of the quantized perceptron.
pub open spec fn full_circuit_u8_spec(
    x: Seq<u8>,
    l1: Seq<Seq<u8>>,
    l2: Seq<Seq<u8>>,
    x_0: u8,
    y_0: u8,
    z_0: u8,
    l1_0: u8,
    l2_0: u8,
    m1: Seq<u64>,
    m2: Seq<u64>,
) -> Seq<u8> {
    fc_u8_out(full_hidden_u8(x, l1, x_0, y_0, l1_0, m1), l2, filled1(0u8, N as nat), y_0, l2_0, z_0, m2)
}

/// `full_circuit_forward_u8` is defined: both layers can be requantized.
pub open spec fn full_circuit_u8_ok(
    x: Seq<u8>,
    l1: Seq<Seq<u8>>,
    l2: Seq<Seq<u8>>,
    x_0: u8,
    y_0: u8,
    z_0: u8,
    l1_0: u8,
    l2_0: u8,
    m1: Seq<u64>,
    m2: Seq<u64>,
) -> bool {
    &&& fc_u8_ok(x, l1, M as int, x_0, l1_0, y_0, m1)
    &&& fc_u8_ok(full_hidden_u8(x, l1, x_0, y_0, l1_0, m1), l2, N as int, y_0, l2_0, z_0, m2)
}

/// The quantized perceptron with fixed-point multipliers (the real multipliers times 2^22):
/// the first layer requantized to zero point `y_0` (into `M` entries), the quantized ReLU,
/// then the second layer requantized to zero point `z_0` (into `N` entries).
pub fn full_circuit_forward_u8(
    x: Vec<u8>,
    l1_mat: Vec<Vec<u8>>,
    l2_mat: Vec<Vec<u8>>,
    x_0: u8,
    y_0: u8,
    z_0: u8,
    l1_mat_0: u8,
    l2_mat_0: u8,
    multiplier_l1: Vec<u64>,
    multiplier_l2: Vec<u64>,
) -> (z: Vec<u8>)
    requires
        full_circuit_u8_ok(x@, t2(l1_mat@), t2(l2_mat@), x_0, y_0, z_0, l1_mat_0, l2_mat_0, multiplier_l1@, multiplier_l2@),
    ensures
        z@ == full_circuit_u8_spec(x@, t2(l1_mat@), t2(l2_mat@), x_0, y_0, z_0, l1_mat_0, l2_mat_0, multiplier_l1@, multiplier_l2@),
{
    let mut y = fill1(0u8, M);
    let l1_mat_ref = row_slices(&l1_mat);
    let _ = vec_mat_mul_with_remainder_u8(
        x.as_slice(),
        l1_mat_ref.as_slice(),
        y.as_mut_slice(),
        x_0,
        l1_mat_0,
        y_0,
        multiplier_l1.as_slice(),
    );
    let _ = relu_u8(y.as_mut_slice(), y_0);
    let mut z = fill1(0u8, N);
    let l2_mat_ref = row_slices(&l2_mat);
    let _ = vec_mat_mul_with_remainder_u8(
        y.as_slice(),
        l2_mat_ref.as_slice(),
        z.as_mut_slice(),
        y_0,
        l2_mat_0,
        z_0,
        multiplier_l2.as_slice(),
    );
    z
}

/// The plain perceptron's output is the second layer on the ReLU'd first layer, with
/// nothing applied after it: `N` entries, entry `i` below the second layer's row count
/// the `i8`-truncated dot product of the ReLU'd hidden values with row `i` (negative
/// scores stay negative), the others 0. The hidden values before the ReLU are the
/// `i8`-truncated dot products of `x` with the first layer's rows, and 0 past them.
pub proof fn lemma_forward_output(x: Seq<i8>, l1: Seq<Seq<i8>>, l2: Seq<Seq<i8>>)
    ensures
        forward_spec(x, l1, l2).len() == N,
        forall|i: int| 0 <= i < N && i < l2.len() ==>
            #[trigger] forward_spec(x, l1, l2)[i] == dot_i8(relu_vec(forward_hidden(x, l1)), l2[i], M as int) as i8,
        forall|i: int| l2.len() <= i < N ==> #[trigger] forward_spec(x, l1, l2)[i] == 0,
        forall|i: int| 0 <= i < M ==> #[trigger] relu_vec(forward_hidden(x, l1))[i] >= 0,
        forall|i: int| 0 <= i < M && i < l1.len() ==>
            #[trigger] forward_hidden(x, l1)[i] == dot_i8(x, l1[i], x.len() as int) as i8,
        forall|i: int| l1.len() <= i < M ==> #[trigger] forward_hidden(x, l1)[i] == 0,
{
    assert(relu_vec(forward_hidden(x, l1)).len() == M);
}

/// The quantized perceptron's output is the second layer, requantized to zero point
/// `z_0`, with nothing applied after it: `N` entries, entry `i` below the second layer's
/// row count the requantized accumulator of the hidden values with row `i` shifted down
/// by 22 bits and truncated to `u8` (it may lie below `z_0`), the others 0. The hidden
/// values are the first layer requantized to zero point `y_0` and raised to it by the
/// ReLU; hidden positions past the first layer's rows hold `y_0`.
pub proof fn lemma_full_circuit_u8_output(
    x: Seq<u8>,
    l1: Seq<Seq<u8>>,
    l2: Seq<Seq<u8>>,
    x_0: u8,
    y_0: u8,
    z_0: u8,
    l1_0: u8,
    l2_0: u8,
    m1: Seq<u64>,
    m2: Seq<u64>,
)
    ensures
        full_circuit_u8_spec(x, l1, l2, x_0, y_0, z_0, l1_0, l2_0, m1, m2).len() == N,
        forall|i: int| 0 <= i < N && i < l2.len() ==>
            #[trigger] full_circuit_u8_spec(x, l1, l2, x_0, y_0, z_0, l1_0, l2_0, m1, m2)[i]
                == (requant_acc(full_hidden_u8(x, l1, x_0, y_0, l1_0, m1), l2[i], y_0, l2_0, z_0, m2[i]) / FIXED_ONE as int) as u8,
        forall|i: int| l2.len() <= i < N ==> #[trigger] full_circuit_u8_spec(x, l1, l2, x_0, y_0, z_0, l1_0, l2_0, m1, m2)[i] == 0,
        full_hidden_u8(x, l1, x_0, y_0, l1_0, m1).len() == M,
        forall|i: int| 0 <= i < M && i < l1.len() ==> {
            let q = (requant_acc(x, l1[i], x_0, l1_0, y_0, m1[i]) / FIXED_ONE as int) as u8;
            #[trigger] full_hidden_u8(x, l1, x_0, y_0, l1_0, m1)[i] == if q < y_0 { y_0 } else { q }
        },
        forall|i: int| l1.len() <= i < M ==> #[trigger] full_hidden_u8(x, l1, x_0, y_0, l1_0, m1)[i] == y_0,
{
}

} // verus!
