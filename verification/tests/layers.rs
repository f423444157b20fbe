use zk_ml_private_model_baseline::activation::{relu, relu2d, relu4d, relu2d_u8, relu4d_u8, relu_u8};
use zk_ml_private_model_baseline::conv::{conv_kernel_scala, conv_kernel_scala_u8, conv_kernel_scala_with_remainder_u8};
use zk_ml_private_model_baseline::conv_layer::{vec_conv, vec_conv_with_remainder_u8};
use zk_ml_private_model_baseline::linear::{
    row_slices, scalar, scalar_u8, scalar_with_remainder_u8, vec_mat_mul, vec_mat_mul_u8,
    vec_mat_mul_with_remainder_u8, DEFAULT_ZERO_POINT, FIXED_ONE, FIXED_ONE_TIMES_256,
};
use zk_ml_private_model_baseline::pool::{
    avg_pool_helper, avg_pool_helper_u8, avg_pool_scala, avg_pool_scala_u8, avg_pool_with_remainder_helper_u8,
    avg_pool_with_remainder_scala_u8,
};
use zk_ml_private_model_baseline::tensor::{copy2, copy4, fill1, fill2, fill4, flatten};

fn grid_u8(rows: usize, cols: usize) -> Vec<Vec<u8>> {
    let mut g = Vec::new();
    for i in 0..rows {
        let mut r = Vec::new();
        for j in 0..cols {
            r.push((i * cols + j + 1) as u8);
        }
        g.push(r);
    }
    g
}

#[test]
fn relu_clamps_negatives_to_zero() {
    let mut v: Vec<i8> = vec![-3, 0, 5, -128, 127];
    relu(&mut v);
    assert_eq!(v, vec![0, 0, 5, 0, 127]);
}

#[test]
fn relu_of_empty_is_empty() {
    let mut v: Vec<i8> = vec![];
    relu(&mut v);
    assert!(v.is_empty());
}

#[test]
fn relu_twice_is_relu_once() {
    let mut once: Vec<i8> = vec![-7, 3, -1, 0, 9];
    relu(&mut once);
    let mut twice = once.clone();
    relu(&mut twice);
    assert_eq!(once, twice);
}

#[test]
fn relu2d_and_relu4d_clamp_every_entry() {
    let mut m: Vec<Vec<i8>> = vec![vec![-1, 2], vec![3, -4, 5]];
    relu2d(&mut m);
    assert_eq!(m, vec![vec![0, 2], vec![3, 0, 5]]);
    let mut t: Vec<Vec<Vec<Vec<i8>>>> = vec![vec![vec![vec![-1, 1], vec![-2, 2]]], vec![vec![vec![-3]]]];
    relu4d(&mut t);
    assert_eq!(t, vec![vec![vec![vec![0, 1], vec![0, 2]]], vec![vec![vec![0]]]]);
}

#[test]
fn relu_u8_raises_to_zero_point_and_reports_kept() {
    let mut v: Vec<u8> = vec![3, 10, 12, 0];
    let kept = relu_u8(&mut v, 10);
    assert_eq!(v, vec![10, 10, 12, 10]);
    assert_eq!(kept, vec![false, true, true, false]);
}

#[test]
fn relu_u8_kept_exactly_where_unchanged() {
    let input: Vec<u8> = vec![0, 9, 10, 11, 255];
    let mut v = input.clone();
    let kept = relu_u8(&mut v, DEFAULT_ZERO_POINT);
    for i in 0..input.len() {
        assert_eq!(kept[i], v[i] == input[i]);
        assert!(v[i] >= DEFAULT_ZERO_POINT);
    }
    let mut again = v.clone();
    relu_u8(&mut again, DEFAULT_ZERO_POINT);
    assert_eq!(again, v);
}

#[test]
fn relu2d_u8_raises_every_entry() {
    let mut m: Vec<Vec<u8>> = vec![vec![1, 20], vec![30, 4]];
    relu2d_u8(&mut m, 10);
    assert_eq!(m, vec![vec![10, 20], vec![30, 10]]);
}

#[test]
fn relu4d_u8_mask_follows_first_element_shape() {
    let mut t: Vec<Vec<Vec<Vec<u8>>>> = vec![vec![vec![vec![1, 20], vec![30, 4]]]];
    let kept = relu4d_u8(&mut t, 10);
    assert_eq!(t, vec![vec![vec![vec![10, 20], vec![30, 10]]]]);
    assert_eq!(kept, vec![vec![vec![vec![false, true], vec![true, false]]]]);
}

#[test]
fn relu4d_u8_mask_keeps_false_where_input_is_shorter() {
    let mut t: Vec<Vec<Vec<Vec<u8>>>> = vec![vec![vec![vec![11, 12], vec![13, 14]]], vec![vec![vec![15]]]];
    let kept = relu4d_u8(&mut t, 10);
    assert_eq!(
        kept,
        vec![vec![vec![vec![true, true], vec![true, true]]], vec![vec![vec![true, false], vec![false, false]]]]
    );
}

#[test]
fn scalar_is_the_dot_product() {
    assert_eq!(scalar(&[1, 2, 3], &[4, 5, 6]), 32);
    assert_eq!(scalar(&[-128], &[1]), -128);
    assert_eq!(scalar(&[], &[]), 0);
}

#[test]
fn scalar_truncates_to_i8() {
    // 20000 = 78 * 256 + 32
    assert_eq!(scalar(&[100, 100], &[100, 100]), 32);
}

#[test]
fn vec_mat_mul_writes_one_entry_per_row() {
    let mat = vec![vec![1i8, 1], vec![2, -1]];
    let rows = row_slices(&mat);
    let mut res: Vec<i8> = vec![9, 9, 9];
    vec_mat_mul(&[1, 2], &rows, &mut res);
    assert_eq!(res, vec![3, 0, 9]);
}

#[test]
fn scalar_u8_is_the_centered_dot_product() {
    // (12 - 10) * (5 - 3) + (15 - 10) * (7 - 3) = 4 + 20
    assert_eq!(scalar_u8(&[12, 15], &[5, 7], 10, 3), 24);
    assert_eq!(scalar_with_remainder_u8(&[12, 15], &[5, 7], 10, 3, 100), 124);
}

#[test]
fn vec_mat_mul_u8_scales_and_adds_zero_point() {
    let mat = vec![vec![5u8, 7]];
    let rows = row_slices(&mat);
    let mut res: Vec<u8> = vec![0, 42];
    // multiplier one half: 24 / 2 + 5
    vec_mat_mul_u8(&[12, 15], &rows, &mut res, 10, 3, 5, &[FIXED_ONE / 2]);
    assert_eq!(res, vec![17, 42]);
}

#[test]
fn vec_mat_mul_with_remainder_u8_records_low_bits() {
    let mat = vec![vec![5u8, 7]];
    let rows = row_slices(&mat);
    let mut res: Vec<u8> = vec![0];
    let m: u64 = 3 * FIXED_ONE / 4;
    let (rem, high) = vec_mat_mul_with_remainder_u8(&[12, 15], &rows, &mut res, 10, 3, 5, &[m]);
    // offset 5 * 2^22 / m = 6; accumulator m * (24 + 6) = 94371840
    assert_eq!(res, vec![22]);
    assert_eq!(rem, vec![2097152]);
    assert_eq!(high, vec![0]);
    let acc: u64 = m * 30;
    assert_eq!(high[0] as u64 * FIXED_ONE_TIMES_256 + res[0] as u64 * FIXED_ONE + rem[0] as u64, acc);
}

#[test]
fn vec_mat_mul_with_remainder_u8_keeps_high_bits() {
    let mat = vec![vec![5u8, 7]];
    let rows = row_slices(&mat);
    let mut res: Vec<u8> = vec![0, 0];
    let m: u64 = 1u64 << 40;
    let (rem, high) = vec_mat_mul_with_remainder_u8(&[12, 15], &rows, &mut res, 10, 3, 5, &[m]);
    // offset 5 * 2^22 / 2^40 = 0; accumulator 24 * 2^40: the u8 result wraps to 0
    assert_eq!(res, vec![0, 0]);
    assert_eq!(rem, vec![0, 0]);
    assert_eq!(high, vec![24576, 0]);
    assert_eq!(high[0] as u64 * FIXED_ONE_TIMES_256 + res[0] as u64 * FIXED_ONE + rem[0] as u64, 24 * m);
}

#[test]
fn conv_kernel_scala_sums_the_window() {
    let x = vec![vec![vec![1i8, 2, 3], vec![4, 5, 6], vec![7, 8, 9]]];
    let k = vec![vec![vec![1i8, 0], vec![0, 1]]];
    assert_eq!(conv_kernel_scala(&x, &k, 0, 0), 6);
    assert_eq!(conv_kernel_scala(&x, &k, 1, 1), 14);
}

#[test]
fn conv_kernel_scala_truncates_to_i8() {
    let x = vec![vec![vec![100i8, 100], vec![100, 100]]];
    // 40000 = 156 * 256 + 64
    assert_eq!(conv_kernel_scala(&x, &x, 0, 0), 64);
}

#[test]
fn conv_kernel_scala_u8_centers_on_zero_points() {
    let x = vec![vec![vec![12u8, 13], vec![14, 15]]];
    let k = vec![vec![vec![5u8, 6], vec![7, 8]]];
    // 2*2 + 3*3 + 4*4 + 5*5
    assert_eq!(conv_kernel_scala_u8(&x, &k, 0, 0, 10, 3), 54);
    assert_eq!(conv_kernel_scala_with_remainder_u8(&x, &k, 0, 0, 10, 3, 7), 61);
}

#[test]
fn vec_conv_fills_every_window_of_every_kernel() {
    let x = vec![vec![vec![vec![1i8, 2, 3], vec![4, 5, 6], vec![7, 8, 9]]]];
    let kernels = vec![vec![vec![vec![1i8, 0], vec![0, 1]]], vec![vec![vec![1i8, 1], vec![0, 0]]]];
    let mut res = fill4(0i8, 1, 2, 2, 2);
    vec_conv(&x, &kernels, &mut res);
    assert_eq!(res, vec![vec![vec![vec![6, 8], vec![12, 14]], vec![vec![3, 5], vec![9, 11]]]]);
}

#[test]
fn vec_conv_with_remainder_u8_requantizes_each_window() {
    let x = vec![vec![vec![vec![12u8, 13], vec![14, 15]]]];
    let kernels = vec![vec![vec![vec![5u8, 6], vec![7, 8]]]];
    let mut res = fill4(0u8, 1, 1, 1, 1);
    let m: u64 = 3 * FIXED_ONE / 4 + 1;
    let (rem, high) = vec_conv_with_remainder_u8(&x, &kernels, &mut res, 10, 3, 5, &[m]);
    // offset 5 * 2^22 / m = 6; accumulator m * (54 + 6) = 188743740 = 45 * 2^22 + 60
    assert_eq!(res, vec![vec![vec![vec![45]]]]);
    assert_eq!(rem, vec![vec![vec![vec![60u32]]]]);
    assert_eq!(high, vec![vec![vec![vec![0u32]]]]);
    let acc: u64 = m * 60;
    assert_eq!(
        high[0][0][0][0] as u64 * FIXED_ONE_TIMES_256 + res[0][0][0][0] as u64 * FIXED_ONE + rem[0][0][0][0] as u64,
        acc
    );
}

#[test]
fn avg_pool_helpers_divide_by_the_window_area() {
    let input = vec![vec![1u8, 2], vec![3, 5]];
    assert_eq!(avg_pool_helper_u8(&input, 0, 0, 2), 2);
    let (avg, rem) = avg_pool_with_remainder_helper_u8(&input, 0, 0, 2);
    assert_eq!((avg, rem), (2, 3));
    assert_eq!(avg as u32 * 4 + rem as u32, 11);
}

#[test]
fn avg_pool_helper_i8_rounds_toward_zero() {
    let input = vec![vec![-1i8, -2], vec![-3, -5]];
    assert_eq!(avg_pool_helper(&input, 0, 0, 2), -2);
}

#[test]
fn avg_pool_scala_u8_halves_each_side() {
    let x = vec![vec![grid_u8(4, 4)]];
    let out = avg_pool_scala_u8(&x, 2);
    assert_eq!(out, vec![vec![vec![vec![3, 5], vec![11, 13]]]]);
}

#[test]
fn avg_pool_scala_u8_drops_the_odd_edge() {
    let x = vec![vec![grid_u8(5, 5)]];
    let out = avg_pool_scala_u8(&x, 2);
    // windows (1+2+6+7)/4, (3+4+8+9)/4, (11+12+16+17)/4, (13+14+18+19)/4
    assert_eq!(out, vec![vec![vec![vec![4, 6], vec![14, 16]]]]);
}

#[test]
fn avg_pool_with_remainder_scala_u8_records_remainders() {
    let x = vec![vec![grid_u8(4, 4)]];
    let (out, rem) = avg_pool_with_remainder_scala_u8(&x, 2);
    assert_eq!(out, vec![vec![vec![vec![3, 5], vec![11, 13]]]]);
    assert_eq!(
        rem,
        vec![vec![vec![vec![2, 2, 0, 0], vec![2, 2, 0, 0], vec![0, 0, 0, 0], vec![0, 0, 0, 0]]]]
    );
}

#[test]
fn avg_pool_scala_i8_pools_every_channel() {
    let x = vec![vec![vec![vec![-1i8, -2], vec![-3, -5]], vec![vec![4i8, 4], vec![4, 5]]]];
    let out = avg_pool_scala(&x, 2);
    assert_eq!(out, vec![vec![vec![vec![-2]], vec![vec![4]]]]);
}

#[test]
fn flatten_lists_channels_then_rows() {
    let t = vec![
        vec![vec![vec![1u8, 2], vec![3, 4]], vec![vec![5u8, 6], vec![7, 8]]],
        vec![vec![vec![9u8, 10], vec![11, 12]], vec![vec![13u8, 14], vec![15, 16]]],
    ];
    let f = flatten(&t);
    assert_eq!(f, vec![vec![1, 2, 3, 4, 5, 6, 7, 8], vec![9, 10, 11, 12, 13, 14, 15, 16]]);
}

#[test]
fn fills_and_copies_keep_values() {
    assert_eq!(fill1(7u8, 3), vec![7, 7, 7]);
    assert_eq!(fill2(1i8, 2, 1), vec![vec![1], vec![1]]);
    let t = vec![vec![vec![vec![1u8, 2]], vec![vec![3u8]]]];
    assert_eq!(copy4(&t), t);
    let m = vec![vec![1i8, -1], vec![]];
    assert_eq!(copy2(&m), m);
}
