use zk_ml_private_model_baseline::lenet::{
    lenet_circuit_forward, lenet_circuit_forward_u8, lenet_circuit_forward_u8_helper, mismatches2, mismatches4,
};
use zk_ml_private_model_baseline::linear::FIXED_ONE;
use zk_ml_private_model_baseline::network::{forward, forward_trace, full_circuit_forward_u8, M, N};
use zk_ml_private_model_baseline::similarity::{
    argmax_u8, cosine_similarity, cosine_similarity_i8, vec_mat_mul_cos_helper, vec_mat_mul_cos_helper_i8,
};

fn padded_row_i8(first: &[i8], len: usize) -> Vec<i8> {
    let mut r = first.to_vec();
    r.resize(len, 0);
    r
}

fn padded_row_u8(first: &[u8], len: usize) -> Vec<u8> {
    let mut r = first.to_vec();
    r.resize(len, 0);
    r
}

#[test]
fn forward_runs_both_layers_with_relu_between() {
    let x = vec![1i8, 2];
    let l1 = vec![vec![1i8, 1], vec![1, -2]];
    let l2 = vec![padded_row_i8(&[1], M), padded_row_i8(&[2], M)];
    let z = forward(x.clone(), l1.clone(), l2.clone());
    let mut expected = vec![0i8; N];
    expected[0] = 3;
    expected[1] = 6;
    assert_eq!(z, expected);

    let (hidden, relued, out) = forward_trace(x, l1, l2);
    assert_eq!(hidden, padded_row_i8(&[3, -3], M));
    assert_eq!(relued, padded_row_i8(&[3], M));
    assert_eq!(out, expected);
}

#[test]
fn full_circuit_forward_u8_requantizes_both_layers() {
    let x = vec![12u8, 15];
    let l1 = vec![vec![5u8, 7]];
    let l2 = vec![padded_row_u8(&[1], M)];
    // first layer: (24 + 10) / 2 = 17 into zero point 5; the ReLU raises the other
    // 127 hidden entries from 0 to 5; second layer: (17 - 5) * 1 = 12
    let z = full_circuit_forward_u8(x, l1, l2, 10, 5, 0, 3, 0, vec![FIXED_ONE / 2], vec![FIXED_ONE]);
    let mut expected = vec![0u8; N];
    expected[0] = 12;
    assert_eq!(z, expected);
}

#[test]
fn cosine_helpers_are_dot_products() {
    assert_eq!(vec_mat_mul_cos_helper(&[1, 2, 3], &[4, 5, 6]), 32);
    assert_eq!(vec_mat_mul_cos_helper_i8(&[-1, 2, 3], &[4, 5, -6]), -12);
}

#[test]
fn cosine_similarity_compares_with_threshold_squared() {
    assert!(cosine_similarity(vec![1, 0], vec![1, 0], 99));
    assert!(!cosine_similarity(vec![1, 0], vec![1, 0], 100));
    assert!(!cosine_similarity(vec![1, 0], vec![0, 1], 0));
}

#[test]
fn cosine_similarity_i8_ignores_the_sign() {
    assert!(cosine_similarity_i8(vec![-1, 2], vec![-1, 2], 99));
    assert!(!cosine_similarity_i8(vec![-1, 2], vec![-1, 2], 100));
    assert!(cosine_similarity_i8(vec![1], vec![-1], 99));
}

#[test]
fn argmax_u8_picks_the_first_largest() {
    assert_eq!(argmax_u8(vec![3, 7, 7, 1]), 1);
    assert_eq!(argmax_u8(vec![]), 0);
    assert_eq!(argmax_u8(vec![0, 0]), 0);
    assert_eq!(argmax_u8(vec![0, 0, 1]), 2);
}

fn image_i8() -> Vec<Vec<Vec<i8>>> {
    let mut plane = Vec::new();
    for i in 0..6 {
        let mut row = Vec::new();
        for j in 0..6 {
            row.push((i * 6 + j) as i8);
        }
        plane.push(row);
    }
    vec![plane]
}

fn image_u8() -> Vec<Vec<Vec<u8>>> {
    let mut plane = Vec::new();
    for i in 0..6 {
        let mut row = Vec::new();
        for j in 0..6 {
            row.push((i * 6 + j) as u8);
        }
        plane.push(row);
    }
    vec![plane]
}

#[test]
fn lenet_circuit_forward_runs_every_stage() {
    // conv1 copies, pool1 gives [[3,5,7],[15,17,19],[27,29,31]], conv2 doubles,
    // pool2 averages 6, 10, 30, 34 into 20, conv3 copies, fc1 gives [20, -20],
    // its ReLU [20, 0], fc2 [20, 40]
    let x = vec![image_i8()];
    let out = lenet_circuit_forward(
        x,
        vec![vec![vec![vec![1]]]],
        vec![vec![vec![vec![2]]]],
        vec![vec![vec![vec![1]]]],
        vec![vec![1], vec![-1]],
        vec![vec![1, 1], vec![2, 0]],
    );
    assert_eq!(out, vec![vec![20, 40]]);
}

fn lenet_u8_inputs() -> (Vec<Vec<Vec<Vec<u8>>>>, Vec<Vec<Vec<Vec<u8>>>>, Vec<Vec<Vec<Vec<u8>>>>, Vec<Vec<Vec<Vec<u8>>>>, Vec<Vec<u8>>, Vec<Vec<u8>>) {
    let zero_image = vec![vec![vec![0u8; 6]; 6]];
    (
        vec![image_u8(), zero_image],
        vec![vec![vec![vec![1]]]],
        vec![vec![vec![vec![2]]]],
        vec![vec![vec![vec![1]]]],
        vec![vec![1], vec![2]],
        vec![vec![1, 1], vec![2, 1]],
    )
}

#[test]
fn lenet_circuit_forward_u8_runs_every_stage() {
    // with zero points 0 and multipliers 1: conv1 copies, pool1 and conv2 as in the
    // plain network, pool2 20, fc1 [20, 40], fc2 [60, 80]; the zero image stays zero
    let (x, k1, k2, k3, f1, f2) = lenet_u8_inputs();
    let one = vec![FIXED_ONE];
    let two = vec![FIXED_ONE, FIXED_ONE];
    let out = lenet_circuit_forward_u8(
        x, k1, k2, k3, f1, f2, 0, 0, 0, 0, 0, 0, 0, 0, 0, 0, 0, one.clone(), one.clone(), one, two.clone(), two,
    );
    assert_eq!(out, vec![vec![60, 80], vec![0, 0]]);
}

#[test]
fn lenet_circuit_forward_u8_helper_reports_mismatching_images() {
    let (x, k1, k2, k3, f1, f2) = lenet_u8_inputs();
    let one = vec![FIXED_ONE];
    let two = vec![FIXED_ONE, FIXED_ONE];
    let zero_plane = |n: usize| vec![vec![vec![0u8; n]; n]];
    let true_conv1 = vec![image_u8(), zero_plane(6)];
    let mut wrong_conv1 = true_conv1.clone();
    wrong_conv1[1][0][2][3] = 1;
    let true_conv2 = vec![vec![vec![vec![6u8, 10, 14], vec![30, 34, 38], vec![54, 58, 62]]], zero_plane(3)];
    let true_pool2 = vec![vec![vec![vec![20u8]]], zero_plane(1)];
    let wrong_conv3 = vec![vec![vec![vec![21u8]]], zero_plane(1)];
    let true_fc1 = vec![vec![20u8, 40], vec![0, 0]];
    let true_fc2 = vec![vec![60u8, 80], vec![0, 0]];
    let r = lenet_circuit_forward_u8_helper(
        x, k1, k2, k3, f1, f2, 0, 0, 0, 0, 0, 0, 0, 0, 0, 0, 0, one.clone(), one.clone(), one, two.clone(), two,
        wrong_conv1, true_conv2.clone(), wrong_conv3, true_fc1.clone(), true_fc2.clone(), true_pool2.clone(),
    );
    assert_eq!(r.trace.output, true_fc2);
    assert_eq!(r.trace.conv1, true_conv1);
    assert_eq!(r.trace.conv2, true_conv2);
    assert_eq!(r.trace.avgpool2, true_pool2);
    assert_eq!(r.trace.fc1, true_fc1);
    assert_eq!(r.conv1_mismatch, vec![1]);
    assert_eq!(r.conv2_mismatch, Vec::<usize>::new());
    assert_eq!(r.avgpool2_mismatch, Vec::<usize>::new());
    assert_eq!(r.conv3_mismatch, vec![0]);
    assert_eq!(r.fc1_mismatch, Vec::<usize>::new());
}

#[test]
fn mismatches_list_differing_positions_in_order() {
    let a = vec![vec![1u8], vec![2], vec![3], vec![4]];
    let b = vec![vec![1u8], vec![0], vec![3, 0], vec![5]];
    assert_eq!(mismatches2(&a, &b, 4), vec![1, 2, 3]);
    assert_eq!(mismatches2(&a, &b, 1), Vec::<usize>::new());
    let t = vec![vec![vec![vec![1u8]]], vec![vec![vec![2u8]]]];
    let u = vec![vec![vec![vec![1u8]]], vec![vec![vec![2u8], vec![]]]];
    assert_eq!(mismatches4(&t, &u, 2), vec![1]);
    assert_eq!(mismatches4(&t, &t, 2), Vec::<usize>::new());
}

#[test]
fn lenet_circuit_forward_u8_treats_each_image_alone() {
    let (x, k1, k2, k3, f1, f2) = lenet_u8_inputs();
    let one = vec![FIXED_ONE];
    let two = vec![FIXED_ONE, FIXED_ONE];
    let run = |images: Vec<Vec<Vec<Vec<u8>>>>| {
        lenet_circuit_forward_u8(
            images, k1.clone(), k2.clone(), k3.clone(), f1.clone(), f2.clone(), 0, 0, 0, 0, 0, 0, 0, 0, 0, 0, 0,
            one.clone(), one.clone(), one.clone(), two.clone(), two.clone(),
        )
    };
    let batch = run(x.clone());
    for b in 0..x.len() {
        assert_eq!(run(vec![x[b].clone()])[0], batch[b]);
    }
}

#[test]
fn lenet_circuit_forward_treats_each_image_alone() {
    let mut second = image_i8();
    second[0][1][1] = -40;
    second[0][4][5] = 90;
    let x = vec![image_i8(), second];
    let run = |images: Vec<Vec<Vec<Vec<i8>>>>| {
        lenet_circuit_forward(
            images,
            vec![vec![vec![vec![1]]]],
            vec![vec![vec![vec![2]]]],
            vec![vec![vec![vec![1]]]],
            vec![vec![1], vec![-1]],
            vec![vec![1, 1], vec![2, 0]],
        )
    };
    let batch = run(x.clone());
    assert_eq!(batch[0], vec![20, 40]);
    for b in 0..x.len() {
        assert_eq!(run(vec![x[b].clone()])[0], batch[b]);
    }
}

#[test]
fn lenet_u8_image_of_another_size_pooled_alike_gives_its_own_row() {
    // a 7 x 7 image after a 6 x 6 one: both pool to 3 x 3 after the 1 x 1 first kernel
    let (_, k1, k2, k3, f1, f2) = lenet_u8_inputs();
    let mut big = vec![vec![vec![0u8; 7]; 7]];
    for i in 0..7 {
        for j in 0..7 {
            big[0][i][j] = (40 - i * 5 + j) as u8;
        }
    }
    let one = vec![FIXED_ONE];
    let two = vec![FIXED_ONE, FIXED_ONE];
    let run = |images: Vec<Vec<Vec<Vec<u8>>>>| {
        lenet_circuit_forward_u8(
            images, k1.clone(), k2.clone(), k3.clone(), f1.clone(), f2.clone(), 0, 0, 0, 0, 0, 0, 0, 0, 0, 0, 0,
            one.clone(), one.clone(), one.clone(), two.clone(), two.clone(),
        )
    };
    let batch = run(vec![image_u8(), big.clone()]);
    assert_eq!(run(vec![big])[0], batch[1]);
}

#[test]
fn lenet_i8_image_of_another_size_pooled_alike_gives_its_own_row() {
    let mut big = vec![vec![vec![0i8; 7]; 7]];
    for i in 0..7 {
        for j in 0..7 {
            big[0][i][j] = (i * 3) as i8 - (j * 2) as i8;
        }
    }
    let run = |images: Vec<Vec<Vec<Vec<i8>>>>| {
        lenet_circuit_forward(
            images,
            vec![vec![vec![vec![1]]]],
            vec![vec![vec![vec![2]]]],
            vec![vec![vec![vec![1]]]],
            vec![vec![1], vec![-1]],
            vec![vec![1, 1], vec![2, 0]],
        )
    };
    let batch = run(vec![image_i8(), big.clone()]);
    assert_eq!(run(vec![big])[0], batch[1]);
}
