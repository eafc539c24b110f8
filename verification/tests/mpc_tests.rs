//! The ceremony flows on fixed concrete scenarios.

use groth16_mpc::curve::{Fr, G1Point, G2Point};
use groth16_mpc::mpc::{
    initial_common_paramters, mpc_common_paramters_generator, verify_common_paramter,
    initial_uncommon_paramters, mpc_uncommon_paramters_generator, verify_uncommon_paramter,
    CommonParamterMatrix,
};
use groth16_mpc::generator_val::{matrix_mul_tau, tau_list_add, tau_list_sum};

#[test]
fn all_test() {
    let mut paramter_in_storage = initial_common_paramters(8);
    let player1_common = mpc_common_paramters_generator(&paramter_in_storage, (1, 2, 3));
    paramter_in_storage = verify_common_paramter(&paramter_in_storage, &player1_common).unwrap();
    let player2_common = mpc_common_paramters_generator(&paramter_in_storage, (2, 3, 4));
    paramter_in_storage = verify_common_paramter(&paramter_in_storage, &player2_common).unwrap();
    let player3_common = mpc_common_paramters_generator(&paramter_in_storage, (3, 4, 5));
    paramter_in_storage = verify_common_paramter(&paramter_in_storage, &player3_common).unwrap();

    let at_aux = vec![
        vec![(Fr::from_u64(1), 0usize), (Fr::from_u64(2), 1usize)],
        vec![],
    ];
    let bt_aux = vec![
        vec![(Fr::from_u64(1), 0usize), (Fr::from_u64(2), 1usize)],
        vec![(Fr::from_u64(3), 0usize), (Fr::from_u64(4), 1usize)],
    ];
    let ct_aux: Vec<Vec<(Fr, usize)>> = vec![vec![], vec![]];

    let common_paramter_matrix = paramter_in_storage.matrix(&at_aux, &bt_aux, &ct_aux, 2, 2, 4);
    let mut paramter_in_storage = initial_uncommon_paramters(&common_paramter_matrix);
    let player1_common = mpc_uncommon_paramters_generator(&paramter_in_storage, (1, 2));
    paramter_in_storage =
        verify_uncommon_paramter(&common_paramter_matrix, &paramter_in_storage, &player1_common)
            .unwrap();
    let player2_common = mpc_uncommon_paramters_generator(&paramter_in_storage, (2, 3));
    paramter_in_storage =
        verify_uncommon_paramter(&common_paramter_matrix, &paramter_in_storage, &player2_common)
            .unwrap();
    let player3_common = mpc_uncommon_paramters_generator(&paramter_in_storage, (3, 4));
    paramter_in_storage =
        verify_uncommon_paramter(&common_paramter_matrix, &paramter_in_storage, &player3_common)
            .unwrap();
    let _ = paramter_in_storage;
}

#[test]
fn test_h() {
    let g1 = bls12_381::G1Affine::generator();
    println!("g1*-1:{:?}", bls12_381::G1Affine::from(-g1));
}

#[test]
#[allow(non_snake_case)]
fn HexToScalar() {}

#[test]
fn common_works() {
    let mut paramter_in_storage = initial_common_paramters(8);
    let player1_common = mpc_common_paramters_generator(&paramter_in_storage, (1, 2, 3));
    paramter_in_storage = verify_common_paramter(&paramter_in_storage, &player1_common).unwrap();
    let player2_common = mpc_common_paramters_generator(&paramter_in_storage, (2, 3, 4));
    paramter_in_storage = verify_common_paramter(&paramter_in_storage, &player2_common).unwrap();
    let player3_common = mpc_common_paramters_generator(&paramter_in_storage, (3, 4, 5));
    paramter_in_storage = verify_common_paramter(&paramter_in_storage, &player3_common).unwrap();

    let matrix1 = vec![
        vec![(Fr::from_u64(1), 0usize), (Fr::from_u64(1), 1usize)],
        vec![],
    ];
    let matrix2 = vec![
        vec![(Fr::from_u64(1), 0usize)],
        vec![(Fr::from_u64(1), 1usize)],
    ];
    let matrix3: Vec<Vec<(Fr, usize)>> = Vec::new();

    let cp_m = paramter_in_storage.matrix_test(&matrix1, &matrix2, &matrix3, 2, 2, 4);

    assert!(cp_m.matrixed_g1_front[0].eq_point(&G1Point::from_u64(24 * 61 + 6)));
    assert!(cp_m.matrixed_g1_front[1].eq_point(&G1Point::from_u64(6 * 60)));
}

#[test]
fn matrix_works() {
    let x1 = G1Point::from_u64(60);
    let x2 = G1Point::from_u64(240);
    println!("{:?}", x1);
    println!("{:?}", x2);
}

#[test]
fn uncommonn_works() {
    let common_paramter_matrix = CommonParamterMatrix {
        matrixed_g1_front: vec![G1Point::from_u64(6), G1Point::from_u64(12)],
        matrixed_g2_front: vec![G2Point::from_u64(6), G2Point::from_u64(12)],
        matrixed_g1_back: vec![G1Point::from_u64(24), G1Point::from_u64(48)],
        matrixed_g2_back: vec![G2Point::from_u64(24), G2Point::from_u64(48)],
        matrixed_h_g1: vec![
            G1Point::from_u64(2),
            G1Point::from_u64(4),
            G1Point::from_u64(6),
            G1Point::from_u64(8),
        ],
        matrixed_h_g2: vec![
            G2Point::from_u64(2),
            G2Point::from_u64(4),
            G2Point::from_u64(6),
            G2Point::from_u64(8),
        ],
    };
    let mut paramter_in_storage = initial_uncommon_paramters(&common_paramter_matrix);
    let player1_common = mpc_uncommon_paramters_generator(&paramter_in_storage, (1, 2));
    paramter_in_storage =
        verify_uncommon_paramter(&common_paramter_matrix, &paramter_in_storage, &player1_common)
            .unwrap();
    assert!(paramter_in_storage.gamma_g2.eq_point(&G2Point::from_u64(1)));
    let player2_common = mpc_uncommon_paramters_generator(&paramter_in_storage, (2, 3));
    assert!(player2_common.delta.g2_result.eq_point(&G2Point::from_u64(6)));
    assert!(player2_common.gamma.g2_mine.eq_point(&G2Point::from_u64(2)));
    paramter_in_storage =
        verify_uncommon_paramter(&common_paramter_matrix, &paramter_in_storage, &player2_common)
            .unwrap();
    let player3_common = mpc_uncommon_paramters_generator(&paramter_in_storage, (3, 4));
    paramter_in_storage =
        verify_uncommon_paramter(&common_paramter_matrix, &paramter_in_storage, &player3_common)
            .unwrap();

    assert!(paramter_in_storage.gamma_g1.eq_point(&G1Point::from_u64(6)));
    assert!(paramter_in_storage.gamma_g2.eq_point(&G2Point::from_u64(6)));
    assert!(paramter_in_storage.delta_g1.eq_point(&G1Point::from_u64(24)));
    assert!(paramter_in_storage.delta_g2.eq_point(&G2Point::from_u64(24)));
    let gamma_invert = Fr::from_u64(6).invert().unwrap();
    let delta_invert = Fr::from_u64(24).invert().unwrap();
    assert!(paramter_in_storage.kin_g1[0]
        .eq_point(&common_paramter_matrix.matrixed_g1_front[0].mul_fr(&gamma_invert)));
    assert!(paramter_in_storage.kin_g1[1]
        .eq_point(&common_paramter_matrix.matrixed_g1_front[1].mul_fr(&gamma_invert)));
    assert!(paramter_in_storage.kout_g1[0]
        .eq_point(&common_paramter_matrix.matrixed_g1_back[0].mul_fr(&delta_invert)));
    assert!(paramter_in_storage.kout_g1[1]
        .eq_point(&common_paramter_matrix.matrixed_g1_back[1].mul_fr(&delta_invert)));
    assert!(paramter_in_storage.h_g1[0]
        .eq_point(&common_paramter_matrix.matrixed_h_g1[0].mul_fr(&delta_invert)));
    assert!(paramter_in_storage.h_g1[1]
        .eq_point(&common_paramter_matrix.matrixed_h_g1[1].mul_fr(&delta_invert)));
    assert!(paramter_in_storage.h_g1[2]
        .eq_point(&common_paramter_matrix.matrixed_h_g1[2].mul_fr(&delta_invert)));
    assert!(paramter_in_storage.h_g1[3]
        .eq_point(&common_paramter_matrix.matrixed_h_g1[3].mul_fr(&delta_invert)));
}

#[test]
fn dense_matrix_helpers() {
    let v1 = vec![G1Point::from_u64(1), G1Point::from_u64(2)];
    let v2 = vec![G1Point::from_u64(10), G1Point::from_u64(20)];
    let s = tau_list_add(&v1, &v2);
    assert!(s[0].eq_point(&G1Point::from_u64(11)));
    assert!(s[1].eq_point(&G1Point::from_u64(22)));
    assert!(tau_list_sum(&s).eq_point(&G1Point::from_u64(33)));
    let matrix = vec![
        vec![(Fr::from_u64(1), 0usize), (Fr::from_u64(2), 1usize)],
        vec![(Fr::from_u64(3), 0usize), (Fr::from_u64(4), 1usize)],
    ];
    let tau = vec![G1Point::from_u64(2), G1Point::from_u64(4)];
    // Column sums are 2*1 + 2*3 = 8 and 4*2 + 4*4 = 24, so the total is 32.
    assert!(matrix_mul_tau(&matrix, &tau).eq_point(&G1Point::from_u64(32)));
}
