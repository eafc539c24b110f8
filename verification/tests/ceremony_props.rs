//! The ceremony's stated properties on concrete values, and the failure
//! modes of every component.

use groth16_mpc::curve::{Fr, G1Point, G2Point};
use groth16_mpc::mpc::{
    initParameterList, ParamterListExcute, initial_common_paramters, initial_uncommon_paramters,
    mpc_bad_paramters_custom, mpc_common_paramters_custom_all, mpc_common_paramters_custom_generator,
    mpc_common_paramters_generator, mpc_uncommon_paramters_custom_all, run_common_ceremony,
    run_uncommon_ceremony, verify_common_paramter, verify_mpc_g1, ParameterPair,
};
use groth16_mpc::assembly::{Index, KeypairAssembly, Variable, generate_parameters_mpc};
use groth16_mpc::Error;

/// Chain consistency: after accepted rounds with scalars 1, 2, 3 the alpha
/// commitment carries their product 6, and the tau powers carry powers of
/// the tau product.
#[test]
fn chain_consistency_products() {
    let rounds = vec![(1u64, 2u64, 1u64), (2, 3, 1), (3, 4, 2)];
    let storage = run_common_ceremony(8, &rounds);
    assert!(storage.alpha_g1.eq_point(&G1Point::from_u64(6)));
    assert!(storage.alpha_g2.eq_point(&G2Point::from_u64(6)));
    assert!(storage.beta_g1.eq_point(&G1Point::from_u64(24)));
    assert!(storage.tau_g1[0].eq_point(&G1Point::from_u64(1)));
    assert!(storage.tau_g1[1].eq_point(&G1Point::from_u64(2)));
    assert!(storage.tau_g1[2].eq_point(&G1Point::from_u64(4)));
    assert!(storage.tau_g1[3].eq_point(&G1Point::from_u64(8)));
    assert!(storage.alpha_mul_tau_g1[1].eq_point(&G1Point::from_u64(6 * 2)));
    assert!(storage.beta_mul_tau_g1[2].eq_point(&G1Point::from_u64(24 * 4)));
}

/// Rejection soundness: a pair whose proof points encode different scalars
/// fails the chain verifier, and a contribution that ignores the previous
/// result is rejected from a chained ledger.
#[test]
fn rejection_of_inconsistent_contributions() {
    let inconsistent = ParameterPair {
        g1_result: G1Point::from_u64(5),
        g2_result: G2Point::from_u64(5),
        g1_mine: G1Point::from_u64(2),
        g2_mine: G2Point::from_u64(3),
    };
    assert!(!verify_mpc_g1(&inconsistent, &Vec::new()));

    let list = initParameterList();
    let good = mpc_common_paramters_custom_generator(&list[0], Fr::from_u64(5)).unwrap();
    let list = ParamterListExcute(list, good).unwrap();
    let last = list[list.len() - 1];
    let bad = mpc_bad_paramters_custom(&last, Fr::from_u64(7)).unwrap();
    assert_eq!(
        ParamterListExcute(list, bad).unwrap_err(),
        Error::RejectedContribution
    );
}

/// A tampered common contribution is rejected and the ledger is unchanged.
#[test]
fn rejection_of_tampered_common_round() {
    let storage = initial_common_paramters(4);
    let mut contribution = mpc_common_paramters_generator(&storage, (2, 3, 4));
    contribution.alpha.g1_result = G1Point::from_u64(99);
    assert_eq!(
        verify_common_paramter(&storage, &contribution).unwrap_err(),
        Error::RejectedContribution
    );
}

/// Division correctness: after an uncommon ceremony with gamma scalars
/// 2, 3 and delta scalars 5, 7, each query entry is the original
/// commitment divided by the running product.
#[test]
fn division_correctness() {
    let rounds = vec![(1u64, 2u64, 1u64), (2, 3, 1), (3, 4, 2)];
    let storage = run_common_ceremony(8, &rounds);
    let at: Vec<Vec<(Fr, usize)>> = vec![vec![(Fr::from_u64(1), 0usize)], vec![]];
    let bt: Vec<Vec<(Fr, usize)>> = vec![vec![], vec![(Fr::from_u64(2), 1usize)]];
    let ct: Vec<Vec<(Fr, usize)>> = Vec::new();
    let matrix = storage.matrix_test(&at, &bt, &ct, 2, 2, 4);
    let un_rounds = vec![(2u64, 5u64), (3, 7)];
    let un = run_uncommon_ceremony(&matrix, &un_rounds).unwrap();
    assert!(un.gamma_g1.eq_point(&G1Point::from_u64(6)));
    assert!(un.delta_g1.eq_point(&G1Point::from_u64(35)));
    let inv_gamma = Fr::from_u64(6).invert().unwrap();
    let inv_delta = Fr::from_u64(35).invert().unwrap();
    for i in 0..un.kin_g1.len() {
        assert!(un.kin_g1[i].eq_point(&matrix.matrixed_g1_front[i].mul_fr(&inv_gamma)));
    }
    for i in 0..un.kout_g1.len() {
        assert!(un.kout_g1[i].eq_point(&matrix.matrixed_g1_back[i].mul_fr(&inv_delta)));
    }
    for i in 0..un.h_g1.len() {
        assert!(un.h_g1[i].eq_point(&matrix.matrixed_h_g1[i].mul_fr(&inv_delta)));
    }
}

/// A zero scalar in an uncommon round is the degenerate-scalar failure.
#[test]
fn degenerate_scalar_is_rejected() {
    let rounds = vec![(1u64, 2u64, 1u64)];
    let storage = run_common_ceremony(4, &rounds);
    let at: Vec<Vec<(Fr, usize)>> = Vec::new();
    let matrix = storage.matrix_test(&at, &at, &at, 1, 1, 2);
    assert_eq!(
        run_uncommon_ceremony(&matrix, &vec![(0u64, 1u64)]).unwrap_err(),
        Error::DegenerateScalar
    );
    assert_eq!(
        run_uncommon_ceremony(&matrix, &vec![(1u64, 0u64)]).unwrap_err(),
        Error::DegenerateScalar
    );
}

/// Matrix evaluation: the per-row accumulation of committed entries, on a
/// two-variable toy system.
#[test]
fn matrix_evaluation_rows() {
    let rounds = vec![(1u64, 1u64, 2u64)];
    let storage = run_common_ceremony(8, &rounds);
    // tau powers are 1, 2, 4, 8, ... so the committed window holds 1 and 2.
    let at: Vec<Vec<(Fr, usize)>> = vec![
        vec![(Fr::from_u64(1), 0usize), (Fr::from_u64(2), 1usize)],
        vec![],
    ];
    let bt: Vec<Vec<(Fr, usize)>> = vec![vec![], vec![]];
    let ct: Vec<Vec<(Fr, usize)>> = vec![vec![], vec![]];
    let m = storage.matrix_test(&at, &bt, &ct, 2, 2, 4);
    // beta is 1, so the front row sums beta*tau entries: 1*1 + 2*2 = 5.
    assert!(m.matrixed_g1_front[0].eq_point(&G1Point::from_u64(5)));
    assert!(m.matrixed_g1_front[1].eq_point(&G1Point::from_u64(0)));
}

/// Idempotence: evaluating the same closed ledger and matrices twice
/// yields the same commitments.
#[test]
fn evaluator_idempotence() {
    let rounds = vec![(1u64, 2u64, 1u64), (2, 3, 1), (3, 4, 2)];
    let storage = run_common_ceremony(8, &rounds);
    let at: Vec<Vec<(Fr, usize)>> = vec![vec![(Fr::from_u64(1), 0usize)], vec![]];
    let bt: Vec<Vec<(Fr, usize)>> = vec![vec![], vec![(Fr::from_u64(2), 1usize)]];
    let ct: Vec<Vec<(Fr, usize)>> = Vec::new();
    let m1 = storage.matrix_test(&at, &bt, &ct, 2, 2, 4);
    let m2 = storage.matrix_test(&at, &bt, &ct, 2, 2, 4);
    assert!(m1.equals(&m2));
}

/// The end-to-end scenario: the production common ceremony, the toy
/// matrices, and the production uncommon ceremony.
#[test]
fn end_to_end_scenario() {
    let cp = mpc_common_paramters_custom_all();
    assert!(cp.alpha_g1.eq_point(&G1Point::from_u64(6)));
    assert!(cp.beta_g1.eq_point(&G1Point::from_u64(24)));
    assert!(cp.tau_g1[1].eq_point(&G1Point::from_u64(2)));

    let matrix1 = vec![
        vec![(Fr::from_u64(1), 0usize), (Fr::from_u64(1), 1usize)],
        vec![],
    ];
    let matrix2 = vec![
        vec![(Fr::from_u64(1), 0usize)],
        vec![(Fr::from_u64(1), 1usize)],
    ];
    let matrix3: Vec<Vec<(Fr, usize)>> = Vec::new();
    let cp_m = cp.matrix_test(&matrix1, &matrix2, &matrix3, 2, 2, 4);

    let ucp = mpc_uncommon_paramters_custom_all(&cp_m);
    assert!(ucp.gamma_g1.eq_point(&G1Point::from_u64(6)));
    assert!(ucp.gamma_g2.eq_point(&G2Point::from_u64(6)));
    assert!(ucp.delta_g1.eq_point(&G1Point::from_u64(24)));
    assert!(ucp.delta_g2.eq_point(&G2Point::from_u64(24)));
    let inv_gamma = Fr::from_u64(6).invert().unwrap();
    let inv_delta = Fr::from_u64(24).invert().unwrap();
    for i in 0..ucp.kin_g1.len() {
        assert!(ucp.kin_g1[i].eq_point(&cp_m.matrixed_g1_front[i].mul_fr(&inv_gamma)));
    }
    for i in 0..ucp.kout_g1.len() {
        assert!(ucp.kout_g1[i].eq_point(&cp_m.matrixed_g1_back[i].mul_fr(&inv_delta)));
    }
    for i in 0..ucp.h_g1.len() {
        assert!(ucp.h_g1[i].eq_point(&cp_m.matrixed_h_g1[i].mul_fr(&inv_delta)));
    }
}

/// The assembly records constraints per variable, rejects unallocated
/// variables, and the pipeline runs end to end on a fitting system.
#[test]
fn assembly_and_pipeline() {
    let mut assembly = KeypairAssembly::new();
    let i0 = assembly.allocate_input();
    let _i1 = assembly.allocate_input();
    let a0 = assembly.allocate_aux();
    let a1 = assembly.allocate_aux();
    assert_eq!(i0, Variable(Index::Input(0)));
    assert_eq!(a0, Variable(Index::Aux(0)));

    let unallocated = Variable(Index::Aux(9));
    assert_eq!(
        assembly
            .enforce(&vec![(Fr::from_u64(1), unallocated)], &Vec::new(), &Vec::new())
            .unwrap_err(),
        Error::MissingWitnessShape
    );

    assembly
        .enforce(
            &vec![(Fr::from_u64(1), a0)],
            &vec![(Fr::from_u64(1), a0), (Fr::from_u64(3), a1)],
            &Vec::new(),
        )
        .unwrap();
    assembly
        .enforce(
            &vec![(Fr::from_u64(2), a0)],
            &vec![(Fr::from_u64(2), a0), (Fr::from_u64(4), a1)],
            &Vec::new(),
        )
        .unwrap();
    assert_eq!(assembly.num_constraints, 2);
    assert_eq!(assembly.at_aux[0].len(), 2);
    assert_eq!(assembly.at_aux[0][1].1, 1);

    let (cp, cp_m, ucp) = generate_parameters_mpc(assembly).unwrap();
    assert!(cp.alpha_g1.eq_point(&G1Point::from_u64(6)));
    assert!(ucp.gamma_g1.eq_point(&G1Point::from_u64(6)));
    let inv_gamma = Fr::from_u64(6).invert().unwrap();
    for i in 0..ucp.kin_g1.len() {
        assert!(ucp.kin_g1[i].eq_point(&cp_m.matrixed_g1_front[i].mul_fr(&inv_gamma)));
    }
}

/// A system too large for the fixed degree-8 ledger is refused before any
/// ceremony round.
#[test]
fn oversized_system_is_refused() {
    let mut assembly = KeypairAssembly::new();
    for _ in 0..6 {
        let _ = assembly.allocate_input();
    }
    for _ in 0..6 {
        let _ = assembly.allocate_aux();
    }
    assert_eq!(
        generate_parameters_mpc(assembly).unwrap_err(),
        Error::InsufficientTauDegree
    );
}
