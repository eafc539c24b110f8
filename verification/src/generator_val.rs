//! Dense-matrix evaluation helpers over committed tau powers: elementwise
//! vector addition, vector summation, and the row-by-row product of a
//! dense coefficient matrix with a committed power vector.

use vstd::prelude::*;
use crate::curve::{fr_order, Fr, G1Point};
use crate::mpc::{g1_logs, matrix_view};

verus! {

/// The exponent of the elementwise group sum of two committed vectors.
pub open spec fn spec_vec_add(a: Seq<nat>, b: Seq<nat>) -> Seq<nat> {
    Seq::new(a.len(), |i: int| (a[i] + b[i]) % fr_order())
}

/// The exponent of the left-to-right group sum of a committed vector.
pub open spec fn spec_vec_sum(s: Seq<nat>) -> nat
    decreases s.len(),
{
    if s.len() <= 1 {
        s[0]
    } else {
        (spec_vec_sum(s.drop_last()) + s.last()) % fr_order()
    }
}

/// Adds two committed vectors entry by entry.
#[verifier::loop_isolation(false)]
pub fn tau_list_add(v1: &Vec<G1Point>, v2: &Vec<G1Point>) -> (r: Vec<G1Point>)
    requires
        v1@.len() == v2@.len(),
    ensures
        g1_logs(r@) == spec_vec_add(g1_logs(v1@), g1_logs(v2@)),
{
    let mut result: Vec<G1Point> = Vec::new();
    for i in 0..v1.len()
        invariant
            result@.len() == i,
            forall|j: int|
                0 <= j < i ==> (#[trigger] result@[j]@) == (v1@[j]@ + v2@[j]@) % fr_order(),
    {
        result.push(v1[i].add_point(&v2[i]));
    }
    proof {
        assert (g1_logs(result@) =~= spec_vec_add(g1_logs(v1@), g1_logs(v2@)));
    }
    result
}

/// Sums a committed vector into a single commitment, left to right.
#[verifier::loop_isolation(false)]
pub fn tau_list_sum(v1: &Vec<G1Point>) -> (r: G1Point)
    requires
        v1@.len() >= 1,
    ensures
        r@ == spec_vec_sum(g1_logs(v1@)),
{
    let mut result = v1[0];
    for i in 1..v1.len()
        invariant
            result@ == spec_vec_sum(g1_logs(v1@).take(i as int)),
    {
        result = result.add_point(&v1[i]);
        proof {
            let logs = g1_logs(v1@);
            assert (logs.take(i + 1).drop_last() =~= logs.take(i as int));
            assert (logs.take(i + 1).last() == logs[i as int]);
        }
    }
    proof {
        assert (g1_logs(v1@).take(v1@.len() as int) =~= g1_logs(v1@));
    }
    result
}

/// A matrix is dense over a width: every row holds exactly one entry per
/// column, in order.
pub open spec fn spec_matrix_dense(m: Seq<Seq<(nat, nat)>>, width: nat) -> bool {
    forall|i: int|
        0 <= i < m.len() ==> (#[trigger] m[i]).len() == width && forall|j: int|
            0 <= j < m[i].len() ==> (#[trigger] m[i][j]).1 == j
}

/// The exponent accumulated in one column: each row contributes the
/// committed power of that column scaled by the row's coefficient there.
pub open spec fn spec_col_acc(tau: Seq<nat>, m: Seq<Seq<(nat, nat)>>, j: int) -> nat
    decreases m.len(),
{
    if m.len() <= 1 {
        (tau[j] * m[0][j].0) % fr_order()
    } else {
        (spec_col_acc(tau, m.drop_last(), j) + (tau[j] * m.last()[j].0) % fr_order()) % fr_order()
    }
}

/// Multiplies a dense coefficient matrix against a committed power vector
/// and sums everything into a single commitment: column by column, each
/// row's coefficient scales the column's power, and the columns are summed
/// left to right.
#[verifier::loop_isolation(false)]
pub fn matrix_mul_tau(matrix: &Vec<Vec<(Fr, usize)>>, tau: &Vec<G1Point>) -> (r: G1Point)
    requires
        matrix@.len() >= 1,
        tau@.len() >= 1,
        spec_matrix_dense(matrix_view(matrix@), tau@.len() as nat),
    ensures
        r@ == spec_vec_sum(
            Seq::new(
                tau@.len(),
                |j: int| spec_col_acc(g1_logs(tau@), matrix_view(matrix@), j),
            ),
        ),
{
    let mut result: Vec<G1Point> = Vec::new();
    let rows = matrix.len();
    for i in 0..rows
        invariant
            rows == matrix@.len(),
            result@.len() == if i == 0 {
                0int
            } else {
                tau@.len() as int
            },
            i > 0 ==> forall|j: int|
                0 <= j < tau@.len() ==> (#[trigger] result@[j]@) == spec_col_acc(
                    g1_logs(tau@),
                    matrix_view(matrix@).take(i as int),
                    j,
                ),
    {
        proof {
            assert (matrix_view(matrix@)[i as int].len() == tau@.len());
        }
        let mut result_part: Vec<G1Point> = Vec::new();
        for j in 0..tau.len()
            invariant
                i < rows,
                result_part@.len() == j,
                forall|k: int|
                    0 <= k < j ==> (#[trigger] result_part@[k]@) == (tau@[k]@ * matrix_view(
                        matrix@,
                    )[i as int][k].0) % fr_order(),
        {
            proof {
                assert (matrix_view(matrix@)[i as int][j as int] == (
                    matrix@[i as int]@[j as int].0@,
                    matrix@[i as int]@[j as int].1 as nat,
                ));
            }
            result_part.push(tau[j].mul_fr(&matrix[i][j].0));
        }
        if result.len() == 0 {
            result = result_part;
            proof {
                assert (result@.len() == tau@.len());
                assert forall|j: int| 0 <= j < tau@.len() implies (#[trigger] result@[j]@)
                    == spec_col_acc(g1_logs(tau@), matrix_view(matrix@).take(i + 1), j) by {
                    let taken = matrix_view(matrix@).take(i + 1);
                    assert (taken.len() == 1);
                    assert (taken[0] == matrix_view(matrix@)[i as int]);
                    assert (g1_logs(tau@)[j] == tau@[j]@);
                }
            }
        } else {
            result = tau_list_add(&result, &result_part);
            proof {
                assert (g1_logs(result@).len() == result@.len());
                assert (result@.len() == tau@.len());
                assert forall|j: int| 0 <= j < tau@.len() implies (#[trigger] result@[j]@)
                    == spec_col_acc(g1_logs(tau@), matrix_view(matrix@).take(i + 1), j) by {
                    let taken = matrix_view(matrix@).take(i + 1);
                    assert (taken.drop_last() =~= matrix_view(matrix@).take(i as int));
                    assert (taken.last() == matrix_view(matrix@)[i as int]);
                    assert (g1_logs(result@)[j] == result@[j]@);
                    assert (g1_logs(tau@)[j] == tau@[j]@);
                }
            }
        }
    }
    proof {
        assert (matrix_view(matrix@).take(rows as int) =~= matrix_view(matrix@));
    }
    let total = tau_list_sum(&result);
    proof {
        assert (g1_logs(result@) =~= Seq::new(
            tau@.len(),
            |j: int| spec_col_acc(g1_logs(tau@), matrix_view(matrix@), j),
        ));
    }
    total
}

} // verus!
