//! The multi-party trusted-setup ceremony: running commitments to the secret
//! scalars, contributor rounds, pairing-based verification of each round,
//! and the group-domain evaluation of the QAP matrices.
//!
//! Every structure is modelled by the exponents of its commitments: the view
//! of a `ParameterPair` is the quadruple of exponents of its four points, and
//! ledgers are records of such exponents.  All contracts are stated over
//! these views, with arithmetic modulo the group order q.

use vstd::prelude::*;
use vstd::arithmetic::div_mod::{lemma_mod_twice, lemma_mod_division_less_than_divisor};
use crate::curve::{fr_order, sub_mod, Fr, G1Point, G2Point, pairing, gt_eq};
use crate::modarith::{
    pow_nat, lemma_pow_nat_one, lemma_pow_nat_distributes, lemma_cong_mul_right,
    lemma_mul_mod_fold, lemma_mul_mod_both, lemma_mul_exchange, lemma_inv_cancel,
};
use crate::Error;

verus! {

/// One contributor's published values for a single commitment: the running
/// commitment after the contributor's scalar was applied (`g1_result`,
/// `g2_result`), and the scalar applied to the fixed base points
/// (`g1_mine`, `g2_mine`), which lets a verifier check the contribution by
/// pairings without learning the scalar.
#[derive(Clone, Copy, Debug)]
pub struct ParameterPair {
    pub g1_result: G1Point,
    pub g2_result: G2Point,
    pub g1_mine: G1Point,
    pub g2_mine: G2Point,
}

/// The exponents of the four points of a `ParameterPair`.
#[verifier::ext_equal]
pub ghost struct PairView {
    pub g1_result: nat,
    pub g2_result: nat,
    pub g1_mine: nat,
    pub g2_mine: nat,
}

impl View for ParameterPair {
    type V = PairView;

    open spec fn view(&self) -> PairView {
        PairView {
            g1_result: self.g1_result@,
            g2_result: self.g2_result@,
            g1_mine: self.g1_mine@,
            g2_mine: self.g2_mine@,
        }
    }
}

impl ParameterPair {
    /// The running G1 commitment.
    pub fn get_g1(&self) -> (r: G1Point)
        ensures
            r@ == self@.g1_result,
    {
        self.g1_result
    }

    /// The running G2 commitment.
    pub fn get_g2(&self) -> (r: G2Point)
        ensures
            r@ == self@.g2_result,
    {
        self.g2_result
    }
}

/// The view of a sequence of pairs.
pub open spec fn pair_seq_view(s: Seq<ParameterPair>) -> Seq<PairView> {
    s.map_values(|p: ParameterPair| p@)
}

/// The pair a contributor publishes when applying the scalar `x` to the
/// running commitment `(pg1, pg2)` over the proof base `(bg1, bg2)`.
pub open spec fn spec_pair_applied(pg1: nat, pg2: nat, bg1: nat, bg2: nat, x: nat) -> PairView {
    PairView {
        g1_result: (pg1 * x) % fr_order(),
        g2_result: (pg2 * x) % fr_order(),
        g1_mine: (bg1 * x) % fr_order(),
        g2_mine: (bg2 * x) % fr_order(),
    }
}

/// The pair that opens a ceremony: every point is the group generator,
/// committing to the scalar one.
pub open spec fn spec_generator_pair() -> PairView {
    PairView { g1_result: 1, g2_result: 1, g1_mine: 1, g2_mine: 1 }
}

/// The one-entry list that opens a sequential ceremony over a single
/// commitment.
pub fn initParameterList() -> (r: Vec<ParameterPair>)
    ensures
        pair_seq_view(r@) =~= seq![spec_generator_pair()],
{
    let g1 = G1Point::generator();
    let g2 = G2Point::generator();
    let newp = ParameterPair { g1_result: g1, g2_result: g2, g1_mine: g1, g2_mine: g2 };
    let mut v: Vec<ParameterPair> = Vec::new();
    v.push(newp);
    v
}

/// A contribution over explicit base points: the previous result and the
/// bases are each raised to the contributor's secret scalar.
pub fn mpc_common_paramters_custom(
    g1: G1Point,
    g2: G2Point,
    paramter_last: &ParameterPair,
    my_alpha: Fr,
) -> (r: Result<ParameterPair, Error>)
    ensures
        r is Ok,
        r->Ok_0@ == spec_pair_applied(
            paramter_last@.g1_result,
            paramter_last@.g2_result,
            g1@,
            g2@,
            my_alpha@,
        ),
{
    let g1_before = paramter_last.g1_result;
    let g1_after = g1_before.mul_fr(&my_alpha);
    let g2_before = paramter_last.g2_result;
    let g2_after = g2_before.mul_fr(&my_alpha);
    let g1_mine = g1.mul_fr(&my_alpha);
    let g2_mine = g2.mul_fr(&my_alpha);
    Ok(ParameterPair { g1_result: g1_after, g2_result: g2_after, g1_mine, g2_mine })
}

/// A contribution over the fixed generators.
pub fn mpc_common_paramters_custom_generator(paramter_last: &ParameterPair, my_alpha: Fr) -> (r:
    Result<ParameterPair, Error>)
    ensures
        r is Ok,
        r->Ok_0@ == spec_pair_applied(
            paramter_last@.g1_result,
            paramter_last@.g2_result,
            1,
            1,
            my_alpha@,
        ),
{
    mpc_common_paramters_custom(G1Point::generator(), G2Point::generator(), paramter_last, my_alpha)
}

/// A deliberately inconsistent contribution: the published results are the
/// bare generators raised to the scalar instead of the previous running
/// commitment, so a chained verification must reject it.
pub fn mpc_bad_paramters_custom(paramter_last: &ParameterPair, my_alpha: Fr) -> (r: Result<
    ParameterPair,
    Error,
>)
    ensures
        r is Ok,
        r->Ok_0@ == spec_pair_applied(1, 1, 1, 1, my_alpha@),
{
    let g2 = G2Point::generator();
    let g1 = G1Point::generator();
    let g1_after = g1.mul_fr(&my_alpha);
    let g2_after = g2.mul_fr(&my_alpha);
    let g1_mine = g1.mul_fr(&my_alpha);
    let g2_mine = g2.mul_fr(&my_alpha);
    Ok(ParameterPair { g1_result: g1_after, g2_result: g2_after, g1_mine, g2_mine })
}

/// What the sequential-chain verifier accepts: the proof points of the new
/// pair must encode the same scalar in both groups, and, when a previous
/// entry exists, pairing the new running result against the generator must
/// equal pairing the previous result against the new proof point.
pub open spec fn spec_verify_mpc_g1(n: PairView, prev: Seq<PairView>) -> bool {
    let q = fr_order();
    if prev.len() >= 1 {
        (n.g1_mine % q == n.g2_mine % q) && (n.g1_result % q == (prev.last().g1_result
            * n.g2_mine) % q)
    } else {
        n.g1_mine % q == n.g2_mine % q
    }
}

/// The pairing checks of one chained contribution.
pub fn verify_mpc_g1(new_paramter: &ParameterPair, paramters: &Vec<ParameterPair>) -> (r: bool)
    ensures
        r == spec_verify_mpc_g1(new_paramter@, pair_seq_view(paramters@)),
{
    let g1 = G1Point::generator();
    let g2 = G2Point::generator();
    let lhs = pairing(&new_paramter.g1_mine, &g2);
    let rhs = pairing(&g1, &new_paramter.g2_mine);
    let mut result = gt_eq(&lhs, &rhs);
    proof {
        let q = fr_order();
        lemma_mod_twice(new_paramter@.g1_mine as int, q as int);
        lemma_mod_twice(new_paramter@.g2_mine as int, q as int);
    }
    let index = paramters.len();
    if index >= 1 {
        let paramter_last = new_paramter.g1_result;
        let paramter_part2 = new_paramter.g2_mine;
        let paramter_part1 = paramters[index - 1].g1_result;
        let chain_l = pairing(&paramter_last, &g2);
        let chain_r = pairing(&paramter_part1, &paramter_part2);
        let chained = gt_eq(&chain_l, &chain_r);
        proof {
            let q = fr_order();
            lemma_mod_twice(new_paramter@.g1_result as int, q as int);
            lemma_mod_twice(
                (pair_seq_view(paramters@).last().g1_result * new_paramter@.g2_mine) as int,
                q as int,
            );
        }
        result = result && chained;
    }
    result
}

/// An ordered list of commitment pairs, one per power of the committed
/// scalar (index 0 holds the zeroth power, i.e. the bare generators).
#[derive(Clone, Debug)]
pub struct TauParameterPair {
    pub list: Vec<ParameterPair>,
}

impl View for TauParameterPair {
    type V = Seq<PairView>;

    open spec fn view(&self) -> Seq<PairView> {
        pair_seq_view(self.list@)
    }
}

/// The view of a sequence of tau lists.
pub open spec fn tau_seq_view(s: Seq<TauParameterPair>) -> Seq<Seq<PairView>> {
    s.map_values(|t: TauParameterPair| t@)
}

impl TauParameterPair {
    /// The running G1 commitments, in order.
    pub fn get_g1(&self) -> (r: Vec<G1Point>)
        ensures
            r@.len() == self@.len(),
            forall|i: int| 0 <= i < self@.len() ==> r@[i]@ == self@[i].g1_result,
    {
        let mut result: Vec<G1Point> = Vec::new();
        for i in 0..self.list.len()
            invariant
                result@.len() == i,
                forall|j: int| 0 <= j < i ==> result@[j]@ == self@[j].g1_result,
        {
            result.push(self.list[i].get_g1());
        }
        result
    }

    /// The running G2 commitments, in order.
    pub fn get_g2(&self) -> (r: Vec<G2Point>)
        ensures
            r@.len() == self@.len(),
            forall|i: int| 0 <= i < self@.len() ==> r@[i]@ == self@[i].g2_result,
    {
        let mut result: Vec<G2Point> = Vec::new();
        for i in 0..self.list.len()
            invariant
                result@.len() == i,
                forall|j: int| 0 <= j < i ==> result@[j]@ == self@[j].g2_result,
        {
            result.push(self.list[i].get_g2());
        }
        result
    }
}

/// The one-entry list that opens a sequential ceremony over a vector of
/// power commitments, all starting at the generators.
pub fn initTauParameterList(n: usize) -> (r: Vec<TauParameterPair>)
    ensures
        r@.len() == 1,
        r@[0]@ =~= Seq::new(n as nat, |i: int| spec_generator_pair()),
{
    let g1 = G1Point::generator();
    let g2 = G2Point::generator();
    let mut result: Vec<ParameterPair> = Vec::new();
    for i in 0..n
        invariant
            g1@ == 1,
            g2@ == 1,
            result@.len() == i,
            forall|j: int| 0 <= j < i ==> #[trigger] result@[j]@ == spec_generator_pair(),
    {
        result.push(ParameterPair { g1_result: g1, g2_result: g2, g1_mine: g1, g2_mine: g2 });
    }
    proof {
        assert (pair_seq_view(result@) =~= Seq::new(n as nat, |i: int| spec_generator_pair()));
    }
    let mut v: Vec<TauParameterPair> = Vec::new();
    v.push(TauParameterPair { list: result });
    v
}

/// A per-power contribution over explicit base points: entry `i` of the
/// running vector is raised to the contributor's scalar for that index.
pub fn mpc_common_tauparamters_custom(
    g1: G1Point,
    g2: G2Point,
    tauparamter_last: &TauParameterPair,
    my_x: Vec<Fr>,
) -> (r: Result<TauParameterPair, Error>)
    requires
        my_x@.len() == tauparamter_last@.len(),
    ensures
        r is Ok,
        r->Ok_0@.len() == my_x@.len(),
        forall|i: int|
            0 <= i < my_x@.len() ==> r->Ok_0@[i] == spec_pair_applied(
                tauparamter_last@[i].g1_result,
                tauparamter_last@[i].g2_result,
                g1@,
                g2@,
                my_x@[i]@,
            ),
{
    let mut result_list: Vec<ParameterPair> = Vec::new();
    let len = my_x.len();
    for i in 0..len
        invariant
            len == my_x@.len() == tauparamter_last@.len(),
            result_list@.len() == i,
            forall|j: int|
                0 <= j < i ==> #[trigger] result_list@[j]@ == spec_pair_applied(
                    tauparamter_last@[j].g1_result,
                    tauparamter_last@[j].g2_result,
                    g1@,
                    g2@,
                    my_x@[j]@,
                ),
    {
        let xg1_before = tauparamter_last.list[i].g1_result;
        let xg1_after = xg1_before.mul_fr(&my_x[i]);
        let xg2_before = tauparamter_last.list[i].g2_result;
        let xg2_after = xg2_before.mul_fr(&my_x[i]);
        let xg1_mine = g1.mul_fr(&my_x[i]);
        let xg2_mine = g2.mul_fr(&my_x[i]);
        let p = ParameterPair {
            g1_result: xg1_after,
            g2_result: xg2_after,
            g1_mine: xg1_mine,
            g2_mine: xg2_mine,
        };
        result_list.push(p);
    }
    proof {
        assert forall|i: int| 0 <= i < my_x@.len() implies pair_seq_view(result_list@)[i]
            == result_list@[i]@ by {}
    }
    Ok(TauParameterPair { list: result_list })
}

/// A per-power contribution over the fixed generators.
pub fn mpc_common_tauparamters_custom_generator(
    tauparamter_last: &TauParameterPair,
    my_x: Vec<Fr>,
) -> (r: Result<TauParameterPair, Error>)
    requires
        my_x@.len() == tauparamter_last@.len(),
    ensures
        r is Ok,
        r->Ok_0@.len() == my_x@.len(),
        forall|i: int|
            0 <= i < my_x@.len() ==> r->Ok_0@[i] == spec_pair_applied(
                tauparamter_last@[i].g1_result,
                tauparamter_last@[i].g2_result,
                1,
                1,
                my_x@[i]@,
            ),
{
    mpc_common_tauparamters_custom(
        G1Point::generator(),
        G2Point::generator(),
        tauparamter_last,
        my_x,
    )
}

/// Cross-power self-consistency of one published power vector: pairing the
/// previous power against the first power must equal pairing the power
/// itself against the generator, for every index past the first.
pub open spec fn x_pow_link(l: Seq<PairView>, i: int) -> bool {
    (l[i - 1].g1_result * l[0].g2_result) % fr_order() == l[i].g1_result % fr_order()
}

pub open spec fn spec_verify_x_pow(l: Seq<PairView>) -> bool {
    forall|i: int| 1 <= i < l.len() ==> #[trigger] x_pow_link(l, i)
}

/// The cross-power pairing checks over a published power vector.
pub fn verify_x_pow(new_xparamter: &TauParameterPair) -> (r: bool)
    ensures
        r == spec_verify_x_pow(new_xparamter@),
{
    let mut result = true;
    let t_len = new_xparamter.list.len();
    let g2 = G2Point::generator();
    if t_len > 1 {
        for i in 1..t_len
            invariant
                g2@ == 1,
                t_len == new_xparamter@.len(),
                result == (forall|j: int| 1 <= j < i ==> #[trigger] x_pow_link(new_xparamter@, j)),
        {
            let lhs = pairing(
                &new_xparamter.list[i - 1].g1_result,
                &new_xparamter.list[0].g2_result,
            );
            let rhs = pairing(&new_xparamter.list[i].g1_result, &g2);
            let c = gt_eq(&lhs, &rhs);
            proof {
                let q = fr_order();
                lemma_mod_twice(
                    (new_xparamter@[i - 1].g1_result * new_xparamter@[0].g2_result) as int,
                    q as int,
                );
                lemma_mod_twice(new_xparamter@[i as int].g1_result as int, q as int);
                assert (c == x_pow_link(new_xparamter@, i as int));
            }
            result = result && c;
        }
    }
    result
}

/// What the sequential tau verifier accepts: the vector is cross-power
/// consistent and its first entry chains correctly onto the previous round.
pub open spec fn spec_verify_mpc_x(n: Seq<PairView>, prev: Seq<Seq<PairView>>) -> bool {
    spec_verify_x_pow(n) && spec_verify_mpc_g1(n[0], prev.map_values(|l: Seq<PairView>| l[0]))
}

/// The pairing checks of one chained tau contribution.
pub fn verify_mpc_x(new_xparamter: &TauParameterPair, paramters: &Vec<TauParameterPair>) -> (r:
    bool)
    requires
        new_xparamter@.len() >= 1,
        forall|i: int| 0 <= i < paramters@.len() ==> #[trigger] paramters@[i]@.len() >= 1,
    ensures
        r == spec_verify_mpc_x(new_xparamter@, tau_seq_view(paramters@)),
{
    let mut result = verify_x_pow(new_xparamter);
    let index = paramters.len();
    let mut list: Vec<ParameterPair> = Vec::new();
    for i in 0..index
        invariant
            index == paramters@.len(),
            forall|k: int| 0 <= k < paramters@.len() ==> #[trigger] paramters@[k]@.len() >= 1,
            list@.len() == i,
            forall|j: int| 0 <= j < i ==> #[trigger] list@[j]@ == paramters@[j]@[0],
    {
        assert (paramters@[i as int]@.len() >= 1);
        list.push(paramters[i].list[0]);
    }
    let chained = verify_mpc_g1(&new_xparamter.list[0], &list);
    proof {
        assert (pair_seq_view(list@) =~= tau_seq_view(paramters@).map_values(
            |l: Seq<PairView>| l[0],
        ));
    }
    result && chained
}

/// Appends a verified contribution to the chain of accepted rounds; a
/// contribution that fails the pairing checks is rejected and the chain is
/// unchanged.  On an empty chain the opening generator entry is stored
/// instead of the contribution.
pub fn ParamterListExcute(vec: Vec<ParameterPair>, p: ParameterPair) -> (r: Result<
    Vec<ParameterPair>,
    Error,
>)
    ensures
        r is Ok <==> (vec@.len() == 0 || spec_verify_mpc_g1(p@, pair_seq_view(vec@))),
        r is Ok ==> pair_seq_view(r->Ok_0@) =~= pair_seq_view(vec@).push(
            if vec@.len() == 0 {
                spec_generator_pair()
            } else {
                p@
            },
        ),
        r is Err ==> r->Err_0 == Error::RejectedContribution,
{
    let g1 = G1Point::generator();
    let g2 = G2Point::generator();
    let mut newp = ParameterPair { g1_result: g1, g2_result: g2, g1_mine: g1, g2_mine: g2 };
    let len = vec.len();
    if len != 0 {
        let b = verify_mpc_g1(&p, &vec);
        if !b {
            return Err(Error::RejectedContribution);
        }
        newp = p;
    }
    let mut vec = vec;
    vec.push(newp);
    Ok(vec)
}

/// Appends a verified tau contribution to the chain of accepted rounds; a
/// contribution that fails the pairing checks is rejected and the chain is
/// unchanged.
pub fn TauParamterListExcute(vec: Vec<TauParameterPair>, p: TauParameterPair) -> (r: Result<
    Vec<TauParameterPair>,
    Error,
>)
    requires
        p@.len() >= 1,
        forall|i: int| 0 <= i < vec@.len() ==> #[trigger] vec@[i]@.len() >= 1,
    ensures
        r is Ok <==> spec_verify_mpc_x(p@, tau_seq_view(vec@)),
        r is Ok ==> tau_seq_view(r->Ok_0@) =~= tau_seq_view(vec@).push(p@),
        r is Err ==> r->Err_0 == Error::RejectedContribution,
{
    let b = verify_mpc_x(&p, &vec);
    if !b {
        return Err(Error::RejectedContribution);
    }
    let mut vec = vec;
    vec.push(p);
    Ok(vec)
}

/// The exponents of a vector of G1 points.
pub open spec fn g1_logs(s: Seq<G1Point>) -> Seq<nat> {
    s.map_values(|p: G1Point| p@)
}

/// The exponents of a vector of G2 points.
pub open spec fn g2_logs(s: Seq<G2Point>) -> Seq<nat> {
    s.map_values(|p: G2Point| p@)
}

/// One contributor's full output for a common-ceremony round: pairs for
/// alpha and beta, and power vectors for tau, alpha*tau and beta*tau.
pub struct CommonParamter {
    pub alpha: ParameterPair,
    pub beta: ParameterPair,
    pub tau: TauParameterPair,
    pub alpha_mul_tau: TauParameterPair,
    pub beta_mul_tau: TauParameterPair,
}

/// The exponents of a common-ceremony contribution.
#[verifier::ext_equal]
pub ghost struct CommonView {
    pub alpha: PairView,
    pub beta: PairView,
    pub tau: Seq<PairView>,
    pub alpha_mul_tau: Seq<PairView>,
    pub beta_mul_tau: Seq<PairView>,
}

impl View for CommonParamter {
    type V = CommonView;

    open spec fn view(&self) -> CommonView {
        CommonView {
            alpha: self.alpha@,
            beta: self.beta@,
            tau: self.tau@,
            alpha_mul_tau: self.alpha_mul_tau@,
            beta_mul_tau: self.beta_mul_tau@,
        }
    }
}

impl CommonView {
    /// The three power vectors all have the given length.
    pub open spec fn lens_ok(self, len: nat) -> bool {
        self.tau.len() == len && self.alpha_mul_tau.len() == len && self.beta_mul_tau.len() == len
    }
}

/// The coordinator's ledger for the common ceremony: the running
/// commitments to alpha, beta and the powers of tau, each in both groups.
#[derive(Clone, Debug)]
pub struct CommonParamterInStorage {
    pub alpha_g1: G1Point,
    pub alpha_g2: G2Point,
    pub beta_g1: G1Point,
    pub beta_g2: G2Point,
    pub tau_g1: Vec<G1Point>,
    pub tau_g2: Vec<G2Point>,
    pub alpha_mul_tau_g1: Vec<G1Point>,
    pub alpha_mul_tau_g2: Vec<G2Point>,
    pub beta_mul_tau_g1: Vec<G1Point>,
    pub beta_mul_tau_g2: Vec<G2Point>,
}

/// The exponents of a common-ceremony ledger.
#[verifier::ext_equal]
pub ghost struct CommonStorageView {
    pub alpha_g1: nat,
    pub alpha_g2: nat,
    pub beta_g1: nat,
    pub beta_g2: nat,
    pub tau_g1: Seq<nat>,
    pub tau_g2: Seq<nat>,
    pub alpha_mul_tau_g1: Seq<nat>,
    pub alpha_mul_tau_g2: Seq<nat>,
    pub beta_mul_tau_g1: Seq<nat>,
    pub beta_mul_tau_g2: Seq<nat>,
}

impl View for CommonParamterInStorage {
    type V = CommonStorageView;

    open spec fn view(&self) -> CommonStorageView {
        CommonStorageView {
            alpha_g1: self.alpha_g1@,
            alpha_g2: self.alpha_g2@,
            beta_g1: self.beta_g1@,
            beta_g2: self.beta_g2@,
            tau_g1: g1_logs(self.tau_g1@),
            tau_g2: g2_logs(self.tau_g2@),
            alpha_mul_tau_g1: g1_logs(self.alpha_mul_tau_g1@),
            alpha_mul_tau_g2: g2_logs(self.alpha_mul_tau_g2@),
            beta_mul_tau_g1: g1_logs(self.beta_mul_tau_g1@),
            beta_mul_tau_g2: g2_logs(self.beta_mul_tau_g2@),
        }
    }
}

impl CommonStorageView {
    /// The degree of the ledger: how many powers of tau it tracks.
    pub open spec fn degree(self) -> nat {
        self.tau_g1.len()
    }

    /// All six power vectors have the ledger's degree.
    pub open spec fn wf(self) -> bool {
        self.tau_g2.len() == self.degree() && self.alpha_mul_tau_g1.len() == self.degree()
            && self.alpha_mul_tau_g2.len() == self.degree() && self.beta_mul_tau_g1.len()
            == self.degree() && self.beta_mul_tau_g2.len() == self.degree()
    }
}

impl CommonParamter {
    /// The ledger the contribution turns into once it has been accepted.
    pub fn to_storage_format(&self) -> (r: CommonParamterInStorage)
        ensures
            r@ == spec_to_storage(self@),
    {
        let s = CommonParamterInStorage {
            alpha_g1: self.alpha.get_g1(),
            alpha_g2: self.alpha.get_g2(),
            beta_g1: self.beta.get_g1(),
            beta_g2: self.beta.get_g2(),
            tau_g1: self.tau.get_g1(),
            tau_g2: self.tau.get_g2(),
            alpha_mul_tau_g1: self.alpha_mul_tau.get_g1(),
            alpha_mul_tau_g2: self.alpha_mul_tau.get_g2(),
            beta_mul_tau_g1: self.beta_mul_tau.get_g1(),
            beta_mul_tau_g2: self.beta_mul_tau.get_g2(),
        };
        proof {
            assert (s@ =~= spec_to_storage(self@));
        }
        s
    }
}

/// The ledger formed from the results of an accepted contribution.
pub open spec fn spec_to_storage(n: CommonView) -> CommonStorageView {
    CommonStorageView {
        alpha_g1: n.alpha.g1_result,
        alpha_g2: n.alpha.g2_result,
        beta_g1: n.beta.g1_result,
        beta_g2: n.beta.g2_result,
        tau_g1: n.tau.map_values(|p: PairView| p.g1_result),
        tau_g2: n.tau.map_values(|p: PairView| p.g2_result),
        alpha_mul_tau_g1: n.alpha_mul_tau.map_values(|p: PairView| p.g1_result),
        alpha_mul_tau_g2: n.alpha_mul_tau.map_values(|p: PairView| p.g2_result),
        beta_mul_tau_g1: n.beta_mul_tau.map_values(|p: PairView| p.g1_result),
        beta_mul_tau_g2: n.beta_mul_tau.map_values(|p: PairView| p.g2_result),
    }
}

/// The ledger at the opening of the common ceremony: every commitment is a
/// generator, i.e. commits to the scalar one.
pub open spec fn spec_initial_common(len: nat) -> CommonStorageView {
    CommonStorageView {
        alpha_g1: 1,
        alpha_g2: 1,
        beta_g1: 1,
        beta_g2: 1,
        tau_g1: Seq::new(len, |i: int| 1nat),
        tau_g2: Seq::new(len, |i: int| 1nat),
        alpha_mul_tau_g1: Seq::new(len, |i: int| 1nat),
        alpha_mul_tau_g2: Seq::new(len, |i: int| 1nat),
        beta_mul_tau_g1: Seq::new(len, |i: int| 1nat),
        beta_mul_tau_g2: Seq::new(len, |i: int| 1nat),
    }
}

/// Opens a common ceremony of the given degree.
pub fn initial_common_paramters(len: usize) -> (r: CommonParamterInStorage)
    ensures
        r@ == spec_initial_common(len as nat),
{
    let g1 = G1Point::generator();
    let g2 = G2Point::generator();
    let mut tau_g1: Vec<G1Point> = Vec::new();
    let mut tau_g2: Vec<G2Point> = Vec::new();
    let mut alpha_mul_tau_g1: Vec<G1Point> = Vec::new();
    let mut alpha_mul_tau_g2: Vec<G2Point> = Vec::new();
    let mut beta_mul_tau_g1: Vec<G1Point> = Vec::new();
    let mut beta_mul_tau_g2: Vec<G2Point> = Vec::new();
    for i in 0..len
        invariant
            g1@ == 1,
            g2@ == 1,
            tau_g1@.len() == i,
            tau_g2@.len() == i,
            alpha_mul_tau_g1@.len() == i,
            alpha_mul_tau_g2@.len() == i,
            beta_mul_tau_g1@.len() == i,
            beta_mul_tau_g2@.len() == i,
            forall|j: int| 0 <= j < i ==> #[trigger] tau_g1@[j]@ == 1,
            forall|j: int| 0 <= j < i ==> #[trigger] tau_g2@[j]@ == 1,
            forall|j: int| 0 <= j < i ==> #[trigger] alpha_mul_tau_g1@[j]@ == 1,
            forall|j: int| 0 <= j < i ==> #[trigger] alpha_mul_tau_g2@[j]@ == 1,
            forall|j: int| 0 <= j < i ==> #[trigger] beta_mul_tau_g1@[j]@ == 1,
            forall|j: int| 0 <= j < i ==> #[trigger] beta_mul_tau_g2@[j]@ == 1,
    {
        tau_g1.push(g1);
        tau_g2.push(g2);
        alpha_mul_tau_g1.push(g1);
        alpha_mul_tau_g2.push(g2);
        beta_mul_tau_g1.push(g1);
        beta_mul_tau_g2.push(g2);
    }
    let s = CommonParamterInStorage {
        alpha_g1: g1,
        alpha_g2: g2,
        beta_g1: g1,
        beta_g2: g2,
        tau_g1,
        tau_g2,
        alpha_mul_tau_g1,
        alpha_mul_tau_g2,
        beta_mul_tau_g1,
        beta_mul_tau_g2,
    };
    proof {
        assert (s@.tau_g1 =~= Seq::new(len as nat, |i: int| 1nat));
        assert (s@.tau_g2 =~= Seq::new(len as nat, |i: int| 1nat));
        assert (s@.alpha_mul_tau_g1 =~= Seq::new(len as nat, |i: int| 1nat));
        assert (s@.alpha_mul_tau_g2 =~= Seq::new(len as nat, |i: int| 1nat));
        assert (s@.beta_mul_tau_g1 =~= Seq::new(len as nat, |i: int| 1nat));
        assert (s@.beta_mul_tau_g2 =~= Seq::new(len as nat, |i: int| 1nat));
        assert (s@ =~= spec_initial_common(len as nat));
    }
    s
}

/// How an inverse contribution relates to what it was computed from: each
/// point, multiplied back by the scalar, returns the source point's
/// exponent, and each exponent is in canonical range.
pub open spec fn spec_pair_inverted(
    p: PairView,
    pg1: nat,
    pg2: nat,
    bg1: nat,
    bg2: nat,
    x: nat,
) -> bool {
    let q = fr_order();
    &&& (p.g1_result * x) % q == pg1 % q
    &&& p.g1_result < q
    &&& (p.g2_result * x) % q == pg2 % q
    &&& p.g2_result < q
    &&& (p.g1_mine * x) % q == bg1 % q
    &&& p.g1_mine < q
    &&& (p.g2_mine * x) % q == bg2 % q
    &&& p.g2_mine < q
}

/// Applies a scalar (or, when `inverse` is set, its field inverse) to a
/// running commitment pair and the proof bases.
fn make_new_paramter_fr(
    s: &Fr,
    pointg1: &G1Point,
    pointg2: &G2Point,
    baseg1: &G1Point,
    baseg2: &G2Point,
    inverse: bool,
) -> (r: ParameterPair)
    requires
        inverse ==> s@ % fr_order() != 0,
    ensures
        !inverse ==> r@ == spec_pair_applied(pointg1@, pointg2@, baseg1@, baseg2@, s@),
        inverse ==> spec_pair_inverted(r@, pointg1@, pointg2@, baseg1@, baseg2@, s@),
{
    if !inverse {
        ParameterPair {
            g1_result: pointg1.mul_fr(s),
            g2_result: pointg2.mul_fr(s),
            g1_mine: baseg1.mul_fr(s),
            g2_mine: baseg2.mul_fr(s),
        }
    } else {
        let inv = match s.invert() {
            Some(i) => i,
            None => unreached(),
        };
        let r = ParameterPair {
            g1_result: pointg1.mul_fr(&inv),
            g2_result: pointg2.mul_fr(&inv),
            g1_mine: baseg1.mul_fr(&inv),
            g2_mine: baseg2.mul_fr(&inv),
        };
        proof {
            let q = fr_order();
            lemma_inv_cancel(pointg1@, s@, inv@, q);
            lemma_inv_cancel(pointg2@, s@, inv@, q);
            lemma_inv_cancel(baseg1@, s@, inv@, q);
            lemma_inv_cancel(baseg2@, s@, inv@, q);
            lemma_mod_division_less_than_divisor((pointg1@ * inv@) as int, q as int);
            lemma_mod_division_less_than_divisor((pointg2@ * inv@) as int, q as int);
            lemma_mod_division_less_than_divisor((baseg1@ * inv@) as int, q as int);
            lemma_mod_division_less_than_divisor((baseg2@ * inv@) as int, q as int);
        }
        r
    }
}

/// Applies the integer scalar `x`, or its field inverse, to a commitment
/// pair over the given bases.
pub fn make_new_paramter(
    x: &u64,
    pointg1: &G1Point,
    pointg2: &G2Point,
    baseg1: &G1Point,
    baseg2: &G2Point,
    inverse: bool,
) -> (r: ParameterPair)
    requires
        inverse ==> *x != 0,
    ensures
        !inverse ==> r@ == spec_pair_applied(pointg1@, pointg2@, baseg1@, baseg2@, *x as nat),
        inverse ==> spec_pair_inverted(r@, pointg1@, pointg2@, baseg1@, baseg2@, *x as nat),
{
    let s = Fr::from_u64(*x);
    proof {
        if inverse {
            vstd::arithmetic::div_mod::lemma_small_mod(*x as nat, fr_order());
        }
    }
    make_new_paramter_fr(&s, pointg1, pointg2, baseg1, baseg2, inverse)
}

/// The scalar a contributor applies to the power-`i` entry: its secret
/// power scalar raised to `i`, times the accompanying plain scalar.
pub open spec fn spec_tau_coeff(a: nat, x: nat, i: nat) -> nat {
    (pow_nat(x, i) * a) % fr_order()
}

/// Applies, entry by entry, the scalar `x^i * a` (or its field inverse) to
/// a vector of running commitments over the fixed generators.
pub fn make_new_tau_paramter(
    a: &u64,
    x: &u64,
    pointg1_list: &Vec<G1Point>,
    pointg2_list: &Vec<G2Point>,
    invert: bool,
) -> (r: TauParameterPair)
    requires
        pointg1_list@.len() == pointg2_list@.len(),
        invert ==> forall|i: nat|
            i < pointg1_list@.len() ==> #[trigger] spec_tau_coeff(*a as nat, *x as nat, i) != 0,
    ensures
        r@.len() == pointg1_list@.len(),
        !invert ==> forall|i: int|
            0 <= i < pointg1_list@.len() ==> #[trigger] r@[i] == spec_pair_applied(
                pointg1_list@[i]@,
                pointg2_list@[i]@,
                1,
                1,
                spec_tau_coeff(*a as nat, *x as nat, i as nat),
            ),
        invert ==> forall|i: int|
            0 <= i < pointg1_list@.len() ==> #[trigger] spec_pair_inverted(
                r@[i],
                pointg1_list@[i]@,
                pointg2_list@[i]@,
                1,
                1,
                spec_tau_coeff(*a as nat, *x as nat, i as nat),
            ),
{
    let base_g1 = G1Point::generator();
    let base_g2 = G2Point::generator();
    let xf = Fr::from_u64(*x);
    let mut cur = Fr::from_u64(*a);
    proof {
        vstd::arithmetic::div_mod::lemma_small_mod(*a as nat, fr_order());
        assert (pow_nat(*x as nat, 0) == 1);
        assert (spec_tau_coeff(*a as nat, *x as nat, 0) == (*a as nat) % fr_order());
        assert (cur@ == spec_tau_coeff(*a as nat, *x as nat, 0));
    }
    let mut list: Vec<ParameterPair> = Vec::new();
    let len = pointg1_list.len();
    for i in 0..len
        invariant
            len == pointg1_list@.len() == pointg2_list@.len(),
            base_g1@ == 1,
            base_g2@ == 1,
            xf@ == *x as nat,
            cur@ == spec_tau_coeff(*a as nat, *x as nat, i as nat),
            invert ==> forall|k: nat|
                k < len ==> #[trigger] spec_tau_coeff(*a as nat, *x as nat, k) != 0,
            list@.len() == i,
            !invert ==> forall|j: int|
                0 <= j < i ==> #[trigger] list@[j]@ == spec_pair_applied(
                    pointg1_list@[j]@,
                    pointg2_list@[j]@,
                    1,
                    1,
                    spec_tau_coeff(*a as nat, *x as nat, j as nat),
                ),
            invert ==> forall|j: int|
                0 <= j < i ==> #[trigger] spec_pair_inverted(
                    list@[j]@,
                    pointg1_list@[j]@,
                    pointg2_list@[j]@,
                    1,
                    1,
                    spec_tau_coeff(*a as nat, *x as nat, j as nat),
                ),
    {
        let p = make_new_paramter_fr(
            &cur,
            &pointg1_list[i],
            &pointg2_list[i],
            &base_g1,
            &base_g2,
            invert,
        );
        list.push(p);
        let next = cur.mul_fr(&xf);
        proof {
            let q = fr_order();
            let an = *a as nat;
            let xn = *x as nat;
            lemma_mul_mod_fold(pow_nat(xn, i as nat) * an, xn, q);
            assert ((pow_nat(xn, i as nat) * an) * xn == pow_nat(xn, (i + 1) as nat) * an)
                by (nonlinear_arith)
                requires
                    pow_nat(xn, (i + 1) as nat) == xn * pow_nat(xn, i as nat),
            ;
        }
        cur = next;
    }
    proof {
        assert forall|i: int| 0 <= i < len implies pair_seq_view(list@)[i] == list@[i]@ by {}
    }
    TauParameterPair { list }
}

/// What the per-commitment verifier accepts of one published pair, checked
/// against the base it claims to extend: pairing the new result against the
/// generator must equal pairing the base against the contributor's proof
/// point, and the result must encode the same exponent in both groups.
pub open spec fn spec_vnp_ok(p: PairView, base_g1: nat) -> bool {
    let q = fr_order();
    p.g1_result % q == (base_g1 * p.g2_mine) % q && p.g1_result % q == p.g2_result % q
}

/// The pairing checks of one published pair against its base.
pub fn verify_new_paramter(paramter: &ParameterPair, baseg1: &G1Point, baseg2: &G2Point) -> (r:
    bool)
    ensures
        r == spec_vnp_ok(paramter@, baseg1@),
{
    let g2a = G2Point::generator();
    let g1a = G1Point::generator();
    let lhs = pairing(&paramter.g1_result, &g2a);
    let rhs1 = pairing(baseg1, &paramter.g2_mine);
    let rhs2 = pairing(&g1a, &paramter.g2_result);
    let b1 = gt_eq(&lhs, &rhs1);
    let b2 = gt_eq(&lhs, &rhs2);
    proof {
        let q = fr_order();
        lemma_mod_twice(paramter@.g1_result as int, q as int);
        lemma_mod_twice((baseg1@ * paramter@.g2_mine) as int, q as int);
        lemma_mod_twice(paramter@.g2_result as int, q as int);
    }
    b1 && b2
}

/// The contribution an honest contributor holding secret scalars
/// `(a, b, t)` computes from a ledger snapshot: alpha and beta are raised
/// to `a` and `b`, the power-`i` entries of the three vectors are raised to
/// `t^i`, `a * t^i` and `b * t^i` respectively.
pub open spec fn spec_contribute_common(s: CommonStorageView, a: nat, b: nat, t: nat) -> CommonView {
    CommonView {
        alpha: spec_pair_applied(s.alpha_g1, s.alpha_g2, 1, 1, a),
        beta: spec_pair_applied(s.beta_g1, s.beta_g2, 1, 1, b),
        tau: Seq::new(
            s.degree(),
            |i: int|
                spec_pair_applied(s.tau_g1[i], s.tau_g2[i], 1, 1, spec_tau_coeff(1, t, i as nat)),
        ),
        alpha_mul_tau: Seq::new(
            s.degree(),
            |i: int|
                spec_pair_applied(
                    s.alpha_mul_tau_g1[i],
                    s.alpha_mul_tau_g2[i],
                    1,
                    1,
                    spec_tau_coeff(a, t, i as nat),
                ),
        ),
        beta_mul_tau: Seq::new(
            s.degree(),
            |i: int|
                spec_pair_applied(
                    s.beta_mul_tau_g1[i],
                    s.beta_mul_tau_g2[i],
                    1,
                    1,
                    spec_tau_coeff(b, t, i as nat),
                ),
        ),
    }
}

/// One contributor's round over the common ledger, from the secret scalars
/// `(alpha, beta, tau)`.
pub fn mpc_common_paramters_generator(
    storage: &CommonParamterInStorage,
    scalars: (u64, u64, u64),
) -> (r: CommonParamter)
    requires
        storage@.wf(),
    ensures
        r@ == spec_contribute_common(
            storage@,
            scalars.0 as nat,
            scalars.1 as nat,
            scalars.2 as nat,
        ),
{
    let (alpha, beta, tau) = scalars;
    let g1 = G1Point::generator();
    let g2 = G2Point::generator();
    let new_alpha = make_new_paramter(&alpha, &storage.alpha_g1, &storage.alpha_g2, &g1, &g2, false);
    let new_beta = make_new_paramter(&beta, &storage.beta_g1, &storage.beta_g2, &g1, &g2, false);
    let new_tau = make_new_tau_paramter(&1, &tau, &storage.tau_g1, &storage.tau_g2, false);
    let new_alpha_mul_tau = make_new_tau_paramter(
        &alpha,
        &tau,
        &storage.alpha_mul_tau_g1,
        &storage.alpha_mul_tau_g2,
        false,
    );
    let new_beta_mul_tau = make_new_tau_paramter(
        &beta,
        &tau,
        &storage.beta_mul_tau_g1,
        &storage.beta_mul_tau_g2,
        false,
    );
    let c = CommonParamter {
        alpha: new_alpha,
        beta: new_beta,
        tau: new_tau,
        alpha_mul_tau: new_alpha_mul_tau,
        beta_mul_tau: new_beta_mul_tau,
    };
    proof {
        let expected = spec_contribute_common(
            storage@,
            scalars.0 as nat,
            scalars.1 as nat,
            scalars.2 as nat,
        );
        assert (c@.tau =~= expected.tau);
        assert (c@.alpha_mul_tau =~= expected.alpha_mul_tau);
        assert (c@.beta_mul_tau =~= expected.beta_mul_tau);
        assert (c@ =~= expected);
    }
    c
}

/// Cross-power consistency of a published tau vector whose first entry is
/// the zeroth power: each entry must extend the previous one by the power
/// held at index one.
pub open spec fn tau_link(l: Seq<PairView>, i: int) -> bool {
    (l[i - 1].g1_result * l[1].g2_result) % fr_order() == l[i].g1_result % fr_order()
}

/// What `verify_common_paramter` accepts: alpha, beta and every entry of
/// the alpha*tau and beta*tau vectors must verify against the ledger they
/// claim to extend, and the tau vector must be cross-power consistent.
pub open spec fn spec_common_accept(s: CommonStorageView, n: CommonView) -> bool {
    &&& spec_vnp_ok(n.alpha, s.alpha_g1)
    &&& spec_vnp_ok(n.beta, s.beta_g1)
    &&& forall|i: int|
        0 <= i < n.alpha_mul_tau.len() ==> #[trigger] spec_vnp_ok(
            n.alpha_mul_tau[i],
            s.alpha_mul_tau_g1[i],
        )
    &&& forall|i: int|
        0 <= i < n.beta_mul_tau.len() ==> #[trigger] spec_vnp_ok(
            n.beta_mul_tau[i],
            s.beta_mul_tau_g1[i],
        )
    &&& forall|i: int| 1 <= i < n.tau.len() ==> #[trigger] tau_link(n.tau, i)
}

/// Verifies one common-ceremony contribution against the current ledger
/// and, if every pairing check passes, returns the advanced ledger; a
/// failing contribution is rejected and the ledger is left as it was.
pub fn verify_common_paramter(
    storage: &CommonParamterInStorage,
    new_paramter: &CommonParamter,
) -> (r: Result<CommonParamterInStorage, Error>)
    requires
        storage@.wf(),
        new_paramter@.lens_ok(storage@.degree()),
    ensures
        r is Ok <==> spec_common_accept(storage@, new_paramter@),
        r is Ok ==> r->Ok_0@ == spec_to_storage(new_paramter@),
        r is Err ==> r->Err_0 == Error::RejectedContribution,
{
    let len = new_paramter.tau.list.len();
    let result_alpha = verify_new_paramter(&new_paramter.alpha, &storage.alpha_g1, &storage.alpha_g2);
    let result_beta = verify_new_paramter(&new_paramter.beta, &storage.beta_g1, &storage.beta_g2);
    let mut result_alpha_tau = true;
    let mut result_beta_tau = true;
    for i in 0..len
        invariant
            storage@.wf(),
            new_paramter@.lens_ok(storage@.degree()),
            len == new_paramter@.tau.len(),
            result_alpha_tau == (forall|j: int|
                0 <= j < i ==> #[trigger] spec_vnp_ok(
                    new_paramter@.alpha_mul_tau[j],
                    storage@.alpha_mul_tau_g1[j],
                )),
            result_beta_tau == (forall|j: int|
                0 <= j < i ==> #[trigger] spec_vnp_ok(
                    new_paramter@.beta_mul_tau[j],
                    storage@.beta_mul_tau_g1[j],
                )),
    {
        let va = verify_new_paramter(
            &new_paramter.alpha_mul_tau.list[i],
            &storage.alpha_mul_tau_g1[i],
            &storage.alpha_mul_tau_g2[i],
        );
        let vb = verify_new_paramter(
            &new_paramter.beta_mul_tau.list[i],
            &storage.beta_mul_tau_g1[i],
            &storage.beta_mul_tau_g2[i],
        );
        proof {
            assert (new_paramter@.alpha_mul_tau[i as int] == new_paramter.alpha_mul_tau.list@[i as int]@);
            assert (storage@.alpha_mul_tau_g1[i as int] == storage.alpha_mul_tau_g1@[i as int]@);
            assert (va == spec_vnp_ok(
                new_paramter@.alpha_mul_tau[i as int],
                storage@.alpha_mul_tau_g1[i as int],
            ));
            assert (new_paramter@.beta_mul_tau[i as int] == new_paramter.beta_mul_tau.list@[i as int]@);
            assert (storage@.beta_mul_tau_g1[i as int] == storage.beta_mul_tau_g1@[i as int]@);
            assert (vb == spec_vnp_ok(
                new_paramter@.beta_mul_tau[i as int],
                storage@.beta_mul_tau_g1[i as int],
            ));
        }
        result_alpha_tau = result_alpha_tau && va;
        result_beta_tau = result_beta_tau && vb;
    }
    let mut result_tau = true;
    let g2gen = G2Point::generator();
    if len > 1 {
        for i in 1..len
            invariant
                g2gen@ == 1,
                len == new_paramter@.tau.len(),
                len > 1,
                result_tau == (forall|j: int|
                    1 <= j < i ==> #[trigger] tau_link(new_paramter@.tau, j)),
        {
            let lhs = pairing(
                &new_paramter.tau.list[i - 1].g1_result,
                &new_paramter.tau.list[1].g2_result,
            );
            let rhs = pairing(&new_paramter.tau.list[i].g1_result, &g2gen);
            let c = gt_eq(&lhs, &rhs);
            proof {
                let q = fr_order();
                lemma_mod_twice(
                    (new_paramter@.tau[i - 1].g1_result * new_paramter@.tau[1].g2_result) as int,
                    q as int,
                );
                lemma_mod_twice(new_paramter@.tau[i as int].g1_result as int, q as int);
                assert (c == tau_link(new_paramter@.tau, i as int));
            }
            result_tau = result_tau && c;
        }
    }
    if result_alpha && result_beta && result_alpha_tau && result_beta_tau && result_tau {
        Ok(new_paramter.to_storage_format())
    } else {
        Err(Error::RejectedContribution)
    }
}

/// The ledger properties that every honest contribution can be verified
/// against, and that verification itself re-establishes: the two groups'
/// sides of each commitment agree, and the tau powers are mutually
/// consistent through the first power's G2 commitment.
pub open spec fn spec_storage_consistent(s: CommonStorageView) -> bool {
    let q = fr_order();
    &&& s.alpha_g1 % q == s.alpha_g2 % q
    &&& s.beta_g1 % q == s.beta_g2 % q
    &&& forall|i: int|
        0 <= i < s.degree() ==> (#[trigger] s.alpha_mul_tau_g1[i]) % q == s.alpha_mul_tau_g2[i] % q
    &&& forall|i: int|
        0 <= i < s.degree() ==> (#[trigger] s.beta_mul_tau_g1[i]) % q == s.beta_mul_tau_g2[i] % q
    &&& forall|i: int|
        1 <= i < s.degree() ==> ((#[trigger] s.tau_g1[i - 1]) * s.tau_g2[1]) % q == s.tau_g1[i] % q
}

/// An honestly computed pair passes the per-commitment checks whenever the
/// ledger's two sides agree.
proof fn lemma_honest_vnp(pg1: nat, pg2: nat, x: nat)
    requires
        pg1 % fr_order() == pg2 % fr_order(),
    ensures
        spec_vnp_ok(spec_pair_applied(pg1, pg2, 1, 1, x), pg1),
{
    let q = fr_order();
    lemma_mod_twice((pg1 * x) as int, q as int);
    lemma_mul_mod_fold(pg1, x, q);
    lemma_cong_mul_right(pg1, pg2, x, q);
    lemma_mod_twice((pg2 * x) as int, q as int);
}

/// An honestly updated pair of adjacent tau powers stays cross-power
/// consistent.
proof fn lemma_link_step(sp: nat, sc: nat, s2: nat, pprev: nat, pone: nat, pcur: nat)
    requires
        (sp * s2) % fr_order() == sc % fr_order(),
        pprev * pone == pcur,
    ensures
        (((sp * (pprev % fr_order())) % fr_order()) * ((s2 * (pone % fr_order())) % fr_order()))
            % fr_order() == ((sc * (pcur % fr_order())) % fr_order()) % fr_order(),
{
    let q = fr_order();
    lemma_mul_mod_fold(sp, pprev, q);
    lemma_mul_mod_fold(s2, pone, q);
    lemma_mul_mod_both(sp * pprev, s2 * pone, q);
    lemma_mul_exchange(sp, pprev, s2, pone);
    assert ((sp * s2) * (pprev * pone) == (sp * s2) * pcur);
    lemma_mul_mod_fold(sp * s2, pcur, q);
    lemma_mod_twice((sp * s2) as int, q as int);
    lemma_mod_twice(sc as int, q as int);
    lemma_cong_mul_right((sp * s2) % q, sc % q, pcur, q);
    lemma_mul_mod_fold(sc, pcur, q);
    lemma_mod_twice((sc * pcur) as int, q as int);
}

/// The round an honest contributor computes from a consistent ledger is
/// accepted by `verify_common_paramter`, and the ledger it produces is
/// again well formed and consistent.
pub proof fn lemma_honest_common_round(s: CommonStorageView, a: nat, b: nat, t: nat)
    requires
        s.wf(),
        spec_storage_consistent(s),
    ensures
        spec_contribute_common(s, a, b, t).lens_ok(s.degree()),
        spec_common_accept(s, spec_contribute_common(s, a, b, t)),
        spec_to_storage(spec_contribute_common(s, a, b, t)).wf(),
        spec_to_storage(spec_contribute_common(s, a, b, t)).degree() == s.degree(),
        spec_storage_consistent(spec_to_storage(spec_contribute_common(s, a, b, t))),
{
    let q = fr_order();
    let n = spec_contribute_common(s, a, b, t);
    let s2 = spec_to_storage(n);
    lemma_honest_vnp(s.alpha_g1, s.alpha_g2, a);
    lemma_honest_vnp(s.beta_g1, s.beta_g2, b);
    assert forall|i: int| 0 <= i < n.alpha_mul_tau.len() implies #[trigger] spec_vnp_ok(
        n.alpha_mul_tau[i],
        s.alpha_mul_tau_g1[i],
    ) by {
        lemma_honest_vnp(s.alpha_mul_tau_g1[i], s.alpha_mul_tau_g2[i], spec_tau_coeff(a, t, i as nat));
    }
    assert forall|i: int| 0 <= i < n.beta_mul_tau.len() implies #[trigger] spec_vnp_ok(
        n.beta_mul_tau[i],
        s.beta_mul_tau_g1[i],
    ) by {
        lemma_honest_vnp(s.beta_mul_tau_g1[i], s.beta_mul_tau_g2[i], spec_tau_coeff(b, t, i as nat));
    }
    assert forall|i: int| 1 <= i < n.tau.len() implies #[trigger] tau_link(n.tau, i) by {
        assert (pow_nat(t, 0) == 1);
        assert (pow_nat(t, 1) == t * pow_nat(t, 0));
        assert (pow_nat(t, 1) == t);
        assert (pow_nat(t, i as nat) == t * pow_nat(t, (i - 1) as nat));
        assert (pow_nat(t, (i - 1) as nat) * t == pow_nat(t, i as nat)) by (nonlinear_arith)
            requires
                pow_nat(t, i as nat) == t * pow_nat(t, (i - 1) as nat),
        ;
        lemma_link_step(
            s.tau_g1[i - 1],
            s.tau_g1[i],
            s.tau_g2[1],
            pow_nat(t, (i - 1) as nat),
            pow_nat(t, 1),
            pow_nat(t, i as nat),
        );
        assert (spec_tau_coeff(1, t, (i - 1) as nat) == pow_nat(t, (i - 1) as nat) % q);
        assert (spec_tau_coeff(1, t, 1) == pow_nat(t, 1) % q);
        assert (spec_tau_coeff(1, t, i as nat) == pow_nat(t, i as nat) % q);
        lemma_mod_twice((s.tau_g1[i] * (pow_nat(t, i as nat) % q)) as int, q as int);
        lemma_mod_twice((n.tau[i - 1].g1_result * n.tau[1].g2_result) as int, q as int);
        lemma_mod_twice(n.tau[i as int].g1_result as int, q as int);
    }
    assert (s2.wf());
    assert (s2.alpha_g1 % q == s2.alpha_g2 % q) by {
        lemma_cong_mul_right(s.alpha_g1, s.alpha_g2, a, q);
        lemma_mod_twice((s.alpha_g1 * a) as int, q as int);
        lemma_mod_twice((s.alpha_g2 * a) as int, q as int);
    }
    assert (s2.beta_g1 % q == s2.beta_g2 % q) by {
        lemma_cong_mul_right(s.beta_g1, s.beta_g2, b, q);
        lemma_mod_twice((s.beta_g1 * b) as int, q as int);
        lemma_mod_twice((s.beta_g2 * b) as int, q as int);
    }
    assert forall|i: int| 0 <= i < s2.degree() implies (#[trigger] s2.alpha_mul_tau_g1[i]) % q
        == s2.alpha_mul_tau_g2[i] % q by {
        let c = spec_tau_coeff(a, t, i as nat);
        lemma_cong_mul_right(s.alpha_mul_tau_g1[i], s.alpha_mul_tau_g2[i], c, q);
        lemma_mod_twice((s.alpha_mul_tau_g1[i] * c) as int, q as int);
        lemma_mod_twice((s.alpha_mul_tau_g2[i] * c) as int, q as int);
    }
    assert forall|i: int| 0 <= i < s2.degree() implies (#[trigger] s2.beta_mul_tau_g1[i]) % q
        == s2.beta_mul_tau_g2[i] % q by {
        let c = spec_tau_coeff(b, t, i as nat);
        lemma_cong_mul_right(s.beta_mul_tau_g1[i], s.beta_mul_tau_g2[i], c, q);
        lemma_mod_twice((s.beta_mul_tau_g1[i] * c) as int, q as int);
        lemma_mod_twice((s.beta_mul_tau_g2[i] * c) as int, q as int);
    }
    assert forall|i: int| 1 <= i < s2.degree() implies ((#[trigger] s2.tau_g1[i - 1])
        * s2.tau_g2[1]) % q == s2.tau_g1[i] % q by {
        assert (tau_link(n.tau, i));
        assert (s2.tau_g1[i - 1] == n.tau[i - 1].g1_result);
        assert (s2.tau_g2[1] == n.tau[1].g2_result);
        assert (s2.tau_g1[i] == n.tau[i].g1_result);
        lemma_mod_twice(n.tau[i as int].g1_result as int, q as int);
    }
}

/// The opening ledger is consistent.
pub proof fn lemma_initial_consistent(len: nat)
    ensures
        spec_initial_common(len).wf(),
        spec_storage_consistent(spec_initial_common(len)),
{
    let q = fr_order();
    let s = spec_initial_common(len);
    vstd::arithmetic::div_mod::lemma_small_mod(1, q);
    assert forall|i: int| 1 <= i < s.degree() implies ((#[trigger] s.tau_g1[i - 1]) * s.tau_g2[1])
        % q == s.tau_g1[i] % q by {
        assert (s.tau_g1[i - 1] == 1);
        assert (s.tau_g2[1] == 1);
        assert (s.tau_g1[i] == 1);
    }
}

/// The ledger after a sequence of honest rounds, each accepted by
/// `verify_common_paramter`: a fold of contribute-then-store over the
/// rounds' secret scalars.
pub open spec fn spec_common_after(len: nat, rounds: Seq<(u64, u64, u64)>) -> CommonStorageView
    decreases rounds.len(),
{
    if rounds.len() == 0 {
        spec_initial_common(len)
    } else {
        let prev = spec_common_after(len, rounds.drop_last());
        let last = rounds.last();
        spec_to_storage(spec_contribute_common(prev, last.0 as nat, last.1 as nat, last.2 as nat))
    }
}

/// The ledger after any sequence of honest rounds is well formed and
/// consistent.
pub proof fn lemma_common_after_ok(len: nat, rounds: Seq<(u64, u64, u64)>)
    ensures
        spec_common_after(len, rounds).wf(),
        spec_common_after(len, rounds).degree() == len,
        spec_storage_consistent(spec_common_after(len, rounds)),
    decreases rounds.len(),
{
    if rounds.len() == 0 {
        lemma_initial_consistent(len);
    } else {
        lemma_common_after_ok(len, rounds.drop_last());
        let prev = spec_common_after(len, rounds.drop_last());
        let last = rounds.last();
        lemma_honest_common_round(prev, last.0 as nat, last.1 as nat, last.2 as nat);
    }
}

/// Runs a full common ceremony: opens a degree-`len` ledger and has one
/// honest contributor round per entry of `rounds`, verifying each round
/// before it replaces the ledger.
pub fn run_common_ceremony(len: usize, rounds: &Vec<(u64, u64, u64)>) -> (r:
    CommonParamterInStorage)
    ensures
        r@ == spec_common_after(len as nat, rounds@),
{
    let mut storage = initial_common_paramters(len);
    proof {
        lemma_initial_consistent(len as nat);
        assert (rounds@.take(0) =~= Seq::<(u64, u64, u64)>::empty());
    }
    let n = rounds.len();
    for j in 0..n
        invariant
            n == rounds@.len(),
            storage@ == spec_common_after(len as nat, rounds@.take(j as int)),
            storage@.wf(),
            storage@.degree() == len as nat,
            spec_storage_consistent(storage@),
    {
        let contribution = mpc_common_paramters_generator(&storage, rounds[j]);
        proof {
            let last = rounds@[j as int];
            lemma_honest_common_round(storage@, last.0 as nat, last.1 as nat, last.2 as nat);
            assert (rounds@.take(j + 1).drop_last() =~= rounds@.take(j as int));
            assert (rounds@.take(j + 1).last() == rounds@[j as int]);
        }
        storage =
        match verify_common_paramter(&storage, &contribution) {
            Ok(s) => s,
            Err(_) => unreached(),
        };
    }
    proof {
        assert (rounds@.take(n as int) =~= rounds@);
    }
    storage
}

/// The product of the rounds' alpha scalars.
pub open spec fn prod_alpha(rounds: Seq<(u64, u64, u64)>) -> nat
    decreases rounds.len(),
{
    if rounds.len() == 0 {
        1
    } else {
        prod_alpha(rounds.drop_last()) * (rounds.last().0 as nat)
    }
}

/// The product of the rounds' beta scalars.
pub open spec fn prod_beta(rounds: Seq<(u64, u64, u64)>) -> nat
    decreases rounds.len(),
{
    if rounds.len() == 0 {
        1
    } else {
        prod_beta(rounds.drop_last()) * (rounds.last().1 as nat)
    }
}

/// The product of the rounds' tau scalars.
pub open spec fn prod_tau(rounds: Seq<(u64, u64, u64)>) -> nat
    decreases rounds.len(),
{
    if rounds.len() == 0 {
        1
    } else {
        prod_tau(rounds.drop_last()) * (rounds.last().2 as nat)
    }
}

/// Chain consistency of the common ceremony: after any accepted sequence
/// of honest rounds, each commitment is the generator raised to the
/// product of the corresponding secret scalars: alpha and beta carry their
/// rounds' products, the power-`k` tau entry carries the tau product's
/// `k`-th power, and the combined vectors carry the matching products.
#[verifier::rlimit(60)]
pub proof fn lemma_common_chain(len: nat, rounds: Seq<(u64, u64, u64)>)
    ensures
        spec_common_after(len, rounds).alpha_g1 == prod_alpha(rounds) % fr_order(),
        spec_common_after(len, rounds).alpha_g2 == prod_alpha(rounds) % fr_order(),
        spec_common_after(len, rounds).beta_g1 == prod_beta(rounds) % fr_order(),
        spec_common_after(len, rounds).beta_g2 == prod_beta(rounds) % fr_order(),
        forall|k: int|
            0 <= k < len ==> (#[trigger] spec_common_after(len, rounds).tau_g1[k]) == pow_nat(
                prod_tau(rounds),
                k as nat,
            ) % fr_order(),
        forall|k: int|
            0 <= k < len ==> (#[trigger] spec_common_after(len, rounds).tau_g2[k]) == pow_nat(
                prod_tau(rounds),
                k as nat,
            ) % fr_order(),
        forall|k: int|
            0 <= k < len ==> (#[trigger] spec_common_after(len, rounds).alpha_mul_tau_g1[k]) == (
            prod_alpha(rounds) * pow_nat(prod_tau(rounds), k as nat)) % fr_order(),
        forall|k: int|
            0 <= k < len ==> (#[trigger] spec_common_after(len, rounds).alpha_mul_tau_g2[k]) == (
            prod_alpha(rounds) * pow_nat(prod_tau(rounds), k as nat)) % fr_order(),
        forall|k: int|
            0 <= k < len ==> (#[trigger] spec_common_after(len, rounds).beta_mul_tau_g1[k]) == (
            prod_beta(rounds) * pow_nat(prod_tau(rounds), k as nat)) % fr_order(),
        forall|k: int|
            0 <= k < len ==> (#[trigger] spec_common_after(len, rounds).beta_mul_tau_g2[k]) == (
            prod_beta(rounds) * pow_nat(prod_tau(rounds), k as nat)) % fr_order(),
    decreases rounds.len(),
{
    let q = fr_order();
    let s2 = spec_common_after(len, rounds);
    if rounds.len() == 0 {
        vstd::arithmetic::div_mod::lemma_small_mod(1, q);
        assert forall|k: int| 0 <= k < len implies {
            &&& (#[trigger] s2.tau_g1[k]) == pow_nat(prod_tau(rounds), k as nat) % q
            &&& s2.tau_g2[k] == pow_nat(prod_tau(rounds), k as nat) % q
            &&& s2.alpha_mul_tau_g1[k] == (prod_alpha(rounds) * pow_nat(prod_tau(rounds), k as nat))
                % q
            &&& s2.alpha_mul_tau_g2[k] == (prod_alpha(rounds) * pow_nat(prod_tau(rounds), k as nat))
                % q
            &&& s2.beta_mul_tau_g1[k] == (prod_beta(rounds) * pow_nat(prod_tau(rounds), k as nat))
                % q
            &&& s2.beta_mul_tau_g2[k] == (prod_beta(rounds) * pow_nat(prod_tau(rounds), k as nat))
                % q
        } by {
            lemma_pow_nat_one(k as nat);
            assert (pow_nat(prod_tau(rounds), k as nat) == 1);
            assert (s2.tau_g1[k] == 1);
            assert (s2.tau_g2[k] == 1);
            assert (s2.alpha_mul_tau_g1[k] == 1);
            assert (s2.alpha_mul_tau_g2[k] == 1);
            assert (s2.beta_mul_tau_g1[k] == 1);
            assert (s2.beta_mul_tau_g2[k] == 1);
        }
        assert forall|k: int| 0 <= k < len implies (#[trigger] s2.tau_g2[k]) == pow_nat(
            prod_tau(rounds),
            k as nat,
        ) % q by {
            assert (s2.tau_g1[k] == pow_nat(prod_tau(rounds), k as nat) % q);
        }
        assert forall|k: int| 0 <= k < len implies (#[trigger] s2.alpha_mul_tau_g1[k]) == (
        prod_alpha(rounds) * pow_nat(prod_tau(rounds), k as nat)) % q by {
            assert (s2.tau_g1[k] == pow_nat(prod_tau(rounds), k as nat) % q);
        }
        assert forall|k: int| 0 <= k < len implies (#[trigger] s2.alpha_mul_tau_g2[k]) == (
        prod_alpha(rounds) * pow_nat(prod_tau(rounds), k as nat)) % q by {
            assert (s2.tau_g1[k] == pow_nat(prod_tau(rounds), k as nat) % q);
        }
        assert forall|k: int| 0 <= k < len implies (#[trigger] s2.beta_mul_tau_g1[k]) == (
        prod_beta(rounds) * pow_nat(prod_tau(rounds), k as nat)) % q by {
            assert (s2.tau_g1[k] == pow_nat(prod_tau(rounds), k as nat) % q);
        }
        assert forall|k: int| 0 <= k < len implies (#[trigger] s2.beta_mul_tau_g2[k]) == (
        prod_beta(rounds) * pow_nat(prod_tau(rounds), k as nat)) % q by {
            assert (s2.tau_g1[k] == pow_nat(prod_tau(rounds), k as nat) % q);
        }
    } else {
        lemma_common_chain(len, rounds.drop_last());
        lemma_common_after_ok(len, rounds.drop_last());
        let s = spec_common_after(len, rounds.drop_last());
        let last = rounds.last();
        let a = last.0 as nat;
        let b = last.1 as nat;
        let t = last.2 as nat;
        let pa = prod_alpha(rounds.drop_last());
        let pb = prod_beta(rounds.drop_last());
        let pt = prod_tau(rounds.drop_last());
        lemma_mul_mod_fold(pa, a, q);
        lemma_mul_mod_fold(pb, b, q);
        assert forall|k: int| 0 <= k < len implies (#[trigger] s2.tau_g1[k]) == pow_nat(
            prod_tau(rounds),
            k as nat,
        ) % q by {
            lemma_chain_tau_step(s.tau_g1[k], pt, t, k as nat);
        }
        assert forall|k: int| 0 <= k < len implies (#[trigger] s2.tau_g2[k]) == pow_nat(
            prod_tau(rounds),
            k as nat,
        ) % q by {
            lemma_chain_tau_step(s.tau_g2[k], pt, t, k as nat);
        }
        assert forall|k: int| 0 <= k < len implies (#[trigger] s2.alpha_mul_tau_g1[k]) == (
        prod_alpha(rounds) * pow_nat(prod_tau(rounds), k as nat)) % q by {
            lemma_chain_mixed_step(s.alpha_mul_tau_g1[k], pa, pt, a, t, k as nat);
        }
        assert forall|k: int| 0 <= k < len implies (#[trigger] s2.alpha_mul_tau_g2[k]) == (
        prod_alpha(rounds) * pow_nat(prod_tau(rounds), k as nat)) % q by {
            lemma_chain_mixed_step(s.alpha_mul_tau_g2[k], pa, pt, a, t, k as nat);
        }
        assert forall|k: int| 0 <= k < len implies (#[trigger] s2.beta_mul_tau_g1[k]) == (
        prod_beta(rounds) * pow_nat(prod_tau(rounds), k as nat)) % q by {
            lemma_chain_mixed_step(s.beta_mul_tau_g1[k], pb, pt, b, t, k as nat);
        }
        assert forall|k: int| 0 <= k < len implies (#[trigger] s2.beta_mul_tau_g2[k]) == (
        prod_beta(rounds) * pow_nat(prod_tau(rounds), k as nat)) % q by {
            lemma_chain_mixed_step(s.beta_mul_tau_g2[k], pb, pt, b, t, k as nat);
        }
    }
}

/// One round of the tau chain law: applying `t^k` to a commitment holding
/// `P^k` yields `(P*t)^k`.
proof fn lemma_chain_tau_step(cur: nat, pt: nat, t: nat, k: nat)
    requires
        cur == pow_nat(pt, k) % fr_order(),
    ensures
        (cur * spec_tau_coeff(1, t, k)) % fr_order() == pow_nat(pt * t, k) % fr_order(),
{
    let q = fr_order();
    assert (spec_tau_coeff(1, t, k) == pow_nat(t, k) % q);
    lemma_mul_mod_both(pow_nat(pt, k), pow_nat(t, k), q);
    lemma_pow_nat_distributes(pt, t, k);
}

/// One round of the combined-vector chain law: applying `a * t^k` to a
/// commitment holding `A * P^k` yields `(A*a) * (P*t)^k`.
proof fn lemma_chain_mixed_step(cur: nat, pa: nat, pt: nat, a: nat, t: nat, k: nat)
    requires
        cur == (pa * pow_nat(pt, k)) % fr_order(),
    ensures
        (cur * spec_tau_coeff(a, t, k)) % fr_order() == ((pa * a) * pow_nat(pt * t, k))
            % fr_order(),
{
    let q = fr_order();
    lemma_mul_mod_both(pa * pow_nat(pt, k), pow_nat(t, k) * a, q);
    lemma_mul_exchange(pa, pow_nat(pt, k), pow_nat(t, k), a);
    assert ((pa * pow_nat(pt, k)) * (pow_nat(t, k) * a) == (pa * pow_nat(t, k)) * (pow_nat(pt, k)
        * a));
    assert ((pa * pow_nat(pt, k)) * (pow_nat(t, k) * a) == (pa * a) * (pow_nat(pt, k) * pow_nat(
        t,
        k,
    ))) by (nonlinear_arith);
    lemma_pow_nat_distributes(pt, t, k);
}

/// The production three-round common ceremony with the fixed scalars
/// (1,2,1), (2,3,1), (3,4,2) over a degree-8 ledger: alpha ends at the
/// product 6, beta at 24, and the power-`k` tau entry at `2^k`.
pub fn mpc_common_paramters_custom_all() -> (r: CommonParamterInStorage)
    ensures
        r@ == spec_common_after(
            8,
            seq![(1u64, 2u64, 1u64), (2u64, 3u64, 1u64), (3u64, 4u64, 2u64)],
        ),
        r@.wf(),
        r@.degree() == 8,
        r@.alpha_g1 == 6,
        r@.alpha_g2 == 6,
        r@.beta_g1 == 24,
        r@.beta_g2 == 24,
        forall|k: int|
            0 <= k < 8 ==> (#[trigger] r@.tau_g1[k]) == pow_nat(2, k as nat) % fr_order(),
        forall|k: int|
            0 <= k < 8 ==> (#[trigger] r@.alpha_mul_tau_g1[k]) == (6 * pow_nat(2, k as nat))
                % fr_order(),
        forall|k: int|
            0 <= k < 8 ==> (#[trigger] r@.beta_mul_tau_g1[k]) == (24 * pow_nat(2, k as nat))
                % fr_order(),
{
    let mut rounds: Vec<(u64, u64, u64)> = Vec::new();
    rounds.push((1, 2, 1));
    rounds.push((2, 3, 1));
    rounds.push((3, 4, 2));
    let r = run_common_ceremony(8, &rounds);
    proof {
        assert (rounds@ =~= seq![(1u64, 2u64, 1u64), (2u64, 3u64, 1u64), (3u64, 4u64, 2u64)]);
        let s3 = rounds@;
        let s2 = s3.drop_last();
        let s1 = s2.drop_last();
        let s0 = s1.drop_last();
        assert (s0.len() == 0);
        assert (s1.len() == 1 && s1.last() == (1u64, 2u64, 1u64));
        assert (s2.len() == 2 && s2.last() == (2u64, 3u64, 1u64));
        assert (s3.last() == (3u64, 4u64, 2u64));
        assert (prod_alpha(s0) == 1 && prod_beta(s0) == 1 && prod_tau(s0) == 1);
        assert (prod_alpha(s1) == prod_alpha(s1.drop_last()) * (s1.last().0 as nat));
        assert (prod_beta(s1) == prod_beta(s1.drop_last()) * (s1.last().1 as nat));
        assert (prod_tau(s1) == prod_tau(s1.drop_last()) * (s1.last().2 as nat));
        assert (prod_alpha(s1) == 1 && prod_beta(s1) == 2 && prod_tau(s1) == 1);
        assert (prod_alpha(s2) == prod_alpha(s2.drop_last()) * (s2.last().0 as nat));
        assert (prod_beta(s2) == prod_beta(s2.drop_last()) * (s2.last().1 as nat));
        assert (prod_tau(s2) == prod_tau(s2.drop_last()) * (s2.last().2 as nat));
        assert (prod_alpha(s2) == 2 && prod_beta(s2) == 6 && prod_tau(s2) == 1);
        assert (prod_alpha(s3) == prod_alpha(s3.drop_last()) * (s3.last().0 as nat));
        assert (prod_beta(s3) == prod_beta(s3.drop_last()) * (s3.last().1 as nat));
        assert (prod_tau(s3) == prod_tau(s3.drop_last()) * (s3.last().2 as nat));
        assert (prod_alpha(s3) == 6 && prod_beta(s3) == 24 && prod_tau(s3) == 2);
        lemma_common_after_ok(8, s3);
        lemma_common_chain(8, s3);
        vstd::arithmetic::div_mod::lemma_small_mod(6, fr_order());
        vstd::arithmetic::div_mod::lemma_small_mod(24, fr_order());
    }
    r
}

/// The view of one sparse matrix row: coefficient values paired with the
/// commitment index they select.
pub open spec fn row_view(r: Seq<(Fr, usize)>) -> Seq<(nat, nat)> {
    r.map_values(|e: (Fr, usize)| (e.0@, e.1 as nat))
}

/// The view of a sparse matrix.
pub open spec fn matrix_view(m: Seq<Vec<(Fr, usize)>>) -> Seq<Seq<(nat, nat)>> {
    m.map_values(|r: Vec<(Fr, usize)>| row_view(r@))
}

/// The exponent accumulated for one matrix row: the sum, over its entries,
/// of the selected committed exponent times the coefficient, reduced after
/// every step exactly as the running group sum is.
pub open spec fn spec_row_acc(list: Seq<nat>, row: Seq<(nat, nat)>) -> nat
    decreases row.len(),
{
    if row.len() == 0 {
        0
    } else {
        (spec_row_acc(list, row.drop_last()) + (list[row.last().1 as int] * row.last().0)
            % fr_order()) % fr_order()
    }
}

/// Every index a matrix mentions is below the bound.
pub open spec fn spec_matrix_in_bounds(m: Seq<Seq<(nat, nat)>>, bound: nat) -> bool {
    forall|i: int, j: int|
        0 <= i < m.len() && 0 <= j < m[i].len() ==> (#[trigger] m[i][j]).1 < bound
}

/// Evaluates a sparse matrix against a vector of committed exponents: row
/// `i` of the result accumulates, in both groups, the committed entries the
/// row selects, scaled by the row's coefficients; rows past the matrix stay
/// at the identity.
pub fn list_mul_matrix(
    list_g1: &[G1Point],
    list_g2: &[G2Point],
    matrix: &Vec<Vec<(Fr, usize)>>,
) -> (r: (Vec<G1Point>, Vec<G2Point>))
    requires
        list_g1@.len() == list_g2@.len(),
        matrix@.len() <= list_g1@.len(),
        spec_matrix_in_bounds(matrix_view(matrix@), list_g1@.len()),
    ensures
        r.0@.len() == list_g1@.len(),
        r.1@.len() == list_g1@.len(),
        forall|i: int|
            0 <= i < matrix@.len() ==> (#[trigger] r.0@[i]@) == spec_row_acc(
                g1_logs(list_g1@),
                matrix_view(matrix@)[i],
            ),
        forall|i: int|
            0 <= i < matrix@.len() ==> (#[trigger] r.1@[i]@) == spec_row_acc(
                g2_logs(list_g2@),
                matrix_view(matrix@)[i],
            ),
        forall|i: int| matrix@.len() <= i < list_g1@.len() ==> (#[trigger] r.0@[i]@) == 0,
        forall|i: int| matrix@.len() <= i < list_g1@.len() ==> (#[trigger] r.1@[i]@) == 0,
{
    let g1_identity = G1Point::identity();
    let g2_identity = G2Point::identity();
    let len = list_g1.len();
    let mut result_g1: Vec<G1Point> = Vec::new();
    let mut result_g2: Vec<G2Point> = Vec::new();
    for i in 0..len
        invariant
            g1_identity@ == 0,
            g2_identity@ == 0,
            result_g1@.len() == i,
            result_g2@.len() == i,
            forall|k: int| 0 <= k < i ==> (#[trigger] result_g1@[k]@) == 0,
            forall|k: int| 0 <= k < i ==> (#[trigger] result_g2@[k]@) == 0,
    {
        result_g1.push(g1_identity);
        result_g2.push(g2_identity);
    }
    let rows = matrix.len();
    for i in 0..rows
        invariant
            rows == matrix@.len(),
            len == list_g1@.len() == list_g2@.len(),
            rows <= len,
            spec_matrix_in_bounds(matrix_view(matrix@), len as nat),
            result_g1@.len() == len,
            result_g2@.len() == len,
            forall|k: int|
                0 <= k < i ==> (#[trigger] result_g1@[k]@) == spec_row_acc(
                    g1_logs(list_g1@),
                    matrix_view(matrix@)[k],
                ),
            forall|k: int|
                0 <= k < i ==> (#[trigger] result_g2@[k]@) == spec_row_acc(
                    g2_logs(list_g2@),
                    matrix_view(matrix@)[k],
                ),
            forall|k: int| i <= k < len ==> (#[trigger] result_g1@[k]@) == 0,
            forall|k: int| i <= k < len ==> (#[trigger] result_g2@[k]@) == 0,
    {
        let cols = matrix[i].len();
        for j in 0..cols
            invariant
                rows == matrix@.len(),
                len == list_g1@.len() == list_g2@.len(),
                rows <= len,
                i < rows,
                cols == matrix@[i as int]@.len(),
                spec_matrix_in_bounds(matrix_view(matrix@), len as nat),
                result_g1@.len() == len,
                result_g2@.len() == len,
                forall|k: int|
                    0 <= k < i ==> (#[trigger] result_g1@[k]@) == spec_row_acc(
                        g1_logs(list_g1@),
                        matrix_view(matrix@)[k],
                    ),
                forall|k: int|
                    0 <= k < i ==> (#[trigger] result_g2@[k]@) == spec_row_acc(
                        g2_logs(list_g2@),
                        matrix_view(matrix@)[k],
                    ),
                forall|k: int| i < k < len ==> (#[trigger] result_g1@[k]@) == 0,
                forall|k: int| i < k < len ==> (#[trigger] result_g2@[k]@) == 0,
                result_g1@[i as int]@ == spec_row_acc(
                    g1_logs(list_g1@),
                    matrix_view(matrix@)[i as int].take(j as int),
                ),
                result_g2@[i as int]@ == spec_row_acc(
                    g2_logs(list_g2@),
                    matrix_view(matrix@)[i as int].take(j as int),
                ),
        {
            let e = matrix[i][j];
            proof {
                assert (matrix_view(matrix@)[i as int][j as int] == (e.0@, e.1 as nat));
                assert ((matrix_view(matrix@)[i as int][j as int]).1 < len as nat);
            }
            let idx = e.1;
            let cur1 = result_g1[i];
            let add1 = list_g1[idx].mul_fr(&e.0);
            result_g1[i] = cur1.add_point(&add1);
            let cur2 = result_g2[i];
            let add2 = list_g2[idx].mul_fr(&e.0);
            result_g2[i] = cur2.add_point(&add2);
            proof {
                let mrow = matrix_view(matrix@)[i as int];
                assert (mrow.take(j + 1).drop_last() =~= mrow.take(j as int));
                assert (mrow.take(j + 1).last() == mrow[j as int]);
                assert (g1_logs(list_g1@)[e.1 as int] == list_g1@[e.1 as int]@);
                assert (g2_logs(list_g2@)[e.1 as int] == list_g2@[e.1 as int]@);
            }
        }
        proof {
            assert (matrix_view(matrix@)[i as int].take(cols as int) =~= matrix_view(matrix@)[
                i as int
            ]);
        }
    }
    (result_g1, result_g2)
}

/// The per-variable and per-constraint commitments derived from a closed
/// common ledger and the QAP matrices: `front` covers the auxiliary
/// variables, `back` the public inputs, `h` the vanishing-quotient entries.
#[derive(Clone, Debug)]
pub struct CommonParamterMatrix {
    pub matrixed_g1_front: Vec<G1Point>,
    pub matrixed_g2_front: Vec<G2Point>,
    pub matrixed_g1_back: Vec<G1Point>,
    pub matrixed_g2_back: Vec<G2Point>,
    pub matrixed_h_g1: Vec<G1Point>,
    pub matrixed_h_g2: Vec<G2Point>,
}

/// The exponents of the derived commitments.
#[verifier::ext_equal]
pub ghost struct CommonMatrixView {
    pub matrixed_g1_front: Seq<nat>,
    pub matrixed_g2_front: Seq<nat>,
    pub matrixed_g1_back: Seq<nat>,
    pub matrixed_g2_back: Seq<nat>,
    pub matrixed_h_g1: Seq<nat>,
    pub matrixed_h_g2: Seq<nat>,
}

impl View for CommonParamterMatrix {
    type V = CommonMatrixView;

    open spec fn view(&self) -> CommonMatrixView {
        CommonMatrixView {
            matrixed_g1_front: g1_logs(self.matrixed_g1_front@),
            matrixed_g2_front: g2_logs(self.matrixed_g2_front@),
            matrixed_g1_back: g1_logs(self.matrixed_g1_back@),
            matrixed_g2_back: g2_logs(self.matrixed_g2_back@),
            matrixed_h_g1: g1_logs(self.matrixed_h_g1@),
            matrixed_h_g2: g2_logs(self.matrixed_h_g2@),
        }
    }
}

impl CommonMatrixView {
    /// The two groups' sides of each derived vector have matching lengths.
    pub open spec fn wf(self) -> bool {
        self.matrixed_g2_front.len() == self.matrixed_g1_front.len()
            && self.matrixed_g2_back.len() == self.matrixed_g1_back.len()
            && self.matrixed_h_g2.len() == self.matrixed_h_g1.len()
    }
}

/// Two exponent vectors agree entry by entry modulo the group order.
pub open spec fn spec_logs_congruent(a: Seq<nat>, b: Seq<nat>) -> bool {
    a.len() == b.len() && forall|i: int|
        0 <= i < a.len() ==> (#[trigger] a[i]) % fr_order() == b[i] % fr_order()
}

/// Two derived-commitment records hold the same points.
pub open spec fn spec_matrix_congruent(a: CommonMatrixView, b: CommonMatrixView) -> bool {
    &&& spec_logs_congruent(a.matrixed_g1_front, b.matrixed_g1_front)
    &&& spec_logs_congruent(a.matrixed_g2_front, b.matrixed_g2_front)
    &&& spec_logs_congruent(a.matrixed_g1_back, b.matrixed_g1_back)
    &&& spec_logs_congruent(a.matrixed_g2_back, b.matrixed_g2_back)
    &&& spec_logs_congruent(a.matrixed_h_g1, b.matrixed_h_g1)
    &&& spec_logs_congruent(a.matrixed_h_g2, b.matrixed_h_g2)
}

impl CommonParamterMatrix {
    /// Whether the two records hold the same commitments, point by point.
    pub fn equals(&self, other: &CommonParamterMatrix) -> (r: bool)
        ensures
            r == spec_matrix_congruent(self@, other@),
    {
        let ok1 = eq_g1_vec(&self.matrixed_g1_front, &other.matrixed_g1_front);
        let ok2 = eq_g2_vec(&self.matrixed_g2_front, &other.matrixed_g2_front);
        let ok3 = eq_g1_vec(&self.matrixed_g1_back, &other.matrixed_g1_back);
        let ok4 = eq_g2_vec(&self.matrixed_g2_back, &other.matrixed_g2_back);
        let ok5 = eq_g1_vec(&self.matrixed_h_g1, &other.matrixed_h_g1);
        let ok6 = eq_g2_vec(&self.matrixed_h_g2, &other.matrixed_h_g2);
        ok1 && ok2 && ok3 && ok4 && ok5 && ok6
    }
}

/// Whether two vectors of G1 elements hold the same points.
#[verifier::loop_isolation(false)]
pub fn eq_g1_vec(a: &Vec<G1Point>, b: &Vec<G1Point>) -> (r: bool)
    ensures
        r == spec_logs_congruent(g1_logs(a@), g1_logs(b@)),
{
    if a.len() != b.len() {
        return false;
    }
    let mut ok = true;
    for i in 0..a.len()
        invariant
            ok == (forall|j: int|
                0 <= j < i ==> (#[trigger] g1_logs(a@)[j]) % fr_order() == g1_logs(b@)[j]
                    % fr_order()),
    {
        let e = a[i].eq_point(&b[i]);
        proof {
            assert (g1_logs(a@)[i as int] == a@[i as int]@);
            assert (g1_logs(b@)[i as int] == b@[i as int]@);
        }
        ok = ok && e;
    }
    ok
}

/// Whether two vectors of G2 elements hold the same points.
#[verifier::loop_isolation(false)]
pub fn eq_g2_vec(a: &Vec<G2Point>, b: &Vec<G2Point>) -> (r: bool)
    ensures
        r == spec_logs_congruent(g2_logs(a@), g2_logs(b@)),
{
    if a.len() != b.len() {
        return false;
    }
    let mut ok = true;
    for i in 0..a.len()
        invariant
            ok == (forall|j: int|
                0 <= j < i ==> (#[trigger] g2_logs(a@)[j]) % fr_order() == g2_logs(b@)[j]
                    % fr_order()),
    {
        let e = a[i].eq_point(&b[i]);
        proof {
            assert (g2_logs(a@)[i as int] == a@[i as int]@);
            assert (g2_logs(b@)[i as int] == b@[i as int]@);
        }
        ok = ok && e;
    }
    ok
}

/// The exponent a matrix evaluation leaves at a row: the row's accumulated
/// sum where the matrix has such a row, the identity beyond it.
pub open spec fn spec_eval_rows(list: Seq<nat>, m: Seq<Seq<(nat, nat)>>, i: int) -> nat {
    if i < m.len() {
        spec_row_acc(list, m[i])
    } else {
        0
    }
}

/// The derived commitments `matrix_test` computes: for each auxiliary
/// variable, the sum of the alpha*tau evaluation of B, the beta*tau
/// evaluation of A and the tau evaluation of C over the auxiliary range of
/// the ledger; for each input variable, the same over the input range; and
/// for each constraint, the vanishing-quotient difference of tau powers.
pub open spec fn spec_matrix_test(
    s: CommonStorageView,
    at: Seq<Seq<(nat, nat)>>,
    bt: Seq<Seq<(nat, nat)>>,
    ct: Seq<Seq<(nat, nat)>>,
    ni: nat,
    na: nat,
    nc: nat,
) -> CommonMatrixView {
    let q = fr_order();
    CommonMatrixView {
        matrixed_g1_front: Seq::new(
            na,
            |i: int|
                ((spec_eval_rows(s.alpha_mul_tau_g1.subrange(0, na as int), bt, i)
                    + spec_eval_rows(s.beta_mul_tau_g1.subrange(0, na as int), at, i)) % q
                    + spec_eval_rows(s.tau_g1.subrange(0, na as int), ct, i)) % q,
        ),
        matrixed_g2_front: Seq::new(
            na,
            |i: int|
                ((spec_eval_rows(s.alpha_mul_tau_g2.subrange(0, na as int), bt, i)
                    + spec_eval_rows(s.beta_mul_tau_g2.subrange(0, na as int), at, i)) % q
                    + spec_eval_rows(s.tau_g2.subrange(0, na as int), ct, i)) % q,
        ),
        matrixed_g1_back: Seq::new(
            ni,
            |i: int|
                ((spec_eval_rows(
                    s.alpha_mul_tau_g1.subrange(na as int, (na + ni) as int),
                    bt,
                    i,
                ) + spec_eval_rows(
                    s.beta_mul_tau_g1.subrange(na as int, (na + ni) as int),
                    at,
                    i,
                )) % q + spec_eval_rows(s.tau_g1.subrange(na as int, (na + ni) as int), ct, i))
                    % q,
        ),
        matrixed_g2_back: Seq::new(
            ni,
            |i: int|
                ((spec_eval_rows(
                    s.alpha_mul_tau_g2.subrange(na as int, (na + ni) as int),
                    bt,
                    i,
                ) + spec_eval_rows(
                    s.beta_mul_tau_g2.subrange(na as int, (na + ni) as int),
                    at,
                    i,
                )) % q + spec_eval_rows(s.tau_g2.subrange(na as int, (na + ni) as int), ct, i))
                    % q,
        ),
        matrixed_h_g1: Seq::new(nc, |i: int| sub_mod(s.tau_g1[nc + i], s.tau_g1[i])),
        matrixed_h_g2: Seq::new(nc, |i: int| sub_mod(s.tau_g2[nc + i], s.tau_g2[i])),
    }
}

impl CommonParamterInStorage {
    /// Evaluates the QAP matrices against the closed ledger, range by
    /// range, and derives the vanishing-quotient commitments.  The result
    /// is a pure function of the ledger and matrices, so evaluating the
    /// same inputs twice yields identical commitments.
    #[verifier::loop_isolation(false)]
    pub fn matrix_test(
        &self,
        at_aux: &Vec<Vec<(Fr, usize)>>,
        bt_aux: &Vec<Vec<(Fr, usize)>>,
        ct_aux: &Vec<Vec<(Fr, usize)>>,
        num_inputs: usize,
        num_aux: usize,
        num_constraints: usize,
    ) -> (r: CommonParamterMatrix)
        requires
            self@.wf(),
            num_aux + num_inputs <= self@.degree(),
            2 * num_constraints <= self@.degree(),
            num_constraints > 0 ==> self@.tau_g1[0] % fr_order() == 1,
            at_aux@.len() <= num_aux && at_aux@.len() <= num_inputs,
            bt_aux@.len() <= num_aux && bt_aux@.len() <= num_inputs,
            ct_aux@.len() <= num_aux && ct_aux@.len() <= num_inputs,
            spec_matrix_in_bounds(matrix_view(at_aux@), num_aux as nat),
            spec_matrix_in_bounds(matrix_view(at_aux@), num_inputs as nat),
            spec_matrix_in_bounds(matrix_view(bt_aux@), num_aux as nat),
            spec_matrix_in_bounds(matrix_view(bt_aux@), num_inputs as nat),
            spec_matrix_in_bounds(matrix_view(ct_aux@), num_aux as nat),
            spec_matrix_in_bounds(matrix_view(ct_aux@), num_inputs as nat),
        ensures
            r@ == spec_matrix_test(
                self@,
                matrix_view(at_aux@),
                matrix_view(bt_aux@),
                matrix_view(ct_aux@),
                num_inputs as nat,
                num_aux as nat,
                num_constraints as nat,
            ),
    {
        let ghost target = spec_matrix_test(
            self@,
            matrix_view(at_aux@),
            matrix_view(bt_aux@),
            matrix_view(ct_aux@),
            num_inputs as nat,
            num_aux as nat,
            num_constraints as nat,
        );
        proof {
            assert (g1_logs(self.alpha_mul_tau_g1@.subrange(0, num_aux as int))
                =~= self@.alpha_mul_tau_g1.subrange(0, num_aux as int));
            assert (g2_logs(self.alpha_mul_tau_g2@.subrange(0, num_aux as int))
                =~= self@.alpha_mul_tau_g2.subrange(0, num_aux as int));
            assert (g1_logs(self.beta_mul_tau_g1@.subrange(0, num_aux as int))
                =~= self@.beta_mul_tau_g1.subrange(0, num_aux as int));
            assert (g2_logs(self.beta_mul_tau_g2@.subrange(0, num_aux as int))
                =~= self@.beta_mul_tau_g2.subrange(0, num_aux as int));
            assert (g1_logs(self.tau_g1@.subrange(0, num_aux as int)) =~= self@.tau_g1.subrange(
                0,
                num_aux as int,
            ));
            assert (g2_logs(self.tau_g2@.subrange(0, num_aux as int)) =~= self@.tau_g2.subrange(
                0,
                num_aux as int,
            ));
            assert (g1_logs(
                self.alpha_mul_tau_g1@.subrange(num_aux as int, (num_aux + num_inputs) as int),
            ) =~= self@.alpha_mul_tau_g1.subrange(num_aux as int, (num_aux + num_inputs) as int));
            assert (g2_logs(
                self.alpha_mul_tau_g2@.subrange(num_aux as int, (num_aux + num_inputs) as int),
            ) =~= self@.alpha_mul_tau_g2.subrange(num_aux as int, (num_aux + num_inputs) as int));
            assert (g1_logs(
                self.beta_mul_tau_g1@.subrange(num_aux as int, (num_aux + num_inputs) as int),
            ) =~= self@.beta_mul_tau_g1.subrange(num_aux as int, (num_aux + num_inputs) as int));
            assert (g2_logs(
                self.beta_mul_tau_g2@.subrange(num_aux as int, (num_aux + num_inputs) as int),
            ) =~= self@.beta_mul_tau_g2.subrange(num_aux as int, (num_aux + num_inputs) as int));
            assert (g1_logs(self.tau_g1@.subrange(num_aux as int, (num_aux + num_inputs) as int))
                =~= self@.tau_g1.subrange(num_aux as int, (num_aux + num_inputs) as int));
            assert (g2_logs(self.tau_g2@.subrange(num_aux as int, (num_aux + num_inputs) as int))
                =~= self@.tau_g2.subrange(num_aux as int, (num_aux + num_inputs) as int));
        }
        let deg = self.tau_g1.len();
        proof {
            assert (self@.degree() == deg as nat);
        }
        let (alpha_matrix_g1_front, alpha_matrix_g2_front) = list_mul_matrix(
            &self.alpha_mul_tau_g1.as_slice()[0..num_aux],
            &self.alpha_mul_tau_g2.as_slice()[0..num_aux],
            bt_aux,
        );
        let (alpha_matrix_g1_back, alpha_matrix_g2_back) = list_mul_matrix(
            &self.alpha_mul_tau_g1.as_slice()[num_aux..num_inputs + num_aux],
            &self.alpha_mul_tau_g2.as_slice()[num_aux..num_inputs + num_aux],
            bt_aux,
        );
        let (beta_matrix_g1_front, beta_matrix_g2_front) = list_mul_matrix(
            &self.beta_mul_tau_g1.as_slice()[0..num_aux],
            &self.beta_mul_tau_g2.as_slice()[0..num_aux],
            at_aux,
        );
        let (beta_matrix_g1_back, beta_matrix_g2_back) = list_mul_matrix(
            &self.beta_mul_tau_g1.as_slice()[num_aux..num_inputs + num_aux],
            &self.beta_mul_tau_g2.as_slice()[num_aux..num_inputs + num_aux],
            at_aux,
        );
        let (tau_matrix_g1_front, tau_matrix_g2_front) = list_mul_matrix(
            &self.tau_g1.as_slice()[0..num_aux],
            &self.tau_g2.as_slice()[0..num_aux],
            ct_aux,
        );
        let (tau_matrix_g1_back, tau_matrix_g2_back) = list_mul_matrix(
            &self.tau_g1.as_slice()[num_aux..num_inputs + num_aux],
            &self.tau_g2.as_slice()[num_aux..num_inputs + num_aux],
            ct_aux,
        );
        let mut matrixed_g1_front: Vec<G1Point> = Vec::new();
        let mut matrixed_g2_front: Vec<G2Point> = Vec::new();
        for i in 0..num_aux
            invariant
                matrixed_g1_front@.len() == i,
                matrixed_g2_front@.len() == i,
                forall|k: int|
                    0 <= k < i ==> (#[trigger] matrixed_g1_front@[k]@) == target.matrixed_g1_front[k],
                forall|k: int|
                    0 <= k < i ==> (#[trigger] matrixed_g2_front@[k]@) == target.matrixed_g2_front[k],
        {
            let s_ab1 = alpha_matrix_g1_front[i].add_point(&beta_matrix_g1_front[i]);
            let tot1 = s_ab1.add_point(&tau_matrix_g1_front[i]);
            matrixed_g1_front.push(tot1);
            let s_ab2 = alpha_matrix_g2_front[i].add_point(&beta_matrix_g2_front[i]);
            let tot2 = s_ab2.add_point(&tau_matrix_g2_front[i]);
            matrixed_g2_front.push(tot2);
        }
        let mut matrixed_g1_back: Vec<G1Point> = Vec::new();
        let mut matrixed_g2_back: Vec<G2Point> = Vec::new();
        for i in 0..num_inputs
            invariant
                matrixed_g1_back@.len() == i,
                matrixed_g2_back@.len() == i,
                forall|k: int|
                    0 <= k < i ==> (#[trigger] matrixed_g1_back@[k]@) == target.matrixed_g1_back[k],
                forall|k: int|
                    0 <= k < i ==> (#[trigger] matrixed_g2_back@[k]@) == target.matrixed_g2_back[k],
        {
            let s_ab1 = alpha_matrix_g1_back[i].add_point(&beta_matrix_g1_back[i]);
            let tot1 = s_ab1.add_point(&tau_matrix_g1_back[i]);
            matrixed_g1_back.push(tot1);
            let s_ab2 = alpha_matrix_g2_back[i].add_point(&beta_matrix_g2_back[i]);
            let tot2 = s_ab2.add_point(&tau_matrix_g2_back[i]);
            matrixed_g2_back.push(tot2);
        }
        let mut matrixed_h_g1: Vec<G1Point> = Vec::new();
        let mut matrixed_h_g2: Vec<G2Point> = Vec::new();
        for i in 0..num_constraints
            invariant
                matrixed_h_g1@.len() == i,
                matrixed_h_g2@.len() == i,
                forall|k: int|
                    0 <= k < i ==> (#[trigger] matrixed_h_g1@[k]@) == target.matrixed_h_g1[k],
                forall|k: int|
                    0 <= k < i ==> (#[trigger] matrixed_h_g2@[k]@) == target.matrixed_h_g2[k],
        {
            let h1 = self.tau_g1[num_constraints + i].sub_point(&self.tau_g1[i]);
            matrixed_h_g1.push(h1);
            let h2 = self.tau_g2[num_constraints + i].sub_point(&self.tau_g2[i]);
            matrixed_h_g2.push(h2);
        }
        let c = CommonParamterMatrix {
            matrixed_g1_front,
            matrixed_g2_front,
            matrixed_g1_back,
            matrixed_g2_back,
            matrixed_h_g1,
            matrixed_h_g2,
        };
        proof {
            assert (c@.matrixed_g1_front =~= target.matrixed_g1_front);
            assert (c@.matrixed_g2_front =~= target.matrixed_g2_front);
            assert (c@.matrixed_g1_back =~= target.matrixed_g1_back);
            assert (c@.matrixed_g2_back =~= target.matrixed_g2_back);
            assert (c@.matrixed_h_g1 =~= target.matrixed_h_g1);
            assert (c@.matrixed_h_g2 =~= target.matrixed_h_g2);
            assert (c@ =~= target);
        }
        c
    }
}

/// The derived commitments `matrix` computes.  Unlike `matrix_test` it
/// evaluates the alpha*tau vector over the auxiliary range only, the
/// beta*tau vector over the input range only, and the tau vector over the
/// whole ledger, and pads each combined entry with whichever of the three
/// evaluations reaches its index.
pub open spec fn spec_matrix(
    s: CommonStorageView,
    at: Seq<Seq<(nat, nat)>>,
    bt: Seq<Seq<(nat, nat)>>,
    ct: Seq<Seq<(nat, nat)>>,
    ni: nat,
    na: nat,
    nc: nat,
) -> CommonMatrixView {
    let q = fr_order();
    CommonMatrixView {
        matrixed_g1_front: Seq::new(
            na,
            |i: int|
                {
                    let v1 = (0 + spec_eval_rows(s.alpha_mul_tau_g1.subrange(0, na as int), bt, i))
                        % q;
                    let v2 = if i < ni {
                        (v1 + spec_eval_rows(
                            s.beta_mul_tau_g1.subrange(na as int, (na + ni) as int),
                            at,
                            i,
                        )) % q
                    } else {
                        v1
                    };
                    (v2 + spec_eval_rows(s.tau_g1, ct, i)) % q
                },
        ),
        matrixed_g2_front: Seq::new(
            na,
            |i: int|
                {
                    let v1 = (0 + spec_eval_rows(s.alpha_mul_tau_g2.subrange(0, na as int), bt, i))
                        % q;
                    let v2 = if i < ni {
                        (v1 + spec_eval_rows(
                            s.beta_mul_tau_g2.subrange(na as int, (na + ni) as int),
                            at,
                            i,
                        )) % q
                    } else {
                        v1
                    };
                    (v2 + spec_eval_rows(s.tau_g2, ct, i)) % q
                },
        ),
        matrixed_g1_back: Seq::new(
            ni,
            |idx: int|
                {
                    let v1 = if na + idx < ni {
                        (0 + spec_eval_rows(
                            s.beta_mul_tau_g1.subrange(na as int, (na + ni) as int),
                            at,
                            na + idx,
                        )) % q
                    } else {
                        0
                    };
                    (v1 + spec_eval_rows(s.tau_g1, ct, na + idx)) % q
                },
        ),
        matrixed_g2_back: Seq::new(
            ni,
            |idx: int|
                {
                    let v1 = if na + idx < ni {
                        (0 + spec_eval_rows(
                            s.beta_mul_tau_g2.subrange(na as int, (na + ni) as int),
                            at,
                            na + idx,
                        )) % q
                    } else {
                        0
                    };
                    (v1 + spec_eval_rows(s.tau_g2, ct, na + idx)) % q
                },
        ),
        matrixed_h_g1: Seq::new(nc, |i: int| sub_mod(s.tau_g1[nc + i], s.tau_g1[i])),
        matrixed_h_g2: Seq::new(nc, |i: int| sub_mod(s.tau_g2[nc + i], s.tau_g2[i])),
    }
}

impl CommonParamterInStorage {
    /// Evaluates the QAP matrices against the closed ledger in the
    /// production layout and derives the vanishing-quotient commitments.
    #[verifier::loop_isolation(false)]
    pub fn matrix(
        &self,
        at_aux: &Vec<Vec<(Fr, usize)>>,
        bt_aux: &Vec<Vec<(Fr, usize)>>,
        ct_aux: &Vec<Vec<(Fr, usize)>>,
        num_inputs: usize,
        num_aux: usize,
        num_constraints: usize,
    ) -> (r: CommonParamterMatrix)
        requires
            self@.wf(),
            num_aux + num_inputs <= self@.degree(),
            2 * num_constraints <= self@.degree(),
            num_constraints > 0 ==> self@.tau_g1[0] % fr_order() == 1,
            bt_aux@.len() <= num_aux,
            at_aux@.len() <= num_inputs,
            ct_aux@.len() <= self@.degree(),
            spec_matrix_in_bounds(matrix_view(bt_aux@), num_aux as nat),
            spec_matrix_in_bounds(matrix_view(at_aux@), num_inputs as nat),
            spec_matrix_in_bounds(matrix_view(ct_aux@), self@.degree()),
        ensures
            r@ == spec_matrix(
                self@,
                matrix_view(at_aux@),
                matrix_view(bt_aux@),
                matrix_view(ct_aux@),
                num_inputs as nat,
                num_aux as nat,
                num_constraints as nat,
            ),
    {
        let ghost target = spec_matrix(
            self@,
            matrix_view(at_aux@),
            matrix_view(bt_aux@),
            matrix_view(ct_aux@),
            num_inputs as nat,
            num_aux as nat,
            num_constraints as nat,
        );
        let deg = self.tau_g1.len();
        proof {
            assert (self@.degree() == deg as nat);
            assert (g1_logs(self.alpha_mul_tau_g1@.subrange(0, num_aux as int))
                =~= self@.alpha_mul_tau_g1.subrange(0, num_aux as int));
            assert (g2_logs(self.alpha_mul_tau_g2@.subrange(0, num_aux as int))
                =~= self@.alpha_mul_tau_g2.subrange(0, num_aux as int));
            assert (g1_logs(
                self.beta_mul_tau_g1@.subrange(num_aux as int, (num_aux + num_inputs) as int),
            ) =~= self@.beta_mul_tau_g1.subrange(num_aux as int, (num_aux + num_inputs) as int));
            assert (g2_logs(
                self.beta_mul_tau_g2@.subrange(num_aux as int, (num_aux + num_inputs) as int),
            ) =~= self@.beta_mul_tau_g2.subrange(num_aux as int, (num_aux + num_inputs) as int));
        }
        let (alpha_matrix_g1, alpha_matrix_g2) = list_mul_matrix(
            &self.alpha_mul_tau_g1.as_slice()[0..num_aux],
            &self.alpha_mul_tau_g2.as_slice()[0..num_aux],
            bt_aux,
        );
        let (beta_matrix_g1, beta_matrix_g2) = list_mul_matrix(
            &self.beta_mul_tau_g1.as_slice()[num_aux..num_inputs + num_aux],
            &self.beta_mul_tau_g2.as_slice()[num_aux..num_inputs + num_aux],
            at_aux,
        );
        let (tau_matrix_g1, tau_matrix_g2) = list_mul_matrix(
            &self.tau_g1.as_slice(),
            &self.tau_g2.as_slice(),
            ct_aux,
        );
        let g1_identity = G1Point::identity();
        let g2_identity = G2Point::identity();
        let alpha_len = alpha_matrix_g1.len();
        let beta_len = beta_matrix_g1.len();
        let tau_len = tau_matrix_g1.len();
        let mut matrixed_g1_front: Vec<G1Point> = Vec::new();
        let mut matrixed_g2_front: Vec<G2Point> = Vec::new();
        let mut matrixed_g1_back: Vec<G1Point> = Vec::new();
        let mut matrixed_g2_back: Vec<G2Point> = Vec::new();
        let mut matrixed_h_g1: Vec<G1Point> = Vec::new();
        let mut matrixed_h_g2: Vec<G2Point> = Vec::new();
        for i in 0..num_aux + num_inputs
            invariant
                matrixed_g1_front@.len() == if i <= num_aux {
                    i as int
                } else {
                    num_aux as int
                },
                matrixed_g2_front@.len() == matrixed_g1_front@.len(),
                matrixed_g1_back@.len() == if i <= num_aux {
                    0
                } else {
                    i - num_aux
                },
                matrixed_g2_back@.len() == matrixed_g1_back@.len(),
                forall|k: int|
                    0 <= k < matrixed_g1_front@.len() ==> (#[trigger] matrixed_g1_front@[k]@)
                        == target.matrixed_g1_front[k],
                forall|k: int|
                    0 <= k < matrixed_g2_front@.len() ==> (#[trigger] matrixed_g2_front@[k]@)
                        == target.matrixed_g2_front[k],
                forall|k: int|
                    0 <= k < matrixed_g1_back@.len() ==> (#[trigger] matrixed_g1_back@[k]@)
                        == target.matrixed_g1_back[k],
                forall|k: int|
                    0 <= k < matrixed_g2_back@.len() ==> (#[trigger] matrixed_g2_back@[k]@)
                        == target.matrixed_g2_back[k],
        {
            if i < num_aux {
                let mut cur1 = g1_identity;
                let mut cur2 = g2_identity;
                if i < alpha_len {
                    cur1 = cur1.add_point(&alpha_matrix_g1[i]);
                    cur2 = cur2.add_point(&alpha_matrix_g2[i]);
                }
                if i < beta_len {
                    cur1 = cur1.add_point(&beta_matrix_g1[i]);
                    cur2 = cur2.add_point(&beta_matrix_g2[i]);
                }
                if i < tau_len {
                    cur1 = cur1.add_point(&tau_matrix_g1[i]);
                    cur2 = cur2.add_point(&tau_matrix_g2[i]);
                }
                matrixed_g1_front.push(cur1);
                matrixed_g2_front.push(cur2);
            } else {
                let mut cur1 = g1_identity;
                let mut cur2 = g2_identity;
                if i < alpha_len {
                    cur1 = cur1.add_point(&alpha_matrix_g1[i]);
                    cur2 = cur2.add_point(&alpha_matrix_g2[i]);
                }
                if i < beta_len {
                    cur1 = cur1.add_point(&beta_matrix_g1[i]);
                    cur2 = cur2.add_point(&beta_matrix_g2[i]);
                }
                if i < tau_len {
                    cur1 = cur1.add_point(&tau_matrix_g1[i]);
                    cur2 = cur2.add_point(&tau_matrix_g2[i]);
                }
                matrixed_g1_back.push(cur1);
                matrixed_g2_back.push(cur2);
            }
        }
        for i in 0..num_constraints
            invariant
                matrixed_h_g1@.len() == i,
                matrixed_h_g2@.len() == i,
                forall|k: int|
                    0 <= k < i ==> (#[trigger] matrixed_h_g1@[k]@) == target.matrixed_h_g1[k],
                forall|k: int|
                    0 <= k < i ==> (#[trigger] matrixed_h_g2@[k]@) == target.matrixed_h_g2[k],
        {
            let h1 = self.tau_g1[num_constraints + i].sub_point(&self.tau_g1[i]);
            matrixed_h_g1.push(h1);
            let h2 = self.tau_g2[num_constraints + i].sub_point(&self.tau_g2[i]);
            matrixed_h_g2.push(h2);
        }
        let c = CommonParamterMatrix {
            matrixed_g1_front,
            matrixed_g2_front,
            matrixed_g1_back,
            matrixed_g2_back,
            matrixed_h_g1,
            matrixed_h_g2,
        };
        proof {
            assert (c@.matrixed_g1_front =~= target.matrixed_g1_front);
            assert (c@.matrixed_g2_front =~= target.matrixed_g2_front);
            assert (c@.matrixed_g1_back =~= target.matrixed_g1_back);
            assert (c@.matrixed_g2_back =~= target.matrixed_g2_back);
            assert (c@.matrixed_h_g1 =~= target.matrixed_h_g1);
            assert (c@.matrixed_h_g2 =~= target.matrixed_h_g2);
            assert (c@ =~= target);
        }
        c
    }
}

/// One contributor's full output for an uncommon-ceremony round: pairs for
/// gamma and delta, and the inverse-scaled IC (`ic`), L (`l`) and H (`h`)
/// query vectors.
pub struct UnCommonParamter {
    pub delta: ParameterPair,
    pub gamma: ParameterPair,
    pub ic: TauParameterPair,
    pub l: TauParameterPair,
    pub h: TauParameterPair,
}

/// The exponents of an uncommon-ceremony contribution.
#[verifier::ext_equal]
pub ghost struct UnCommonView {
    pub delta: PairView,
    pub gamma: PairView,
    pub ic: Seq<PairView>,
    pub l: Seq<PairView>,
    pub h: Seq<PairView>,
}

impl View for UnCommonParamter {
    type V = UnCommonView;

    open spec fn view(&self) -> UnCommonView {
        UnCommonView {
            delta: self.delta@,
            gamma: self.gamma@,
            ic: self.ic@,
            l: self.l@,
            h: self.h@,
        }
    }
}

/// The coordinator's ledger for the uncommon ceremony: the running gamma
/// and delta commitments and the three query vectors they scale.
#[derive(Clone, Debug)]
pub struct UnCommonParamterInStorage {
    pub gamma_g1: G1Point,
    pub gamma_g2: G2Point,
    pub delta_g1: G1Point,
    pub delta_g2: G2Point,
    pub kin_g1: Vec<G1Point>,
    pub kin_g2: Vec<G2Point>,
    pub kout_g1: Vec<G1Point>,
    pub kout_g2: Vec<G2Point>,
    pub h_g1: Vec<G1Point>,
    pub h_g2: Vec<G2Point>,
}

/// The exponents of an uncommon-ceremony ledger.
#[verifier::ext_equal]
pub ghost struct UnStorageView {
    pub gamma_g1: nat,
    pub gamma_g2: nat,
    pub delta_g1: nat,
    pub delta_g2: nat,
    pub kin_g1: Seq<nat>,
    pub kin_g2: Seq<nat>,
    pub kout_g1: Seq<nat>,
    pub kout_g2: Seq<nat>,
    pub h_g1: Seq<nat>,
    pub h_g2: Seq<nat>,
}

impl View for UnCommonParamterInStorage {
    type V = UnStorageView;

    open spec fn view(&self) -> UnStorageView {
        UnStorageView {
            gamma_g1: self.gamma_g1@,
            gamma_g2: self.gamma_g2@,
            delta_g1: self.delta_g1@,
            delta_g2: self.delta_g2@,
            kin_g1: g1_logs(self.kin_g1@),
            kin_g2: g2_logs(self.kin_g2@),
            kout_g1: g1_logs(self.kout_g1@),
            kout_g2: g2_logs(self.kout_g2@),
            h_g1: g1_logs(self.h_g1@),
            h_g2: g2_logs(self.h_g2@),
        }
    }
}

impl UnStorageView {
    /// The two sides of each query vector have matching lengths.
    pub open spec fn wf(self) -> bool {
        self.kin_g2.len() == self.kin_g1.len() && self.kout_g2.len() == self.kout_g1.len()
            && self.h_g2.len() == self.h_g1.len()
    }

    /// The query vectors match the derived commitments they scale.
    pub open spec fn lens_match(self, m: CommonMatrixView) -> bool {
        self.kin_g1.len() == m.matrixed_g1_front.len() && self.kin_g2.len()
            == m.matrixed_g2_front.len() && self.kout_g1.len() == m.matrixed_g1_back.len()
            && self.kout_g2.len() == m.matrixed_g2_back.len() && self.h_g1.len()
            == m.matrixed_h_g1.len() && self.h_g2.len() == m.matrixed_h_g2.len()
    }
}

/// The ledger formed from the results of an accepted uncommon
/// contribution.
pub open spec fn spec_un_to_storage(n: UnCommonView) -> UnStorageView {
    UnStorageView {
        gamma_g1: n.gamma.g1_result,
        gamma_g2: n.gamma.g2_result,
        delta_g1: n.delta.g1_result,
        delta_g2: n.delta.g2_result,
        kin_g1: n.ic.map_values(|p: PairView| p.g1_result),
        kin_g2: n.ic.map_values(|p: PairView| p.g2_result),
        kout_g1: n.l.map_values(|p: PairView| p.g1_result),
        kout_g2: n.l.map_values(|p: PairView| p.g2_result),
        h_g1: n.h.map_values(|p: PairView| p.g1_result),
        h_g2: n.h.map_values(|p: PairView| p.g2_result),
    }
}

impl UnCommonParamter {
    /// The ledger the contribution turns into once it has been accepted.
    pub fn to_storage_format(&self) -> (r: UnCommonParamterInStorage)
        ensures
            r@ == spec_un_to_storage(self@),
    {
        let s = UnCommonParamterInStorage {
            gamma_g1: self.gamma.get_g1(),
            gamma_g2: self.gamma.get_g2(),
            delta_g1: self.delta.get_g1(),
            delta_g2: self.delta.get_g2(),
            kin_g1: self.ic.get_g1(),
            kin_g2: self.ic.get_g2(),
            kout_g1: self.l.get_g1(),
            kout_g2: self.l.get_g2(),
            h_g1: self.h.get_g1(),
            h_g2: self.h.get_g2(),
        };
        proof {
            assert (s@.kin_g1 =~= spec_un_to_storage(self@).kin_g1);
            assert (s@.kin_g2 =~= spec_un_to_storage(self@).kin_g2);
            assert (s@.kout_g1 =~= spec_un_to_storage(self@).kout_g1);
            assert (s@.kout_g2 =~= spec_un_to_storage(self@).kout_g2);
            assert (s@.h_g1 =~= spec_un_to_storage(self@).h_g1);
            assert (s@.h_g2 =~= spec_un_to_storage(self@).h_g2);
            assert (s@ =~= spec_un_to_storage(self@));
        }
        s
    }
}

/// The ledger at the opening of the uncommon ceremony: gamma and delta at
/// the generators and the query vectors taken verbatim from the derived
/// commitments.
pub open spec fn spec_initial_uncommon(m: CommonMatrixView) -> UnStorageView {
    UnStorageView {
        gamma_g1: 1,
        gamma_g2: 1,
        delta_g1: 1,
        delta_g2: 1,
        kin_g1: m.matrixed_g1_front,
        kin_g2: m.matrixed_g2_front,
        kout_g1: m.matrixed_g1_back,
        kout_g2: m.matrixed_g2_back,
        h_g1: m.matrixed_h_g1,
        h_g2: m.matrixed_h_g2,
    }
}

/// Opens an uncommon ceremony over the derived commitments.
pub fn initial_uncommon_paramters(common_paramter_matrix: &CommonParamterMatrix) -> (r:
    UnCommonParamterInStorage)
    ensures
        r@ == spec_initial_uncommon(common_paramter_matrix@),
{
    let g1 = G1Point::generator();
    let g2 = G2Point::generator();
    let s = UnCommonParamterInStorage {
        gamma_g1: g1,
        gamma_g2: g2,
        delta_g1: g1,
        delta_g2: g2,
        kin_g1: clone_g1_vec(&common_paramter_matrix.matrixed_g1_front),
        kin_g2: clone_g2_vec(&common_paramter_matrix.matrixed_g2_front),
        kout_g1: clone_g1_vec(&common_paramter_matrix.matrixed_g1_back),
        kout_g2: clone_g2_vec(&common_paramter_matrix.matrixed_g2_back),
        h_g1: clone_g1_vec(&common_paramter_matrix.matrixed_h_g1),
        h_g2: clone_g2_vec(&common_paramter_matrix.matrixed_h_g2),
    };
    proof {
        assert (s@ =~= spec_initial_uncommon(common_paramter_matrix@));
    }
    s
}

/// A copy of a vector of G1 points.
#[verifier::loop_isolation(false)]
fn clone_g1_vec(v: &Vec<G1Point>) -> (r: Vec<G1Point>)
    ensures
        g1_logs(r@) =~= g1_logs(v@),
{
    let mut r: Vec<G1Point> = Vec::new();
    for i in 0..v.len()
        invariant
            r@.len() == i,
            forall|j: int| 0 <= j < i ==> (#[trigger] r@[j]@) == v@[j]@,
    {
        r.push(v[i]);
    }
    r
}

/// A copy of a vector of G2 points.
#[verifier::loop_isolation(false)]
fn clone_g2_vec(v: &Vec<G2Point>) -> (r: Vec<G2Point>)
    ensures
        g2_logs(r@) =~= g2_logs(v@),
{
    let mut r: Vec<G2Point> = Vec::new();
    for i in 0..v.len()
        invariant
            r@.len() == i,
            forall|j: int| 0 <= j < i ==> (#[trigger] r@[j]@) == v@[j]@,
    {
        r.push(v[i]);
    }
    r
}

/// One contributor's round over the uncommon ledger, from the secret
/// scalars `(gamma, delta)`: the gamma and delta commitments are raised to
/// the scalars, while each entry of the query vectors is raised to the
/// matching scalar's field inverse.
pub fn mpc_uncommon_paramters_generator(
    storage: &UnCommonParamterInStorage,
    scalars: (u64, u64),
) -> (r: UnCommonParamter)
    requires
        storage@.wf(),
        scalars.0 != 0,
        scalars.1 != 0,
    ensures
        r@.gamma == spec_pair_applied(storage@.gamma_g1, storage@.gamma_g2, 1, 1, scalars.0 as nat),
        r@.delta == spec_pair_applied(storage@.delta_g1, storage@.delta_g2, 1, 1, scalars.1 as nat),
        r@.ic.len() == storage@.kin_g1.len(),
        r@.l.len() == storage@.kout_g1.len(),
        r@.h.len() == storage@.h_g1.len(),
        forall|i: int|
            0 <= i < storage@.kin_g1.len() ==> #[trigger] spec_pair_inverted(
                r@.ic[i],
                storage@.kin_g1[i],
                storage@.kin_g2[i],
                1,
                1,
                scalars.0 as nat,
            ),
        forall|i: int|
            0 <= i < storage@.kout_g1.len() ==> #[trigger] spec_pair_inverted(
                r@.l[i],
                storage@.kout_g1[i],
                storage@.kout_g2[i],
                1,
                1,
                scalars.1 as nat,
            ),
        forall|i: int|
            0 <= i < storage@.h_g1.len() ==> #[trigger] spec_pair_inverted(
                r@.h[i],
                storage@.h_g1[i],
                storage@.h_g2[i],
                1,
                1,
                scalars.1 as nat,
            ),
{
    let (gamma, delta) = scalars;
    let g1 = G1Point::generator();
    let g2 = G2Point::generator();
    proof {
        vstd::arithmetic::div_mod::lemma_small_mod(gamma as nat, fr_order());
        vstd::arithmetic::div_mod::lemma_small_mod(delta as nat, fr_order());
        assert forall|i: nat| #[trigger] spec_tau_coeff(gamma as nat, 1, i) == gamma as nat by {
            lemma_pow_nat_one(i);
        }
        assert forall|i: nat| #[trigger] spec_tau_coeff(delta as nat, 1, i) == delta as nat by {
            lemma_pow_nat_one(i);
        }
    }
    let new_delta = make_new_paramter(&delta, &storage.delta_g1, &storage.delta_g2, &g1, &g2, false);
    let new_gamma = make_new_paramter(&gamma, &storage.gamma_g1, &storage.gamma_g2, &g1, &g2, false);
    let new_kin = make_new_tau_paramter(&gamma, &1, &storage.kin_g1, &storage.kin_g2, true);
    let new_kout = make_new_tau_paramter(&delta, &1, &storage.kout_g1, &storage.kout_g2, true);
    let new_h = make_new_tau_paramter(&delta, &1, &storage.h_g1, &storage.h_g2, true);
    proof {
        assert forall|i: int| 0 <= i < storage@.kin_g1.len() implies #[trigger] spec_pair_inverted(
            new_kin@[i],
            storage@.kin_g1[i],
            storage@.kin_g2[i],
            1,
            1,
            gamma as nat,
        ) by {
            assert (spec_pair_inverted(
                new_kin@[i],
                storage.kin_g1@[i]@,
                storage.kin_g2@[i]@,
                1,
                1,
                spec_tau_coeff(gamma as nat, 1, i as nat),
            ));
            assert (spec_tau_coeff(gamma as nat, 1, i as nat) == gamma as nat);
            assert (storage@.kin_g1[i] == storage.kin_g1@[i]@);
            assert (storage@.kin_g2[i] == storage.kin_g2@[i]@);
        }
        assert forall|i: int| 0 <= i < storage@.kout_g1.len() implies #[trigger] spec_pair_inverted(
            new_kout@[i],
            storage@.kout_g1[i],
            storage@.kout_g2[i],
            1,
            1,
            delta as nat,
        ) by {
            assert (spec_pair_inverted(
                new_kout@[i],
                storage.kout_g1@[i]@,
                storage.kout_g2@[i]@,
                1,
                1,
                spec_tau_coeff(delta as nat, 1, i as nat),
            ));
            assert (spec_tau_coeff(delta as nat, 1, i as nat) == delta as nat);
            assert (storage@.kout_g1[i] == storage.kout_g1@[i]@);
            assert (storage@.kout_g2[i] == storage.kout_g2@[i]@);
        }
        assert forall|i: int| 0 <= i < storage@.h_g1.len() implies #[trigger] spec_pair_inverted(
            new_h@[i],
            storage@.h_g1[i],
            storage@.h_g2[i],
            1,
            1,
            delta as nat,
        ) by {
            assert (spec_pair_inverted(
                new_h@[i],
                storage.h_g1@[i]@,
                storage.h_g2@[i]@,
                1,
                1,
                spec_tau_coeff(delta as nat, 1, i as nat),
            ));
            assert (spec_tau_coeff(delta as nat, 1, i as nat) == delta as nat);
            assert (storage@.h_g1[i] == storage.h_g1@[i]@);
            assert (storage@.h_g2[i] == storage.h_g2@[i]@);
        }
    }
    UnCommonParamter { gamma: new_gamma, delta: new_delta, ic: new_kin, l: new_kout, h: new_h }
}

/// What `verify_uncommon_paramter` accepts: the gamma and delta pairs must
/// verify against the ledger, and every inverse-scaled query entry, paired
/// against the new gamma or delta commitment, must reproduce the original
/// derived commitment.
pub open spec fn spec_uncommon_accept(
    m: CommonMatrixView,
    s: UnStorageView,
    n: UnCommonView,
) -> bool {
    let q = fr_order();
    &&& spec_vnp_ok(n.delta, s.delta_g1)
    &&& spec_vnp_ok(n.gamma, s.gamma_g1)
    &&& forall|i: int|
        0 <= i < s.kin_g1.len() ==> ((#[trigger] n.ic[i].g1_result) * n.gamma.g2_result) % q
            == m.matrixed_g1_front[i] % q
    &&& forall|i: int|
        0 <= i < s.kout_g1.len() ==> ((#[trigger] n.l[i].g1_result) * n.delta.g2_result) % q
            == m.matrixed_g1_back[i] % q
    &&& forall|i: int|
        0 <= i < s.h_g1.len() ==> ((#[trigger] n.h[i].g1_result) * n.delta.g2_result) % q
            == m.matrixed_h_g1[i] % q
}

/// Verifies one uncommon-ceremony contribution against the current ledger
/// and the fixed derived commitments; on success returns the advanced
/// ledger, otherwise the contribution is rejected and the ledger is left
/// as it was.
#[verifier::loop_isolation(false)]
pub fn verify_uncommon_paramter(
    common_paramter_matrix: &CommonParamterMatrix,
    storage: &UnCommonParamterInStorage,
    new_paramter: &UnCommonParamter,
) -> (r: Result<UnCommonParamterInStorage, Error>)
    requires
        storage@.wf(),
        storage@.lens_match(common_paramter_matrix@),
        new_paramter@.ic.len() == storage@.kin_g1.len(),
        new_paramter@.l.len() == storage@.kout_g1.len(),
        new_paramter@.h.len() == storage@.h_g1.len(),
    ensures
        r is Ok <==> spec_uncommon_accept(common_paramter_matrix@, storage@, new_paramter@),
        r is Ok ==> r->Ok_0@ == spec_un_to_storage(new_paramter@),
        r is Err ==> r->Err_0 == Error::RejectedContribution,
{
    let g2gen = G2Point::generator();
    let result_delta = verify_new_paramter(&new_paramter.delta, &storage.delta_g1, &storage.delta_g2);
    let result_gamma = verify_new_paramter(&new_paramter.gamma, &storage.gamma_g1, &storage.gamma_g2);
    let mut result_kin = true;
    let kin_len = storage.kin_g1.len();
    for i in 0..kin_len
        invariant
            result_kin == (forall|j: int|
                0 <= j < i ==> ((#[trigger] new_paramter@.ic[j].g1_result)
                    * new_paramter@.gamma.g2_result) % fr_order()
                    == common_paramter_matrix@.matrixed_g1_front[j] % fr_order()),
    {
        let lhs = pairing(&new_paramter.ic.list[i].g1_result, &new_paramter.gamma.g2_result);
        let rhs = pairing(&common_paramter_matrix.matrixed_g1_front[i], &g2gen);
        let c = gt_eq(&lhs, &rhs);
        proof {
            let q = fr_order();
            lemma_mod_twice(
                (new_paramter@.ic[i as int].g1_result * new_paramter@.gamma.g2_result) as int,
                q as int,
            );
            lemma_mod_twice(common_paramter_matrix@.matrixed_g1_front[i as int] as int, q as int);
        }
        result_kin = result_kin && c;
    }
    let mut result_kout = true;
    let kout_len = storage.kout_g1.len();
    for i in 0..kout_len
        invariant
            result_kout == (forall|j: int|
                0 <= j < i ==> ((#[trigger] new_paramter@.l[j].g1_result)
                    * new_paramter@.delta.g2_result) % fr_order()
                    == common_paramter_matrix@.matrixed_g1_back[j] % fr_order()),
    {
        let lhs = pairing(&new_paramter.l.list[i].g1_result, &new_paramter.delta.g2_result);
        let rhs = pairing(&common_paramter_matrix.matrixed_g1_back[i], &g2gen);
        let c = gt_eq(&lhs, &rhs);
        proof {
            let q = fr_order();
            lemma_mod_twice(
                (new_paramter@.l[i as int].g1_result * new_paramter@.delta.g2_result) as int,
                q as int,
            );
            lemma_mod_twice(common_paramter_matrix@.matrixed_g1_back[i as int] as int, q as int);
        }
        result_kout = result_kout && c;
    }
    let mut result_h = true;
    let h_len = storage.h_g1.len();
    for i in 0..h_len
        invariant
            result_h == (forall|j: int|
                0 <= j < i ==> ((#[trigger] new_paramter@.h[j].g1_result)
                    * new_paramter@.delta.g2_result) % fr_order()
                    == common_paramter_matrix@.matrixed_h_g1[j] % fr_order()),
    {
        let lhs = pairing(&new_paramter.h.list[i].g1_result, &new_paramter.delta.g2_result);
        let rhs = pairing(&common_paramter_matrix.matrixed_h_g1[i], &g2gen);
        let c = gt_eq(&lhs, &rhs);
        proof {
            let q = fr_order();
            lemma_mod_twice(
                (new_paramter@.h[i as int].g1_result * new_paramter@.delta.g2_result) as int,
                q as int,
            );
            lemma_mod_twice(common_paramter_matrix@.matrixed_h_g1[i as int] as int, q as int);
        }
        result_h = result_h && c;
    }
    if result_kin && result_kout && result_h && result_delta && result_gamma {
        Ok(new_paramter.to_storage_format())
    } else {
        Err(Error::RejectedContribution)
    }
}

/// An inverse-scaled entry, multiplied by the grown scalar product, still
/// reproduces the original commitment.
proof fn lemma_uncommon_step(newv: nat, g: nat, kin: nat, p: nat, front: nat)
    requires
        (newv * g) % fr_order() == kin % fr_order(),
        (kin * p) % fr_order() == front % fr_order(),
    ensures
        (newv * (p * g)) % fr_order() == front % fr_order(),
{
    let q = fr_order();
    assert (newv * (p * g) == (newv * g) * p) by (nonlinear_arith);
    lemma_mul_mod_fold(newv * g, p, q);
    lemma_mul_mod_fold(kin, p, q);
}

/// An inverse-scaled entry, paired against the advanced running
/// commitment, reproduces the original commitment.
proof fn lemma_uncommon_check(newv: nat, g: nat, kin: nat, p: nat, front: nat)
    requires
        (newv * g) % fr_order() == kin % fr_order(),
        (kin * p) % fr_order() == front % fr_order(),
    ensures
        (newv * (((p % fr_order()) * g) % fr_order())) % fr_order() == front % fr_order(),
{
    let q = fr_order();
    let pm = p % q;
    lemma_mul_mod_fold(newv, pm * g, q);
    assert (newv * (pm * g) == (newv * g) * pm) by (nonlinear_arith);
    lemma_mul_mod_fold(newv * g, pm, q);
    lemma_mod_twice(p as int, q as int);
    lemma_mul_mod_fold(newv * g, p, q);
    lemma_mul_mod_fold(kin, p, q);
}

/// The round an honest contributor computes from the uncommon ledger is
/// accepted by `verify_uncommon_paramter`, and the ledger it produces
/// carries the grown scalar products.
proof fn lemma_honest_uncommon_round(
    m: CommonMatrixView,
    s: UnStorageView,
    n: UnCommonView,
    g: nat,
    d: nat,
    pg: nat,
    pd: nat,
)
    requires
        s.wf(),
        s.lens_match(m),
        s.gamma_g1 == pg % fr_order(),
        s.gamma_g2 == pg % fr_order(),
        s.delta_g1 == pd % fr_order(),
        s.delta_g2 == pd % fr_order(),
        forall|i: int|
            0 <= i < s.kin_g1.len() ==> ((#[trigger] s.kin_g1[i]) * pg) % fr_order()
                == m.matrixed_g1_front[i] % fr_order(),
        forall|i: int|
            0 <= i < s.kin_g2.len() ==> ((#[trigger] s.kin_g2[i]) * pg) % fr_order()
                == m.matrixed_g2_front[i] % fr_order(),
        forall|i: int|
            0 <= i < s.kout_g1.len() ==> ((#[trigger] s.kout_g1[i]) * pd) % fr_order()
                == m.matrixed_g1_back[i] % fr_order(),
        forall|i: int|
            0 <= i < s.kout_g2.len() ==> ((#[trigger] s.kout_g2[i]) * pd) % fr_order()
                == m.matrixed_g2_back[i] % fr_order(),
        forall|i: int|
            0 <= i < s.h_g1.len() ==> ((#[trigger] s.h_g1[i]) * pd) % fr_order()
                == m.matrixed_h_g1[i] % fr_order(),
        forall|i: int|
            0 <= i < s.h_g2.len() ==> ((#[trigger] s.h_g2[i]) * pd) % fr_order()
                == m.matrixed_h_g2[i] % fr_order(),
        n.gamma == spec_pair_applied(s.gamma_g1, s.gamma_g2, 1, 1, g),
        n.delta == spec_pair_applied(s.delta_g1, s.delta_g2, 1, 1, d),
        n.ic.len() == s.kin_g1.len(),
        n.l.len() == s.kout_g1.len(),
        n.h.len() == s.h_g1.len(),
        forall|i: int|
            0 <= i < s.kin_g1.len() ==> #[trigger] spec_pair_inverted(
                n.ic[i],
                s.kin_g1[i],
                s.kin_g2[i],
                1,
                1,
                g,
            ),
        forall|i: int|
            0 <= i < s.kout_g1.len() ==> #[trigger] spec_pair_inverted(
                n.l[i],
                s.kout_g1[i],
                s.kout_g2[i],
                1,
                1,
                d,
            ),
        forall|i: int|
            0 <= i < s.h_g1.len() ==> #[trigger] spec_pair_inverted(
                n.h[i],
                s.h_g1[i],
                s.h_g2[i],
                1,
                1,
                d,
            ),
    ensures
        spec_uncommon_accept(m, s, n),
        spec_un_to_storage(n).wf(),
        spec_un_to_storage(n).lens_match(m),
        spec_un_to_storage(n).gamma_g1 == (pg * g) % fr_order(),
        spec_un_to_storage(n).gamma_g2 == (pg * g) % fr_order(),
        spec_un_to_storage(n).delta_g1 == (pd * d) % fr_order(),
        spec_un_to_storage(n).delta_g2 == (pd * d) % fr_order(),
        forall|i: int|
            0 <= i < s.kin_g1.len() ==> ((#[trigger] spec_un_to_storage(n).kin_g1[i]) * (pg * g))
                % fr_order() == m.matrixed_g1_front[i] % fr_order(),
        forall|i: int|
            0 <= i < s.kin_g2.len() ==> ((#[trigger] spec_un_to_storage(n).kin_g2[i]) * (pg * g))
                % fr_order() == m.matrixed_g2_front[i] % fr_order(),
        forall|i: int|
            0 <= i < s.kout_g1.len() ==> ((#[trigger] spec_un_to_storage(n).kout_g1[i]) * (pd * d))
                % fr_order() == m.matrixed_g1_back[i] % fr_order(),
        forall|i: int|
            0 <= i < s.kout_g2.len() ==> ((#[trigger] spec_un_to_storage(n).kout_g2[i]) * (pd * d))
                % fr_order() == m.matrixed_g2_back[i] % fr_order(),
        forall|i: int|
            0 <= i < s.h_g1.len() ==> ((#[trigger] spec_un_to_storage(n).h_g1[i]) * (pd * d))
                % fr_order() == m.matrixed_h_g1[i] % fr_order(),
        forall|i: int|
            0 <= i < s.h_g2.len() ==> ((#[trigger] spec_un_to_storage(n).h_g2[i]) * (pd * d))
                % fr_order() == m.matrixed_h_g2[i] % fr_order(),
        forall|i: int|
            0 <= i < s.kin_g1.len() ==> (#[trigger] spec_un_to_storage(n).kin_g1[i]) < fr_order()
                && spec_un_to_storage(n).kin_g2[i] < fr_order(),
        forall|i: int|
            0 <= i < s.kout_g1.len() ==> (#[trigger] spec_un_to_storage(n).kout_g1[i]) < fr_order()
                && spec_un_to_storage(n).kout_g2[i] < fr_order(),
        forall|i: int|
            0 <= i < s.h_g1.len() ==> (#[trigger] spec_un_to_storage(n).h_g1[i]) < fr_order()
                && spec_un_to_storage(n).h_g2[i] < fr_order(),
{
    let q = fr_order();
    let o = spec_un_to_storage(n);
    lemma_honest_vnp(s.gamma_g1, s.gamma_g2, g);
    lemma_honest_vnp(s.delta_g1, s.delta_g2, d);
    assert forall|i: int| 0 <= i < s.kin_g1.len() implies ((#[trigger] n.ic[i].g1_result)
        * n.gamma.g2_result) % q == m.matrixed_g1_front[i] % q by {
        assert (spec_pair_inverted(n.ic[i], s.kin_g1[i], s.kin_g2[i], 1, 1, g));
        lemma_uncommon_check(n.ic[i].g1_result, g, s.kin_g1[i], pg, m.matrixed_g1_front[i]);
    }
    assert forall|i: int| 0 <= i < s.kout_g1.len() implies ((#[trigger] n.l[i].g1_result)
        * n.delta.g2_result) % q == m.matrixed_g1_back[i] % q by {
        assert (spec_pair_inverted(n.l[i], s.kout_g1[i], s.kout_g2[i], 1, 1, d));
        lemma_uncommon_check(n.l[i].g1_result, d, s.kout_g1[i], pd, m.matrixed_g1_back[i]);
    }
    assert forall|i: int| 0 <= i < s.h_g1.len() implies ((#[trigger] n.h[i].g1_result)
        * n.delta.g2_result) % q == m.matrixed_h_g1[i] % q by {
        assert (spec_pair_inverted(n.h[i], s.h_g1[i], s.h_g2[i], 1, 1, d));
        lemma_uncommon_check(n.h[i].g1_result, d, s.h_g1[i], pd, m.matrixed_h_g1[i]);
    }
    lemma_mul_mod_fold(pg, g, q);
    lemma_mul_mod_fold(pd, d, q);
    assert forall|i: int| 0 <= i < s.kin_g1.len() implies ((#[trigger] o.kin_g1[i]) * (pg * g)) % q
        == m.matrixed_g1_front[i] % q && o.kin_g1[i] < q by {
        assert (o.kin_g1[i] == n.ic[i].g1_result);
        assert (spec_pair_inverted(n.ic[i], s.kin_g1[i], s.kin_g2[i], 1, 1, g));
        lemma_uncommon_step(n.ic[i].g1_result, g, s.kin_g1[i], pg, m.matrixed_g1_front[i]);
    }
    assert forall|i: int| 0 <= i < s.kin_g2.len() implies ((#[trigger] o.kin_g2[i]) * (pg * g)) % q
        == m.matrixed_g2_front[i] % q && o.kin_g2[i] < q by {
        assert (o.kin_g2[i] == n.ic[i].g2_result);
        assert (spec_pair_inverted(n.ic[i], s.kin_g1[i], s.kin_g2[i], 1, 1, g));
        lemma_uncommon_step(n.ic[i].g2_result, g, s.kin_g2[i], pg, m.matrixed_g2_front[i]);
    }
    assert forall|i: int| 0 <= i < s.kout_g1.len() implies ((#[trigger] o.kout_g1[i]) * (pd * d))
        % q == m.matrixed_g1_back[i] % q && o.kout_g1[i] < q by {
        assert (o.kout_g1[i] == n.l[i].g1_result);
        assert (spec_pair_inverted(n.l[i], s.kout_g1[i], s.kout_g2[i], 1, 1, d));
        lemma_uncommon_step(n.l[i].g1_result, d, s.kout_g1[i], pd, m.matrixed_g1_back[i]);
    }
    assert forall|i: int| 0 <= i < s.kout_g2.len() implies ((#[trigger] o.kout_g2[i]) * (pd * d))
        % q == m.matrixed_g2_back[i] % q && o.kout_g2[i] < q by {
        assert (o.kout_g2[i] == n.l[i].g2_result);
        assert (spec_pair_inverted(n.l[i], s.kout_g1[i], s.kout_g2[i], 1, 1, d));
        lemma_uncommon_step(n.l[i].g2_result, d, s.kout_g2[i], pd, m.matrixed_g2_back[i]);
    }
    assert forall|i: int| 0 <= i < s.h_g1.len() implies ((#[trigger] o.h_g1[i]) * (pd * d)) % q
        == m.matrixed_h_g1[i] % q && o.h_g1[i] < q by {
        assert (o.h_g1[i] == n.h[i].g1_result);
        assert (spec_pair_inverted(n.h[i], s.h_g1[i], s.h_g2[i], 1, 1, d));
        lemma_uncommon_step(n.h[i].g1_result, d, s.h_g1[i], pd, m.matrixed_h_g1[i]);
    }
    assert forall|i: int| 0 <= i < s.h_g2.len() implies ((#[trigger] o.h_g2[i]) * (pd * d)) % q
        == m.matrixed_h_g2[i] % q && o.h_g2[i] < q by {
        assert (o.h_g2[i] == n.h[i].g2_result);
        assert (spec_pair_inverted(n.h[i], s.h_g1[i], s.h_g2[i], 1, 1, d));
        lemma_uncommon_step(n.h[i].g2_result, d, s.h_g2[i], pd, m.matrixed_h_g2[i]);
    }
}

/// The product of the rounds' gamma scalars.
pub open spec fn prod_gamma(rounds: Seq<(u64, u64)>) -> nat
    decreases rounds.len(),
{
    if rounds.len() == 0 {
        1
    } else {
        prod_gamma(rounds.drop_last()) * (rounds.last().0 as nat)
    }
}

/// The product of the rounds' delta scalars.
pub open spec fn prod_delta(rounds: Seq<(u64, u64)>) -> nat
    decreases rounds.len(),
{
    if rounds.len() == 0 {
        1
    } else {
        prod_delta(rounds.drop_last()) * (rounds.last().1 as nat)
    }
}

/// Runs a full uncommon ceremony over the derived commitments: one honest
/// contributor round per entry of `rounds`, each verified before it
/// replaces the ledger.  Succeeds exactly when no round offers a zero
/// scalar; the final query vectors are the derived commitments divided by
/// the running gamma and delta products.
#[verifier::loop_isolation(false)]
pub fn run_uncommon_ceremony(
    common_paramter_matrix: &CommonParamterMatrix,
    rounds: &Vec<(u64, u64)>,
) -> (r: Result<UnCommonParamterInStorage, Error>)
    requires
        common_paramter_matrix@.wf(),
    ensures
        r is Ok <==> (forall|j: int|
            0 <= j < rounds@.len() ==> (#[trigger] rounds@[j]).0 != 0 && rounds@[j].1 != 0),
        r is Err ==> r->Err_0 == Error::DegenerateScalar,
        r is Ok ==> ({
            let m = common_paramter_matrix@;
            let o = r->Ok_0@;
            let q = fr_order();
            &&& o.wf()
            &&& o.lens_match(m)
            &&& o.gamma_g1 == prod_gamma(rounds@) % q
            &&& o.gamma_g2 == prod_gamma(rounds@) % q
            &&& o.delta_g1 == prod_delta(rounds@) % q
            &&& o.delta_g2 == prod_delta(rounds@) % q
            &&& forall|i: int|
                0 <= i < o.kin_g1.len() ==> ((#[trigger] o.kin_g1[i]) * prod_gamma(rounds@)) % q
                    == m.matrixed_g1_front[i] % q
            &&& forall|i: int|
                0 <= i < o.kin_g2.len() ==> ((#[trigger] o.kin_g2[i]) * prod_gamma(rounds@)) % q
                    == m.matrixed_g2_front[i] % q
            &&& forall|i: int|
                0 <= i < o.kout_g1.len() ==> ((#[trigger] o.kout_g1[i]) * prod_delta(rounds@)) % q
                    == m.matrixed_g1_back[i] % q
            &&& forall|i: int|
                0 <= i < o.kout_g2.len() ==> ((#[trigger] o.kout_g2[i]) * prod_delta(rounds@)) % q
                    == m.matrixed_g2_back[i] % q
            &&& forall|i: int|
                0 <= i < o.h_g1.len() ==> ((#[trigger] o.h_g1[i]) * prod_delta(rounds@)) % q
                    == m.matrixed_h_g1[i] % q
            &&& forall|i: int|
                0 <= i < o.h_g2.len() ==> ((#[trigger] o.h_g2[i]) * prod_delta(rounds@)) % q
                    == m.matrixed_h_g2[i] % q
        }),
{
    let mut storage = initial_uncommon_paramters(common_paramter_matrix);
    let n = rounds.len();
    proof {
        vstd::arithmetic::div_mod::lemma_small_mod(1, fr_order());
    }
    for j in 0..n
        invariant
            storage@.wf(),
            storage@.lens_match(common_paramter_matrix@),
            forall|k: int| 0 <= k < j ==> (#[trigger] rounds@[k]).0 != 0 && rounds@[k].1 != 0,
            storage@.gamma_g1 == prod_gamma(rounds@.take(j as int)) % fr_order(),
            storage@.gamma_g2 == prod_gamma(rounds@.take(j as int)) % fr_order(),
            storage@.delta_g1 == prod_delta(rounds@.take(j as int)) % fr_order(),
            storage@.delta_g2 == prod_delta(rounds@.take(j as int)) % fr_order(),
            forall|i: int|
                0 <= i < storage@.kin_g1.len() ==> ((#[trigger] storage@.kin_g1[i]) * prod_gamma(
                    rounds@.take(j as int),
                )) % fr_order() == common_paramter_matrix@.matrixed_g1_front[i] % fr_order(),
            forall|i: int|
                0 <= i < storage@.kin_g2.len() ==> ((#[trigger] storage@.kin_g2[i]) * prod_gamma(
                    rounds@.take(j as int),
                )) % fr_order() == common_paramter_matrix@.matrixed_g2_front[i] % fr_order(),
            forall|i: int|
                0 <= i < storage@.kout_g1.len() ==> ((#[trigger] storage@.kout_g1[i]) * prod_delta(
                    rounds@.take(j as int),
                )) % fr_order() == common_paramter_matrix@.matrixed_g1_back[i] % fr_order(),
            forall|i: int|
                0 <= i < storage@.kout_g2.len() ==> ((#[trigger] storage@.kout_g2[i]) * prod_delta(
                    rounds@.take(j as int),
                )) % fr_order() == common_paramter_matrix@.matrixed_g2_back[i] % fr_order(),
            forall|i: int|
                0 <= i < storage@.h_g1.len() ==> ((#[trigger] storage@.h_g1[i]) * prod_delta(
                    rounds@.take(j as int),
                )) % fr_order() == common_paramter_matrix@.matrixed_h_g1[i] % fr_order(),
            forall|i: int|
                0 <= i < storage@.h_g2.len() ==> ((#[trigger] storage@.h_g2[i]) * prod_delta(
                    rounds@.take(j as int),
                )) % fr_order() == common_paramter_matrix@.matrixed_h_g2[i] % fr_order(),
    {
        let (g, d) = rounds[j];
        if g == 0 || d == 0 {
            return Err(Error::DegenerateScalar);
        }
        let contribution = mpc_uncommon_paramters_generator(&storage, (g, d));
        proof {
            lemma_honest_uncommon_round(
                common_paramter_matrix@,
                storage@,
                contribution@,
                g as nat,
                d as nat,
                prod_gamma(rounds@.take(j as int)),
                prod_delta(rounds@.take(j as int)),
            );
            assert (rounds@.take(j + 1).drop_last() =~= rounds@.take(j as int));
            assert (rounds@.take(j + 1).last() == rounds@[j as int]);
        }
        storage =
        match verify_uncommon_paramter(common_paramter_matrix, &storage, &contribution) {
            Ok(s) => s,
            Err(_) => unreached(),
        };
    }
    proof {
        assert (rounds@.take(n as int) =~= rounds@);
    }
    Ok(storage)
}

/// The production three-round uncommon ceremony with the fixed scalars
/// (1,2), (2,3), (3,4): the final query vectors are the derived
/// commitments divided by 6 (gamma) and 24 (delta).
pub fn mpc_uncommon_paramters_custom_all(common_paramter_matrix: &CommonParamterMatrix) -> (r:
    UnCommonParamterInStorage)
    requires
        common_paramter_matrix@.wf(),
    ensures
        r@.wf(),
        r@.lens_match(common_paramter_matrix@),
        r@.gamma_g1 == 6,
        r@.gamma_g2 == 6,
        r@.delta_g1 == 24,
        r@.delta_g2 == 24,
        forall|i: int|
            0 <= i < r@.kin_g1.len() ==> ((#[trigger] r@.kin_g1[i]) * 6) % fr_order()
                == common_paramter_matrix@.matrixed_g1_front[i] % fr_order(),
        forall|i: int|
            0 <= i < r@.kout_g1.len() ==> ((#[trigger] r@.kout_g1[i]) * 24) % fr_order()
                == common_paramter_matrix@.matrixed_g1_back[i] % fr_order(),
        forall|i: int|
            0 <= i < r@.h_g1.len() ==> ((#[trigger] r@.h_g1[i]) * 24) % fr_order()
                == common_paramter_matrix@.matrixed_h_g1[i] % fr_order(),
{
    let mut rounds: Vec<(u64, u64)> = Vec::new();
    rounds.push((1, 2));
    rounds.push((2, 3));
    rounds.push((3, 4));
    let result = run_uncommon_ceremony(common_paramter_matrix, &rounds);
    proof {
        let s3 = rounds@;
        assert (s3.len() == 3);
        assert (s3[0] == (1u64, 2u64));
        assert (s3[1] == (2u64, 3u64));
        assert (s3[2] == (3u64, 4u64));
        assert forall|j: int| 0 <= j < s3.len() implies (#[trigger] s3[j]).0 != 0 && s3[j].1
            != 0 by {}
        let s2 = s3.drop_last();
        let s1 = s2.drop_last();
        let s0 = s1.drop_last();
        assert (s3.last() == (3u64, 4u64));
        assert (s2.len() == 2 && s2.last() == s3[1]);
        assert (s1.len() == 1 && s1.last() == s3[0]);
        assert (s0.len() == 0);
        assert (prod_gamma(s0) == 1 && prod_delta(s0) == 1);
        assert (prod_gamma(s1) == 1 && prod_delta(s1) == 2);
        assert (prod_gamma(s2) == 2 && prod_delta(s2) == 6);
        assert (prod_gamma(s3) == 6);
        assert (prod_delta(s3) == 24);
        vstd::arithmetic::div_mod::lemma_small_mod(6, fr_order());
        vstd::arithmetic::div_mod::lemma_small_mod(24, fr_order());
    }
    let out = match result {
        Ok(s) => s,
        Err(_) => unreached(),
    };
    out
}

/// Rejection soundness: a contribution whose proof points encode different
/// scalars in the two groups is never accepted by the chain verifier,
/// whatever its other fields or the previous rounds hold.
pub proof fn lemma_rejects_inconsistent_mine(n: PairView, prev: Seq<PairView>)
    requires
        n.g1_mine % fr_order() != n.g2_mine % fr_order(),
    ensures
        !spec_verify_mpc_g1(n, prev),
{
}

} // verus!
