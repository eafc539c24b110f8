//! Synthesizes declared bilinear constraints into the three sparse QAP
//! matrices over the circuit's variables, split into the public-input and
//! auxiliary variable spaces, and drives the full parameter-generation
//! pipeline over them.

use vstd::prelude::*;
use crate::curve::Fr;
use crate::mpc::{
    matrix_view, spec_matrix_in_bounds, spec_common_after, spec_matrix, lemma_common_after_ok,
    lemma_common_chain, prod_tau, mpc_common_paramters_custom_all,
    mpc_uncommon_paramters_custom_all, CommonParamterInStorage, CommonParamterMatrix,
    UnCommonParamterInStorage,
};
use crate::modarith::pow_nat;
use crate::curve::fr_order;
use crate::Error;

verus! {

/// A circuit variable index: a public input or an auxiliary (witness)
/// variable.
#[derive(Clone, Copy, Debug, PartialEq, Eq, Structural)]
pub enum Index {
    Input(usize),
    Aux(usize),
}

/// A handle to an allocated circuit variable.
#[derive(Clone, Copy, Debug, PartialEq, Eq, Structural)]
pub struct Variable(pub Index);

/// The assembly a circuit is synthesized into: variable counters and the
/// six sparse matrices, one per QAP matrix and variable space.  An inner
/// entry `(coefficient, constraint)` in row `v` of a matrix records that
/// the variable `v` occurs with that coefficient in that constraint.
pub struct KeypairAssembly {
    pub num_inputs: usize,
    pub num_aux: usize,
    pub num_constraints: usize,
    pub at_inputs: Vec<Vec<(Fr, usize)>>,
    pub bt_inputs: Vec<Vec<(Fr, usize)>>,
    pub ct_inputs: Vec<Vec<(Fr, usize)>>,
    pub at_aux: Vec<Vec<(Fr, usize)>>,
    pub bt_aux: Vec<Vec<(Fr, usize)>>,
    pub ct_aux: Vec<Vec<(Fr, usize)>>,
}

/// The shape of an assembly: counters and the matrices' coefficient
/// values.
#[verifier::ext_equal]
pub ghost struct AssemblyView {
    pub num_inputs: nat,
    pub num_aux: nat,
    pub num_constraints: nat,
    pub at_inputs: Seq<Seq<(nat, nat)>>,
    pub bt_inputs: Seq<Seq<(nat, nat)>>,
    pub ct_inputs: Seq<Seq<(nat, nat)>>,
    pub at_aux: Seq<Seq<(nat, nat)>>,
    pub bt_aux: Seq<Seq<(nat, nat)>>,
    pub ct_aux: Seq<Seq<(nat, nat)>>,
}

impl View for KeypairAssembly {
    type V = AssemblyView;

    open spec fn view(&self) -> AssemblyView {
        AssemblyView {
            num_inputs: self.num_inputs as nat,
            num_aux: self.num_aux as nat,
            num_constraints: self.num_constraints as nat,
            at_inputs: matrix_view(self.at_inputs@),
            bt_inputs: matrix_view(self.bt_inputs@),
            ct_inputs: matrix_view(self.ct_inputs@),
            at_aux: matrix_view(self.at_aux@),
            bt_aux: matrix_view(self.bt_aux@),
            ct_aux: matrix_view(self.ct_aux@),
        }
    }
}

impl AssemblyView {
    /// Each variable space holds one matrix row per variable, and every
    /// recorded constraint index is a constraint that exists.
    pub open spec fn wf(self) -> bool {
        &&& self.at_inputs.len() == self.num_inputs
        &&& self.bt_inputs.len() == self.num_inputs
        &&& self.ct_inputs.len() == self.num_inputs
        &&& self.at_aux.len() == self.num_aux
        &&& self.bt_aux.len() == self.num_aux
        &&& self.ct_aux.len() == self.num_aux
        &&& spec_matrix_in_bounds(self.at_inputs, self.num_constraints)
        &&& spec_matrix_in_bounds(self.bt_inputs, self.num_constraints)
        &&& spec_matrix_in_bounds(self.ct_inputs, self.num_constraints)
        &&& spec_matrix_in_bounds(self.at_aux, self.num_constraints)
        &&& spec_matrix_in_bounds(self.bt_aux, self.num_constraints)
        &&& spec_matrix_in_bounds(self.ct_aux, self.num_constraints)
    }
}

/// The values of a list of linear-combination terms.
pub open spec fn terms_view(s: Seq<(Fr, Variable)>) -> Seq<(nat, Index)> {
    s.map_values(|t: (Fr, Variable)| (t.0@, t.1.0))
}

/// Every term of the list names a variable that has been allocated.
pub open spec fn spec_terms_ok(terms: Seq<(nat, Index)>, ni: nat, na: nat) -> bool {
    forall|j: int|
        0 <= j < terms.len() ==> match (#[trigger] terms[j]).1 {
            Index::Input(id) => id < ni,
            Index::Aux(id) => id < na,
        }
}

/// The two matrices after a list of terms lands in constraint `row`: each
/// term appends `(coefficient, row)` to its variable's row in the matrix
/// of the variable's space.
pub open spec fn spec_eval_terms(
    inputs: Seq<Seq<(nat, nat)>>,
    aux: Seq<Seq<(nat, nat)>>,
    terms: Seq<(nat, Index)>,
    row: nat,
) -> (Seq<Seq<(nat, nat)>>, Seq<Seq<(nat, nat)>>)
    decreases terms.len(),
{
    if terms.len() == 0 {
        (inputs, aux)
    } else {
        let prev = spec_eval_terms(inputs, aux, terms.drop_last(), row);
        let t = terms.last();
        match t.1 {
            Index::Input(id) => (
                prev.0.update(id as int, prev.0[id as int].push((t.0, row))),
                prev.1,
            ),
            Index::Aux(id) => (
                prev.0,
                prev.1.update(id as int, prev.1[id as int].push((t.0, row))),
            ),
        }
    }
}

/// Whether every term of a list names an allocated variable.
#[verifier::loop_isolation(false)]
fn check_terms(l: &Vec<(Fr, Variable)>, num_inputs: usize, num_aux: usize) -> (r: bool)
    ensures
        r == spec_terms_ok(terms_view(l@), num_inputs as nat, num_aux as nat),
{
    let mut ok = true;
    for j in 0..l.len()
        invariant
            ok == (forall|k: int|
                0 <= k < j ==> match (#[trigger] terms_view(l@)[k]).1 {
                    Index::Input(id) => id < num_inputs as nat,
                    Index::Aux(id) => id < num_aux as nat,
                }),
    {
        let valid = match l[j].1.0 {
            Index::Input(id) => id < num_inputs,
            Index::Aux(id) => id < num_aux,
        };
        proof {
            assert (terms_view(l@)[j as int] == (l@[j as int].0@, l@[j as int].1.0));
        }
        ok = ok && valid;
    }
    ok
}

/// Lands a list of terms in constraint `row`, pushing each coefficient
/// into its variable's row.
#[verifier::loop_isolation(false)]
fn eval_terms(
    inputs: &mut Vec<Vec<(Fr, usize)>>,
    aux: &mut Vec<Vec<(Fr, usize)>>,
    l: &Vec<(Fr, Variable)>,
    this_constraint: usize,
)
    requires
        spec_terms_ok(terms_view(l@), old(inputs)@.len() as nat, old(aux)@.len() as nat),
    ensures
        ({
            let out = spec_eval_terms(
                matrix_view(old(inputs)@),
                matrix_view(old(aux)@),
                terms_view(l@),
                this_constraint as nat,
            );
            matrix_view(final(inputs)@) == out.0 && matrix_view(final(aux)@) == out.1
        }),
        final(inputs)@.len() == old(inputs)@.len(),
        final(aux)@.len() == old(aux)@.len(),
{
    for j in 0..l.len()
        invariant
            inputs@.len() == old(inputs)@.len(),
            aux@.len() == old(aux)@.len(),
            ({
                let out = spec_eval_terms(
                    matrix_view(old(inputs)@),
                    matrix_view(old(aux)@),
                    terms_view(l@).take(j as int),
                    this_constraint as nat,
                );
                matrix_view(inputs@) == out.0 && matrix_view(aux@) == out.1
            }),
    {
        let coeff = l[j].0;
        proof {
            assert (terms_view(l@)[j as int] == (l@[j as int].0@, l@[j as int].1.0));
            assert (terms_view(l@).take(j + 1).drop_last() =~= terms_view(l@).take(j as int));
            assert (terms_view(l@).take(j + 1).last() == terms_view(l@)[j as int]);
        }
        match l[j].1.0 {
            Index::Input(id) => {
                let mut row = Vec::new();
                std::mem::swap(&mut row, &mut inputs[id]);
                row.push((coeff, this_constraint));
                std::mem::swap(&mut row, &mut inputs[id]);
                proof {
                    let out = spec_eval_terms(
                        matrix_view(old(inputs)@),
                        matrix_view(old(aux)@),
                        terms_view(l@).take(j + 1),
                        this_constraint as nat,
                    );
                    assert (matrix_view(inputs@) =~~= out.0);
                    assert (matrix_view(aux@) =~~= out.1);
                }
            },
            Index::Aux(id) => {
                let mut row = Vec::new();
                std::mem::swap(&mut row, &mut aux[id]);
                row.push((coeff, this_constraint));
                std::mem::swap(&mut row, &mut aux[id]);
                proof {
                    let out = spec_eval_terms(
                        matrix_view(old(inputs)@),
                        matrix_view(old(aux)@),
                        terms_view(l@).take(j + 1),
                        this_constraint as nat,
                    );
                    assert (matrix_view(inputs@) =~~= out.0);
                    assert (matrix_view(aux@) =~~= out.1);
                }
            },
        }
    }
    proof {
        assert (terms_view(l@).take(l@.len() as int) =~= terms_view(l@));
    }
}

impl KeypairAssembly {
    /// An assembly with no variables and no constraints.
    pub fn new() -> (r: KeypairAssembly)
        ensures
            r@.num_inputs == 0,
            r@.num_aux == 0,
            r@.num_constraints == 0,
            r@.wf(),
            r@.at_inputs =~= Seq::<Seq<(nat, nat)>>::empty(),
            r@.bt_inputs =~= Seq::<Seq<(nat, nat)>>::empty(),
            r@.ct_inputs =~= Seq::<Seq<(nat, nat)>>::empty(),
            r@.at_aux =~= Seq::<Seq<(nat, nat)>>::empty(),
            r@.bt_aux =~= Seq::<Seq<(nat, nat)>>::empty(),
            r@.ct_aux =~= Seq::<Seq<(nat, nat)>>::empty(),
    {
        KeypairAssembly {
            num_inputs: 0,
            num_aux: 0,
            num_constraints: 0,
            at_inputs: Vec::new(),
            bt_inputs: Vec::new(),
            ct_inputs: Vec::new(),
            at_aux: Vec::new(),
            bt_aux: Vec::new(),
            ct_aux: Vec::new(),
        }
    }

    /// Allocates a fresh auxiliary variable: appends an empty row to each
    /// auxiliary matrix and hands back the stable index.
    pub fn allocate_aux(&mut self) -> (r: Variable)
        requires
            old(self)@.num_aux < usize::MAX,
        ensures
            r == Variable(Index::Aux(old(self).num_aux)),
            final(self)@.num_aux == old(self)@.num_aux + 1,
            final(self)@.num_inputs == old(self)@.num_inputs,
            final(self)@.num_constraints == old(self)@.num_constraints,
            final(self)@.at_aux == old(self)@.at_aux.push(Seq::<(nat, nat)>::empty()),
            final(self)@.bt_aux == old(self)@.bt_aux.push(Seq::<(nat, nat)>::empty()),
            final(self)@.ct_aux == old(self)@.ct_aux.push(Seq::<(nat, nat)>::empty()),
            final(self)@.at_inputs == old(self)@.at_inputs,
            final(self)@.bt_inputs == old(self)@.bt_inputs,
            final(self)@.ct_inputs == old(self)@.ct_inputs,
            old(self)@.wf() ==> final(self)@.wf(),
    {
        let index = self.num_aux;
        self.num_aux = self.num_aux + 1;
        self.at_aux.push(Vec::new());
        self.bt_aux.push(Vec::new());
        self.ct_aux.push(Vec::new());
        proof {
            assert (self@.at_aux =~~= old(self)@.at_aux.push(Seq::<(nat, nat)>::empty()));
            assert (self@.bt_aux =~~= old(self)@.bt_aux.push(Seq::<(nat, nat)>::empty()));
            assert (self@.ct_aux =~~= old(self)@.ct_aux.push(Seq::<(nat, nat)>::empty()));
            assert (self@.at_inputs =~~= old(self)@.at_inputs);
            assert (self@.bt_inputs =~~= old(self)@.bt_inputs);
            assert (self@.ct_inputs =~~= old(self)@.ct_inputs);
        }
        Variable(Index::Aux(index))
    }

    /// Allocates a fresh public-input variable: appends an empty row to
    /// each input matrix and hands back the stable index.
    pub fn allocate_input(&mut self) -> (r: Variable)
        requires
            old(self)@.num_inputs < usize::MAX,
        ensures
            r == Variable(Index::Input(old(self).num_inputs)),
            final(self)@.num_inputs == old(self)@.num_inputs + 1,
            final(self)@.num_aux == old(self)@.num_aux,
            final(self)@.num_constraints == old(self)@.num_constraints,
            final(self)@.at_inputs == old(self)@.at_inputs.push(Seq::<(nat, nat)>::empty()),
            final(self)@.bt_inputs == old(self)@.bt_inputs.push(Seq::<(nat, nat)>::empty()),
            final(self)@.ct_inputs == old(self)@.ct_inputs.push(Seq::<(nat, nat)>::empty()),
            final(self)@.at_aux == old(self)@.at_aux,
            final(self)@.bt_aux == old(self)@.bt_aux,
            final(self)@.ct_aux == old(self)@.ct_aux,
            old(self)@.wf() ==> final(self)@.wf(),
    {
        let index = self.num_inputs;
        self.num_inputs = self.num_inputs + 1;
        self.at_inputs.push(Vec::new());
        self.bt_inputs.push(Vec::new());
        self.ct_inputs.push(Vec::new());
        proof {
            assert (self@.at_inputs =~~= old(self)@.at_inputs.push(Seq::<(nat, nat)>::empty()));
            assert (self@.bt_inputs =~~= old(self)@.bt_inputs.push(Seq::<(nat, nat)>::empty()));
            assert (self@.ct_inputs =~~= old(self)@.ct_inputs.push(Seq::<(nat, nat)>::empty()));
            assert (self@.at_aux =~~= old(self)@.at_aux);
            assert (self@.bt_aux =~~= old(self)@.bt_aux);
            assert (self@.ct_aux =~~= old(self)@.ct_aux);
        }
        Variable(Index::Input(index))
    }
}


/// Evaluating a term list keeps the matrices' shape: row counts are
/// unchanged, and when every recorded constraint index was below a bound
/// that also covers the new row, it still is.
proof fn lemma_eval_terms_props(
    inputs: Seq<Seq<(nat, nat)>>,
    aux: Seq<Seq<(nat, nat)>>,
    terms: Seq<(nat, Index)>,
    row: nat,
    bound: nat,
)
    requires
        spec_terms_ok(terms, inputs.len(), aux.len()),
        spec_matrix_in_bounds(inputs, bound),
        spec_matrix_in_bounds(aux, bound),
        row < bound,
    ensures
        spec_eval_terms(inputs, aux, terms, row).0.len() == inputs.len(),
        spec_eval_terms(inputs, aux, terms, row).1.len() == aux.len(),
        spec_matrix_in_bounds(spec_eval_terms(inputs, aux, terms, row).0, bound),
        spec_matrix_in_bounds(spec_eval_terms(inputs, aux, terms, row).1, bound),
    decreases terms.len(),
{
    if terms.len() > 0 {
        assert forall|j: int| 0 <= j < terms.drop_last().len() implies match (#[trigger] terms.drop_last()[j]).1 {
            Index::Input(id) => id < inputs.len(),
            Index::Aux(id) => id < aux.len(),
        } by {
            assert (terms.drop_last()[j] == terms[j]);
        }
        lemma_eval_terms_props(inputs, aux, terms.drop_last(), row, bound);
        let prev = spec_eval_terms(inputs, aux, terms.drop_last(), row);
        let out = spec_eval_terms(inputs, aux, terms, row);
        assert (terms[terms.len() - 1] == terms.last());
        match terms.last().1 {
            Index::Input(id) => {
                assert forall|i: int, j: int|
                    0 <= i < out.0.len() && 0 <= j < out.0[i].len() implies (#[trigger] out.0[i][j]).1
                        < bound by {
                    if i == id {
                        if j < prev.0[i].len() {
                            assert (out.0[i][j] == prev.0[i][j]);
                        } else {
                            assert (out.0[i][j] == (terms.last().0, row));
                        }
                    } else {
                        assert (out.0[i][j] == prev.0[i][j]);
                    }
                }
            },
            Index::Aux(id) => {
                assert forall|i: int, j: int|
                    0 <= i < out.1.len() && 0 <= j < out.1[i].len() implies (#[trigger] out.1[i][j]).1
                        < bound by {
                    if i == id {
                        if j < prev.1[i].len() {
                            assert (out.1[i][j] == prev.1[i][j]);
                        } else {
                            assert (out.1[i][j] == (terms.last().0, row));
                        }
                    } else {
                        assert (out.1[i][j] == prev.1[i][j]);
                    }
                }
            },
        }
    }
}

/// The assembly after one constraint `a * b = c` lands: each term list is
/// pushed into its matrices at the current constraint row, and the row
/// counter advances.
pub open spec fn spec_enforce(
    v: AssemblyView,
    a: Seq<(nat, Index)>,
    b: Seq<(nat, Index)>,
    c: Seq<(nat, Index)>,
) -> AssemblyView {
    let ra = spec_eval_terms(v.at_inputs, v.at_aux, a, v.num_constraints);
    let rb = spec_eval_terms(v.bt_inputs, v.bt_aux, b, v.num_constraints);
    let rc = spec_eval_terms(v.ct_inputs, v.ct_aux, c, v.num_constraints);
    AssemblyView {
        num_inputs: v.num_inputs,
        num_aux: v.num_aux,
        num_constraints: v.num_constraints + 1,
        at_inputs: ra.0,
        at_aux: ra.1,
        bt_inputs: rb.0,
        bt_aux: rb.1,
        ct_inputs: rc.0,
        ct_aux: rc.1,
    }
}

impl KeypairAssembly {
    /// Appends one bilinear constraint `a * b = c`: every term of the
    /// three linear combinations is recorded against the new constraint
    /// row.  A term naming a variable that was never allocated is the
    /// missing-witness failure, and leaves the assembly unchanged.
    pub fn enforce(
        &mut self,
        a: &Vec<(Fr, Variable)>,
        b: &Vec<(Fr, Variable)>,
        c: &Vec<(Fr, Variable)>,
    ) -> (r: Result<(), Error>)
        requires
            old(self)@.wf(),
            old(self)@.num_constraints < usize::MAX,
        ensures
            r is Ok <==> (spec_terms_ok(terms_view(a@), old(self)@.num_inputs, old(self)@.num_aux)
                && spec_terms_ok(terms_view(b@), old(self)@.num_inputs, old(self)@.num_aux)
                && spec_terms_ok(terms_view(c@), old(self)@.num_inputs, old(self)@.num_aux)),
            r is Ok ==> final(self)@ == spec_enforce(
                old(self)@,
                terms_view(a@),
                terms_view(b@),
                terms_view(c@),
            ),
            r is Err ==> final(self)@ == old(self)@ && r->Err_0 == Error::MissingWitnessShape,
            final(self)@.wf(),
    {
        let ok_a = check_terms(a, self.num_inputs, self.num_aux);
        let ok_b = check_terms(b, self.num_inputs, self.num_aux);
        let ok_c = check_terms(c, self.num_inputs, self.num_aux);
        if !(ok_a && ok_b && ok_c) {
            return Err(Error::MissingWitnessShape);
        }
        let row = self.num_constraints;
        eval_terms(&mut self.at_inputs, &mut self.at_aux, a, row);
        eval_terms(&mut self.bt_inputs, &mut self.bt_aux, b, row);
        eval_terms(&mut self.ct_inputs, &mut self.ct_aux, c, row);
        self.num_constraints = self.num_constraints + 1;
        proof {
            lemma_eval_terms_props(
                old(self)@.at_inputs,
                old(self)@.at_aux,
                terms_view(a@),
                row as nat,
                self@.num_constraints,
            );
            lemma_eval_terms_props(
                old(self)@.bt_inputs,
                old(self)@.bt_aux,
                terms_view(b@),
                row as nat,
                self@.num_constraints,
            );
            lemma_eval_terms_props(
                old(self)@.ct_inputs,
                old(self)@.ct_aux,
                terms_view(c@),
                row as nat,
                self@.num_constraints,
            );
            assert (self@ =~= spec_enforce(
                old(self)@,
                terms_view(a@),
                terms_view(b@),
                terms_view(c@),
            ));
        }
        Ok(())
    }
}


/// The assembly after the input-density pass: every public input gains
/// one trivial constraint `input * 0 = 0`, so the IC query stays fully
/// dense.
pub open spec fn spec_density(v: AssemblyView) -> AssemblyView {
    AssemblyView {
        num_inputs: v.num_inputs,
        num_aux: v.num_aux,
        num_constraints: v.num_constraints + v.num_inputs,
        at_inputs: Seq::new(
            v.num_inputs,
            |k: int| v.at_inputs[k].push((1nat, (v.num_constraints + k) as nat)),
        ),
        bt_inputs: v.bt_inputs,
        ct_inputs: v.ct_inputs,
        at_aux: v.at_aux,
        bt_aux: v.bt_aux,
        ct_aux: v.ct_aux,
    }
}

impl KeypairAssembly {
    /// Appends, for every declared public input, the trivial constraint
    /// `input * 0 = 0`, which guarantees that every input variable
    /// participates in at least one constraint.
    #[verifier::loop_isolation(false)]
    pub fn enforce_input_density(&mut self)
        requires
            old(self)@.wf(),
            old(self)@.num_constraints + old(self)@.num_inputs <= usize::MAX,
        ensures
            final(self)@ == spec_density(old(self)@),
            final(self)@.wf(),
    {
        let one = Fr::from_u64(1);
        let ni = self.num_inputs;
        for i in 0..ni
            invariant
                one@ == 1,
                ni == old(self)@.num_inputs,
                self@.num_inputs == old(self)@.num_inputs,
                self@.num_aux == old(self)@.num_aux,
                self@.num_constraints == old(self)@.num_constraints + i,
                self@.bt_inputs == old(self)@.bt_inputs,
                self@.ct_inputs == old(self)@.ct_inputs,
                self@.at_aux == old(self)@.at_aux,
                self@.bt_aux == old(self)@.bt_aux,
                self@.ct_aux == old(self)@.ct_aux,
                self@.at_inputs.len() == ni,
                forall|k: int|
                    0 <= k < i ==> (#[trigger] self@.at_inputs[k]) == old(self)@.at_inputs[k].push(
                        (1nat, (old(self)@.num_constraints + k) as nat),
                    ),
                forall|k: int| i <= k < ni ==> (#[trigger] self@.at_inputs[k]) == old(self)@.at_inputs[k],
                self@.wf(),
        {
            let mut a: Vec<(Fr, Variable)> = Vec::new();
            a.push((one, Variable(Index::Input(i))));
            let bvec: Vec<(Fr, Variable)> = Vec::new();
            let cvec: Vec<(Fr, Variable)> = Vec::new();
            let ghost pre = self@;
            proof {
                assert (terms_view(a@) =~= seq![(1nat, Index::Input(i))]);
                assert (terms_view(bvec@) =~= Seq::<(nat, Index)>::empty());
                assert (terms_view(cvec@) =~= Seq::<(nat, Index)>::empty());
            }
            let res = self.enforce(&a, &bvec, &cvec);
            let _ = match res {
                Ok(u) => u,
                Err(_) => unreached(),
            };
            proof {
                let ts = seq![(1nat, Index::Input(i))];
                assert (ts.drop_last() =~= Seq::<(nat, Index)>::empty());
                assert (spec_eval_terms(pre.at_inputs, pre.at_aux, ts.drop_last(), pre.num_constraints)
                    == (pre.at_inputs, pre.at_aux));
                assert (ts.last() == (1nat, Index::Input(i)));
                assert (self@.at_inputs == pre.at_inputs.update(
                    i as int,
                    pre.at_inputs[i as int].push((1nat, pre.num_constraints)),
                ));
                assert forall|k: int| 0 <= k < i + 1 implies (#[trigger] self@.at_inputs[k])
                    == old(self)@.at_inputs[k].push(
                    (1nat, (old(self)@.num_constraints + k) as nat),
                ) by {
                    if k < i {
                        assert (self@.at_inputs[k] == pre.at_inputs[k]);
                    }
                }
            }
        }
        proof {
            assert (self@.at_inputs =~= spec_density(old(self)@).at_inputs);
            assert (self@ =~= spec_density(old(self)@));
        }
    }
}


/// The round scalars of the production common ceremony.
pub open spec fn spec_fixed_common_rounds() -> Seq<(u64, u64, u64)> {
    seq![(1u64, 2u64, 1u64), (2u64, 3u64, 1u64), (3u64, 4u64, 2u64)]
}

/// Whether the constraint system, after the input-density pass, fits the
/// degree-8 production ledger and its evaluation layout: the variables fit
/// the ledger, the constraints fit the vanishing-quotient window, and
/// every recorded constraint index stays inside the committed range it is
/// evaluated against.
pub open spec fn spec_sizes_fit(d: AssemblyView) -> bool {
    &&& d.num_aux + d.num_inputs <= 8
    &&& 2 * d.num_constraints <= 8
    &&& d.num_aux <= d.num_inputs
    &&& spec_matrix_in_bounds(d.bt_aux, d.num_aux)
    &&& spec_matrix_in_bounds(d.at_aux, d.num_inputs)
    &&& spec_matrix_in_bounds(d.ct_aux, 8)
}

/// Whether every recorded constraint index of a matrix is below the bound.
#[verifier::loop_isolation(false)]
fn check_matrix_bounds(m: &Vec<Vec<(Fr, usize)>>, bound: usize) -> (r: bool)
    ensures
        r == spec_matrix_in_bounds(matrix_view(m@), bound as nat),
{
    let mut ok = true;
    let rows = m.len();
    for i in 0..rows
        invariant
            rows == m@.len(),
            ok == (forall|a: int, b: int|
                0 <= a < i && 0 <= b < matrix_view(m@)[a].len() ==> (#[trigger] matrix_view(
                    m@,
                )[a][b]).1 < bound as nat),
    {
        let row_len = m[i].len();
        for j in 0..row_len
            invariant
                rows == m@.len(),
                i < rows,
                row_len == m@[i as int]@.len(),
                ok == ((forall|a: int, b: int|
                    0 <= a < i && 0 <= b < matrix_view(m@)[a].len() ==> (#[trigger] matrix_view(
                        m@,
                    )[a][b]).1 < bound as nat) && (forall|b: int|
                    0 <= b < j ==> (#[trigger] matrix_view(m@)[i as int][b]).1 < bound as nat)),
        {
            let e = m[i][j];
            proof {
                assert (matrix_view(m@)[i as int][j as int] == (e.0@, e.1 as nat));
            }
            ok = ok && (e.1 < bound);
        }
    }
    ok
}

/// Runs the full parameter-generation pipeline over a synthesized
/// assembly: the input-density pass, the production common ceremony, the
/// QAP evaluation of the auxiliary matrices, and the production uncommon
/// ceremony.  Fails before any ceremony round if the system does not fit
/// the fixed degree-8 ledger.
pub fn generate_parameters_mpc(assembly: KeypairAssembly) -> (r: Result<
    (CommonParamterInStorage, CommonParamterMatrix, UnCommonParamterInStorage),
    Error,
>)
    requires
        assembly@.wf(),
        assembly@.num_constraints + assembly@.num_inputs <= usize::MAX,
    ensures
        r is Ok <==> spec_sizes_fit(spec_density(assembly@)),
        r is Err ==> r->Err_0 == Error::InsufficientTauDegree,
        r is Ok ==> ({
            let d = spec_density(assembly@);
            let cp = spec_common_after(8, spec_fixed_common_rounds());
            let m = spec_matrix(
                cp,
                d.at_aux,
                d.bt_aux,
                d.ct_aux,
                d.num_inputs,
                d.num_aux,
                d.num_constraints,
            );
            let q = fr_order();
            &&& r->Ok_0.0@ == cp
            &&& r->Ok_0.1@ == m
            &&& r->Ok_0.2@.gamma_g1 == 6
            &&& r->Ok_0.2@.delta_g1 == 24
            &&& forall|i: int|
                0 <= i < r->Ok_0.2@.kin_g1.len() ==> ((#[trigger] r->Ok_0.2@.kin_g1[i]) * 6) % q
                    == m.matrixed_g1_front[i] % q
            &&& forall|i: int|
                0 <= i < r->Ok_0.2@.kout_g1.len() ==> ((#[trigger] r->Ok_0.2@.kout_g1[i]) * 24) % q
                    == m.matrixed_g1_back[i] % q
            &&& forall|i: int|
                0 <= i < r->Ok_0.2@.h_g1.len() ==> ((#[trigger] r->Ok_0.2@.h_g1[i]) * 24) % q
                    == m.matrixed_h_g1[i] % q
        }),
{
    let mut assembly = assembly;
    assembly.enforce_input_density();
    let num_inputs = assembly.num_inputs;
    let num_aux = assembly.num_aux;
    let num_constraints = assembly.num_constraints;
    let bounds_ok = check_matrix_bounds(&assembly.bt_aux, num_aux) && check_matrix_bounds(
        &assembly.at_aux,
        num_inputs,
    ) && check_matrix_bounds(&assembly.ct_aux, 8);
    if !(num_aux <= 8 && num_inputs <= 8 - num_aux && num_constraints <= 4
        && num_aux <= num_inputs && bounds_ok) {
        return Err(Error::InsufficientTauDegree);
    }
    let cp = mpc_common_paramters_custom_all();
    proof {
        let rounds = spec_fixed_common_rounds();
        lemma_common_after_ok(8, rounds);
        lemma_common_chain(8, rounds);
        let s3 = rounds;
        let s2 = s3.drop_last();
        let s1 = s2.drop_last();
        let s0 = s1.drop_last();
        assert (s0.len() == 0);
        assert (s1.len() == 1 && s1.last() == (1u64, 2u64, 1u64));
        assert (s2.len() == 2 && s2.last() == (2u64, 3u64, 1u64));
        assert (s3.last() == (3u64, 4u64, 2u64));
        assert (prod_tau(s0) == 1);
        assert (prod_tau(s1) == 1);
        assert (prod_tau(s2) == 1);
        assert (prod_tau(s3) == 2);
        if num_constraints > 0 {
            assert (pow_nat(2, 0) == 1);
            assert (cp@.tau_g1[0] == pow_nat(prod_tau(s3), 0) % fr_order());
            vstd::arithmetic::div_mod::lemma_small_mod(1, fr_order());
            assert (cp@.tau_g1[0] % fr_order() == 1);
        }
    }
    proof {
        assert forall|i: int, j: int|
            0 <= i < assembly@.bt_aux.len() && 0 <= j < assembly@.bt_aux[i].len() implies (
        #[trigger] assembly@.bt_aux[i][j]).1 < num_aux as nat by {}
        assert forall|i: int, j: int|
            0 <= i < assembly@.at_aux.len() && 0 <= j < assembly@.at_aux[i].len() implies (
        #[trigger] assembly@.at_aux[i][j]).1 < num_inputs as nat by {}
        assert forall|i: int, j: int|
            0 <= i < assembly@.ct_aux.len() && 0 <= j < assembly@.ct_aux[i].len() implies (
        #[trigger] assembly@.ct_aux[i][j]).1 < cp@.degree() by {}
    }
    let cp_m = cp.matrix(
        &assembly.at_aux,
        &assembly.bt_aux,
        &assembly.ct_aux,
        num_inputs,
        num_aux,
        num_constraints,
    );
    let ucp = mpc_uncommon_paramters_custom_all(&cp_m);
    Ok((cp, cp_m, ucp))
}

} // verus!
