use vstd::prelude::*;
use rayon::iter::IntoParallelRefIterator;
use rayon::iter::ParallelIterator;
use super::r1cs::ConstraintVec;
use super::r1cs::Constraints;
use super::r1cs::R1CS;

verus! {

/// The variable of the target constraint system that a wire becomes.
#[derive(Clone, Copy, Debug, PartialEq, Eq, Structural)]
pub enum VariableHandle {
    /// The public variable with this index; index 0 is the constant one.
    Instance(usize),
    /// The private variable with this index.
    Witness(usize),
}

/// A linear combination over variables: pairs of a coefficient and a variable.
pub type Terms<F> = Vec<(F, VariableHandle)>;

/// One constraint `A * B = C` over variables.
pub type Triple<F> = (Terms<F>, Terms<F>, Terms<F>);

/// A constraint over variables, as sequences.
pub type TripleView<F> = (Seq<(F, VariableHandle)>, Seq<(F, VariableHandle)>, Seq<(F, VariableHandle)>);

/// The variable that `wire` becomes: a public one below `num_inputs`, else the
/// private one at the wire's offset into the private section.
pub open spec fn handle_of(wire: usize, num_inputs: usize) -> VariableHandle {
    if wire < num_inputs {
        VariableHandle::Instance(wire)
    } else {
        VariableHandle::Witness((wire - num_inputs) as usize)
    }
}

/// A linear combination over wires, term by term over variables.
pub open spec fn translated_terms<F>(terms: Seq<(usize, F)>, num_inputs: usize) -> Seq<(F, VariableHandle)> {
    Seq::new(terms.len(), |k: int| (terms[k].1, handle_of(terms[k].0, num_inputs)))
}

/// A constraint over wires, as a constraint over variables.
pub open spec fn translated_constraint<F>(c: Constraints<F>, num_inputs: usize) -> TripleView<F> {
    (
        translated_terms(c.0@, num_inputs),
        translated_terms(c.1@, num_inputs),
        translated_terms(c.2@, num_inputs),
    )
}

/// The three linear combinations of `t` as sequences.
pub open spec fn triple_view<F>(t: Triple<F>) -> TripleView<F> {
    (t.0@, t.1@, t.2@)
}

/// The constraints of `ts` as sequences, in their order.
pub open spec fn triples_view<F>(ts: Seq<Triple<F>>) -> Seq<TripleView<F>> {
    Seq::new(ts.len(), |i: int| triple_view(ts[i]))
}

/// The constraints `cs` over variables, in their order.
pub open spec fn translated<F>(cs: Seq<Constraints<F>>, num_inputs: usize) -> Seq<TripleView<F>> {
    Seq::new(cs.len(), |i: int| translated_constraint(cs[i], num_inputs))
}

/// `handle` names a variable that exists once `num_inputs` public and
/// `num_aux` private variables do.
pub open spec fn handle_allocated(handle: VariableHandle, num_inputs: int, num_aux: int) -> bool {
    match handle {
        VariableHandle::Instance(i) => i < num_inputs,
        VariableHandle::Witness(j) => j < num_aux,
    }
}

/// Every term of `terms` names a variable that exists.
pub open spec fn terms_allocated<F>(terms: Seq<(F, VariableHandle)>, num_inputs: int, num_aux: int) -> bool {
    forall|k: int| 0 <= k < terms.len() ==> handle_allocated((#[trigger] terms[k]).1, num_inputs, num_aux)
}

/// Every term of the constraint `t` names a variable that exists.
pub open spec fn triple_allocated<F>(t: TripleView<F>, num_inputs: int, num_aux: int) -> bool {
    &&& terms_allocated(t.0, num_inputs, num_aux)
    &&& terms_allocated(t.1, num_inputs, num_aux)
    &&& terms_allocated(t.2, num_inputs, num_aux)
}

/// The variable that `index` becomes.
pub fn make_index(index: usize, num_inputs: usize) -> (handle: VariableHandle)
    ensures
        handle == handle_of(index, num_inputs),
{
    if index < num_inputs {
        VariableHandle::Instance(index)
    } else {
        VariableHandle::Witness(index - num_inputs)
    }
}

/// Translates a linear combination over wires into one over variables, term
/// by term and in the same order.
pub fn make_lc<F: Copy>(lc_data: &ConstraintVec<F>, num_inputs: usize) -> (lc: Terms<F>)
    ensures
        lc@ == translated_terms(lc_data@, num_inputs),
{
    let mut lc: Terms<F> = Vec::new();
    let mut k: usize = 0;
    while k < lc_data.len()
        invariant
            k <= lc_data@.len(),
            lc@ == translated_terms(lc_data@.take(k as int), num_inputs),
        decreases lc_data@.len() - k,
    {
        let (index, coeff) = lc_data[k];
        lc.push((coeff, make_index(index, num_inputs)));
        k = k + 1;
        assert(lc@ =~= translated_terms(lc_data@.take(k as int), num_inputs));
    }
    assert(lc_data@.take(k as int) =~= lc_data@);
    lc
}

/// Translates one constraint over wires into one over variables.
pub fn translate_constraint<F: Copy>(c: &Constraints<F>, num_inputs: usize) -> (t: Triple<F>)
    ensures
        triple_view(t) == translated_constraint(*c, num_inputs),
{
    (make_lc(&c.0, num_inputs), make_lc(&c.1, num_inputs), make_lc(&c.2, num_inputs))
}

/// Maps `translate_constraint` over `constraints` on rayon's thread pool, with
/// `par_iter`, `map` and `collect`. Collecting an indexed parallel iterator
/// into a vector keeps the order of the items, so the result holds the
/// translation of each constraint at the constraint's own position.
#[verifier::external_body]
fn par_translate<F: Copy + Send + Sync>(constraints: &Vec<Constraints<F>>, num_inputs: usize) -> (triples: Vec<Triple<F>>)
    ensures
        triples_view(triples@) == translated(constraints@, num_inputs),
{
    constraints.par_iter().map(|c| translate_constraint(c, num_inputs)).collect()
}

impl<F> R1CS<F> {
    /// The constraints of the system over variables, in their order.
    pub open spec fn translation(&self) -> Seq<TripleView<F>> {
        translated(self.constraints@, self.num_inputs)
    }
}

impl<F: Copy> R1CS<F> {
    /// Translates the constraints one after the other.
    pub fn translate_sequential(&self) -> (triples: Vec<Triple<F>>)
        ensures
            triples_view(triples@) == self.translation(),
    {
        let mut triples: Vec<Triple<F>> = Vec::new();
        let mut i: usize = 0;
        while i < self.constraints.len()
            invariant
                i <= self.constraints@.len(),
                triples@.len() == i,
                forall|j: int| 0 <= j < i ==>
                    triple_view(#[trigger] triples@[j]) == translated_constraint(self.constraints@[j], self.num_inputs),
            decreases self.constraints@.len() - i,
        {
            let t = translate_constraint(&self.constraints[i], self.num_inputs);
            triples.push(t);
            i = i + 1;
        }
        assert(triples_view(triples@) =~= self.translation());
        triples
    }
}

impl<F: Copy + Send + Sync> R1CS<F> {
    /// Translates the constraints independently of one another, on as many
    /// threads as the pool has.
    pub fn translate_parallel(&self) -> (triples: Vec<Triple<F>>)
        ensures
            triples_view(triples@) == self.translation(),
    {
        par_translate(&self.constraints, self.num_inputs)
    }

    /// Translates the constraints, in parallel or one after the other: the
    /// result is the same translation, in the order of the constraints.
    pub fn translate(&self, parallel: bool) -> (triples: Vec<Triple<F>>)
        ensures
            triples_view(triples@) == self.translation(),
    {
        if parallel {
            self.translate_parallel()
        } else {
            self.translate_sequential()
        }
    }
}

/// Where every constraint names existing wires, every translated constraint
/// names variables that exist once all wires are allocated.
pub proof fn lemma_translation_allocated<F>(r1cs: R1CS<F>, i: int)
    requires
        r1cs.constraints_in_range(),
        0 <= i < r1cs.constraints@.len(),
    ensures
        triple_allocated(r1cs.translation()[i], r1cs.num_inputs as int, r1cs.num_aux as int),
{
    let c = r1cs.constraints@[i];
    let n = r1cs.num_inputs;
    assert(super::r1cs::constraint_in_range(c, r1cs.num_wires()));
    let t = r1cs.translation()[i];
    assert forall|k: int| 0 <= k < t.0.len() implies handle_allocated((#[trigger] t.0[k]).1, n as int, r1cs.num_aux as int) by {
        assert(c.0@[k].0 < r1cs.num_wires());
    }
    assert forall|k: int| 0 <= k < t.1.len() implies handle_allocated((#[trigger] t.1[k]).1, n as int, r1cs.num_aux as int) by {
        assert(c.1@[k].0 < r1cs.num_wires());
    }
    assert forall|k: int| 0 <= k < t.2.len() implies handle_allocated((#[trigger] t.2[k]).1, n as int, r1cs.num_aux as int) by {
        assert(c.2@[k].0 < r1cs.num_wires());
    }
}

/// Systems that hold the same counts and constraints translate alike.
pub proof fn lemma_view_decides_translation<F>(a: R1CS<F>, b: R1CS<F>)
    requires
        a@.without_mapping() == b@.without_mapping(),
    ensures
        a.translation() == b.translation(),
        a.constraints@.len() == b.constraints@.len(),
{
    assert(a.constraints_view().len() == b.constraints_view().len());
    assert forall|i: int| 0 <= i < a.constraints@.len() implies translated_constraint(a.constraints@[i], a.num_inputs)
        == translated_constraint(b.constraints@[i], b.num_inputs) by {
        assert(a.constraints_view()[i] == b.constraints_view()[i]);
    }
    assert(a.translation() =~= b.translation());
}

} // verus!
