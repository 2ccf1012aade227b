use vstd::prelude::*;
use super::r1cs::lemma_view_decides_range;
use super::r1cs::R1CS;
use super::r1cs::R1CSView;

verus! {

/// A constraint system together with the witness that fills its wires, or with
/// none where only the system's structure is wanted.
#[derive(Clone, Debug)]
pub struct CircomCircuit<F> {
    /// The circuit's own copy of the constraint system.
    pub r1cs: R1CS<F>,
    /// One value per witness index, where the circuit is witnessed.
    pub witness: Option<Vec<F>>,
}

/// A circuit over sequences.
pub struct CircuitView<F> {
    /// The constraint system.
    pub r1cs: R1CSView<F>,
    /// The witness, where the circuit has one.
    pub witness: Option<Seq<F>>,
}

impl<F> View for CircomCircuit<F> {
    type V = CircuitView<F>;

    open spec fn view(&self) -> CircuitView<F> {
        CircuitView { r1cs: self.r1cs@, witness: self.witness_view() }
    }
}

/// The index into the witness at which `wire` stands under the table
/// `mapping`: the table's entry, or `wire` itself where there is no table.
pub open spec fn mapped_index(mapping: Option<Seq<usize>>, wire: int) -> int {
    match mapping {
        Some(m) => m[wire] as int,
        None => wire,
    }
}

/// The values of the public wires `1..num_inputs` in wire order, read from the
/// witness `w` through `mapping`. The constant-one wire 0 is left out.
pub open spec fn extract_public<F>(num_inputs: int, mapping: Option<Seq<usize>>, w: Seq<F>) -> Seq<F> {
    Seq::new((num_inputs - 1) as nat, |k: int| w[mapped_index(mapping, k + 1)])
}

/// The witness as the wires see it through the table `m`: at each wire the
/// value that the table points to.
pub open spec fn permuted<F>(w: Seq<F>, m: Seq<usize>) -> Seq<F> {
    Seq::new(m.len(), |wire: int| w[m[wire] as int])
}

/// The sequence that a vector holds, where there is a vector.
pub open spec fn values_of<F>(v: Option<Vec<F>>) -> Option<Seq<F>> {
    match v {
        Some(v) => Some(v@),
        None => None,
    }
}

/// Reading the public wires through a wire table is reading them directly from
/// the witness permuted by that table.
pub proof fn lemma_mapping_commutes_with_extraction<F>(num_inputs: int, m: Seq<usize>, w: Seq<F>)
    requires
        1 <= num_inputs <= m.len(),
    ensures
        extract_public(num_inputs, Some(m), w) == extract_public(num_inputs, None, permuted(w, m)),
{
    assert(extract_public(num_inputs, Some(m), w) =~= extract_public(num_inputs, None, permuted(w, m)));
}

/// The public inputs of a circuit with a wire table are those of the circuit
/// without table whose witness is the first one permuted by the table.
pub proof fn lemma_mapped_circuit_extracts_as_permuted<F>(mapped: CircomCircuit<F>, direct: CircomCircuit<F>)
    requires
        mapped.r1cs.wire_mapping is Some,
        mapped.witness is Some,
        1 <= mapped.r1cs.num_inputs <= mapped.r1cs.wire_mapping->0@.len(),
        direct.r1cs.num_inputs == mapped.r1cs.num_inputs,
        direct.r1cs.wire_mapping is None,
        direct.witness is Some,
        direct.witness->0@ == permuted(mapped.witness->0@, mapped.r1cs.wire_mapping->0@),
    ensures
        mapped.public_inputs() == direct.public_inputs(),
{
    lemma_mapping_commutes_with_extraction(
        mapped.r1cs.num_inputs as int,
        mapped.r1cs.wire_mapping->0@,
        mapped.witness->0@,
    );
}

impl<F> CircomCircuit<F> {
    /// The witness as a sequence, where the circuit has one.
    pub open spec fn witness_view(&self) -> Option<Seq<F>> {
        values_of(self.witness)
    }

    /// The value of `wire` can be read: the circuit has no witness, or the wire
    /// has an entry in the table, where there is one, and its witness index
    /// lies inside the witness.
    pub open spec fn wire_readable(&self, wire: int) -> bool {
        self.witness matches Some(w) ==> {
            &&& 0 <= wire
            &&& self.r1cs.wire_mapping matches Some(m) ==> wire < m@.len()
            &&& self.r1cs.witness_index(wire) < w@.len()
        }
    }

    /// The value assigned to `wire`: its witness value, or `placeholder` where
    /// the circuit has no witness.
    pub open spec fn wire_value(&self, wire: int, placeholder: F) -> F {
        match self.witness {
            Some(w) => w@[self.r1cs.witness_index(wire)],
            None => placeholder,
        }
    }

    /// Every public wire but the constant one can be read.
    pub open spec fn public_inputs_readable(&self) -> bool {
        self.witness is Some ==> {
            &&& self.r1cs.num_inputs >= 1
            &&& forall|wire: int| 1 <= wire < self.r1cs.num_inputs ==> self.wire_readable(wire)
        }
    }

    /// Every wire but the constant one can be read.
    pub open spec fn wires_readable(&self) -> bool {
        forall|wire: int| 1 <= wire < self.r1cs.num_wires() ==> self.wire_readable(wire)
    }

    /// The circuit can be turned into constraints: its system meets the
    /// invariant of the data model and every wire can be read.
    pub open spec fn wf(&self) -> bool {
        &&& self.r1cs.wf()
        &&& self.wires_readable()
    }

    /// The public inputs: nothing without a witness, else the witness values of
    /// the wires `1..num_inputs` in wire order.
    pub open spec fn public_inputs(&self) -> Option<Seq<F>> {
        match self.witness {
            Some(w) => Some(extract_public(self.r1cs.num_inputs as int, self.r1cs.mapping_view(), w@)),
            None => None,
        }
    }
}

impl<F: Copy> CircomCircuit<F> {
    /// Reads the value assigned to `wire`, or `placeholder` where the circuit
    /// has no witness.
    pub fn resolve_wire(&self, wire: usize, placeholder: F) -> (value: F)
        requires
            self.wire_readable(wire as int),
        ensures
            value == self.wire_value(wire as int, placeholder),
    {
        match &self.witness {
            Some(w) => w[self.r1cs.wire_to_witness(wire)],
            None => placeholder,
        }
    }

    /// The public inputs of the circuit: nothing where it has no witness, else
    /// the witness values of the wires `1..num_inputs`, the constant-one wire
    /// left out, in the order in which the public variables are allocated.
    pub fn get_public_inputs(&self) -> (inputs: Option<Vec<F>>)
        requires
            self.public_inputs_readable(),
        ensures
            values_of(inputs) == self.public_inputs(),
            self.witness is None ==> inputs is None,
            self.witness is Some ==> (inputs matches Some(v) && v@.len() == self.r1cs.num_inputs - 1),
    {
        match &self.witness {
            None => None,
            Some(w) => {
                let mut values: Vec<F> = Vec::new();
                let mut wire: usize = 1;
                while wire < self.r1cs.num_inputs
                    invariant
                        1 <= wire <= self.r1cs.num_inputs,
                        self.witness == Some(*w),
                        self.public_inputs_readable(),
                        values@ == extract_public(wire as int, self.r1cs.mapping_view(), w@),
                    decreases self.r1cs.num_inputs - wire,
                {
                    assert(self.wire_readable(wire as int));
                    values.push(w[self.r1cs.wire_to_witness(wire)]);
                    wire = wire + 1;
                    assert(values@ =~= extract_public(wire as int, self.r1cs.mapping_view(), w@));
                }
                Some(values)
            },
        }
    }
}

impl<F> CircomCircuit<F> {
    /// Tells whether every wire of `first..end` can be read.
    pub fn wires_readable_in(&self, first: usize, end: usize) -> (ok: bool)
        ensures
            ok == (forall|wire: int| first <= wire < end ==> self.wire_readable(wire)),
    {
        let w = match &self.witness {
            None => {
                return true;
            },
            Some(w) => w,
        };
        let mut wire: usize = first;
        while wire < end
            invariant
                first <= wire,
                self.witness == Some(*w),
                forall|x: int| first <= x < wire ==> self.wire_readable(x),
            decreases end - wire,
        {
            let readable = match &self.r1cs.wire_mapping {
                Some(m) => wire < m.len() && m[wire] < w.len(),
                None => wire < w.len(),
            };
            if !readable {
                assert(!self.wire_readable(wire as int));
                return false;
            }
            wire = wire + 1;
        }
        true
    }

    /// Tells whether the public inputs can be extracted.
    pub fn can_read_public_inputs(&self) -> (ok: bool)
        ensures
            ok == self.public_inputs_readable(),
    {
        match &self.witness {
            None => true,
            Some(_) => self.r1cs.num_inputs >= 1 && self.wires_readable_in(1, self.r1cs.num_inputs),
        }
    }

    /// Tells whether the circuit can be turned into constraints.
    pub fn is_well_formed(&self) -> (ok: bool)
        ensures
            ok == self.wf(),
    {
        self.r1cs.is_well_formed() && self.wires_readable_in(1, self.r1cs.num_inputs + self.r1cs.num_aux)
    }
}

/// A circuit that can be turned into constraints has readable public inputs.
pub proof fn lemma_wf_public_inputs_readable<F>(circuit: CircomCircuit<F>)
    requires
        circuit.wf(),
    ensures
        circuit.public_inputs_readable(),
{
}

/// Circuits that hold the same sequences read the same value from every wire,
/// have the same public inputs, and are well formed together.
pub proof fn lemma_view_decides_values<F>(a: CircomCircuit<F>, b: CircomCircuit<F>, placeholder: F)
    requires
        a@ == b@,
    ensures
        forall|wire: int| a.wire_value(wire, placeholder) == b.wire_value(wire, placeholder),
        forall|wire: int| a.wire_readable(wire) == b.wire_readable(wire),
        a.public_inputs() == b.public_inputs(),
        a.wf() == b.wf(),
{
    assert(a.r1cs.mapping_view() == b.r1cs.mapping_view());
    assert(a.witness_view() == b.witness_view());
    assert forall|wire: int| a.r1cs.witness_index(wire) == b.r1cs.witness_index(wire) by {}
    assert forall|wire: int| a.wire_value(wire, placeholder) == b.wire_value(wire, placeholder) by {
        assert(a.r1cs.witness_index(wire) == b.r1cs.witness_index(wire));
    }
    assert forall|wire: int| a.wire_readable(wire) == b.wire_readable(wire) by {
        assert(a.r1cs.witness_index(wire) == b.r1cs.witness_index(wire));
    }
    lemma_view_decides_range(a.r1cs, b.r1cs);
}

} // verus!
