use vstd::prelude::*;
use num_bigint::BigInt;
use super::circuit::lemma_view_decides_values;
use super::circuit::CircomCircuit;
use super::circuit::CircuitView;
use super::inputs::inputs_view;
use super::inputs::loaded;
use super::inputs::names_distinct;
use super::inputs::parse_inputs;
use super::inputs::push_value;
use super::inputs::pushed;
use super::inputs::InputError;
use super::inputs::Inputs;
use super::inputs::InputsView;
use super::r1cs::R1CS;
use super::r1cs::R1CSView;
use super::synthesis::script;
use super::translation::lemma_view_decides_translation;

verus! {

/// What a builder is configured with: the constraint system of the circuit
/// and whether the witness provider is to check its own result.
#[derive(Debug)]
pub struct CircomConfig<F> {
    /// The constraint system of the circuit.
    pub r1cs: R1CS<F>,
    /// Whether the witness provider is asked to check the witness it computed.
    pub sanity_check: bool,
}

/// Accumulates the named inputs of a circuit and makes circuits from them.
#[derive(Debug)]
pub struct CircomBuilder<F> {
    /// The configuration that the builder was made with.
    pub cfg: CircomConfig<F>,
    /// The inputs given so far: each name once, in the order in which the
    /// names first came, each with its values in the order in which they came.
    pub inputs: Inputs,
}

/// The circuit that a build makes of the system `r1cs` and the witness `w`:
/// the system without its wire table, carrying the witness.
pub open spec fn built<F>(r1cs: R1CSView<F>, w: Seq<F>) -> CircuitView<F> {
    CircuitView { r1cs: r1cs.without_mapping(), witness: Some(w) }
}

impl<F> CircomConfig<F> {
    /// A configuration for the system `r1cs` that does not ask the witness
    /// provider to check its result.
    pub fn new(r1cs: R1CS<F>) -> (cfg: Self)
        ensures
            cfg.r1cs == r1cs,
            !cfg.sanity_check,
    {
        CircomConfig { r1cs, sanity_check: false }
    }
}

impl<F> CircomBuilder<F> {
    /// The inputs given so far, over sequences.
    pub open spec fn inputs_view(&self) -> InputsView {
        inputs_view(self.inputs@)
    }

    /// A builder for `cfg` without any input.
    pub fn new(cfg: CircomConfig<F>) -> (builder: Self)
        ensures
            builder.cfg == cfg,
            builder.inputs_view() == Seq::<(Seq<char>, Seq<BigInt>)>::empty(),
    {
        let builder = CircomBuilder { cfg, inputs: Vec::new() };
        assert(builder.inputs_view() =~= Seq::<(Seq<char>, Seq<BigInt>)>::empty());
        builder
    }

    /// Gives the input `name` one more value: `val` as a big integer. A name
    /// that is pushed several times holds a vector of values.
    pub fn push_input<T: Into<BigInt>>(&mut self, name: &str, val: T)
        ensures
            final(self).cfg == old(self).cfg,
            exists|value: BigInt|
                {
                    &&& call_ensures(<T as Into<BigInt>>::into, (val,), value)
                    &&& #[trigger] pushed(old(self).inputs_view(), name@, value) == final(self).inputs_view()
                },
    {
        let value: BigInt = val.into();
        let ghost given = value;
        push_value(&mut self.inputs, name, value);
        assert(pushed(old(self).inputs_view(), name@, given) == self.inputs_view());
    }

    /// Gives the input `name` one more value.
    pub fn push_integer(&mut self, name: &str, value: BigInt)
        ensures
            final(self).cfg == old(self).cfg,
            final(self).inputs_view() == pushed(old(self).inputs_view(), name@, value),
    {
        push_value(&mut self.inputs, name, value);
    }

    /// Replaces all inputs by those of the input document `text`: a JSON
    /// object whose members are each a decimal integer written as a string,
    /// or a list of such strings. A document that is refused changes nothing.
    pub fn load_input_json(&mut self, text: &str) -> (r: Result<(), InputError>)
        ensures
            final(self).cfg == old(self).cfg,
            match r {
                Ok(_) => loaded(text@) == Ok::<InputsView, InputError>(final(self).inputs_view())
                    && names_distinct(final(self).inputs_view()),
                Err(e) => loaded(text@) == Err::<InputsView, InputError>(e) && final(self).inputs == old(
                    self,
                ).inputs,
            },
    {
        match parse_inputs(text) {
            Ok(entries) => {
                self.inputs = entries;
                Ok(())
            },
            Err(e) => Err(e),
        }
    }
}

impl<F> CircomBuilder<F> {
    /// `r` is what a build gives when the witness provider returned
    /// `outcome`: for a witness the circuit that carries it over the
    /// builder's system without wire table, for a failure that failure.
    pub open spec fn is_build_of<E>(self, outcome: Result<Vec<F>, E>, r: Result<CircomCircuit<F>, E>) -> bool {
        match outcome {
            Ok(w) => {
                &&& r matches Ok(circuit) && circuit.witness == Some(w) && circuit.r1cs.wire_mapping is None
                    && circuit@ == built(self.cfg.r1cs@, w@)
                &&& self.cfg.r1cs.wf() && w@.len() >= self.cfg.r1cs.num_wires() ==> r->Ok_0.wf()
            },
            Err(e) => r matches Err(x) && x == e,
        }
    }
}

impl<F: Copy> CircomBuilder<F> {
    /// A circuit without a witness over a copy of the builder's system. The
    /// copy has no wire table, whatever the builder's system has.
    pub fn setup(&self) -> (circuit: CircomCircuit<F>)
        ensures
            circuit.witness is None,
            circuit.r1cs.wire_mapping is None,
            circuit@ == (CircuitView { r1cs: self.cfg.r1cs@.without_mapping(), witness: None }),
            self.cfg.r1cs.wf() ==> circuit.wf(),
    {
        CircomCircuit { r1cs: self.cfg.r1cs.without_mapping(), witness: None }
    }

    /// Makes the witnessed circuit from what the witness provider returned
    /// for the builder's inputs, and consumes the builder. A witness gives the
    /// circuit that carries it over a copy of the builder's system without
    /// wire table; that circuit is well formed where the system is and the
    /// witness has a value for every wire. The provider's failure is handed on
    /// as it is.
    pub fn build_from<E>(self, outcome: Result<Vec<F>, E>) -> (r: Result<CircomCircuit<F>, E>)
        ensures
            self.is_build_of(outcome, r),
    {
        match outcome {
            Ok(w) => {
                let mut circuit = self.setup();
                circuit.witness = Some(w);
                Ok(circuit)
            },
            Err(e) => Err(e),
        }
    }

    /// Calls the witness provider with the inputs in their order and with the
    /// flag of the configuration, makes the witnessed circuit from what it
    /// returns, and consumes the builder; see `build_from`.
    pub fn build<E, P>(self, provider: P) -> (r: Result<CircomCircuit<F>, E>) where
        P: FnOnce(&Inputs, bool) -> Result<Vec<F>, E>,

        requires
            call_requires(provider, (&self.inputs, self.cfg.sanity_check)),
        ensures
            exists|outcome: Result<Vec<F>, E>|
                {
                    &&& call_ensures(provider, (&self.inputs, self.cfg.sanity_check), outcome)
                    &&& #[trigger] self.is_build_of(outcome, r)
                },
    {
        let outcome = provider(&self.inputs, self.cfg.sanity_check);
        let ghost returned = outcome;
        let r = self.build_from(outcome);
        assert(self.is_build_of(returned, r));
        r
    }
}

/// Two builds from systems that hold the same sequences, with the same
/// witness, give circuits with the same public inputs that ask the same of
/// the target constraint system, in the same order.
pub proof fn lemma_rebuild_agrees<F>(
    first: CircomBuilder<F>,
    second: CircomBuilder<F>,
    w: Seq<F>,
    a: CircomCircuit<F>,
    b: CircomCircuit<F>,
    placeholder: F,
)
    requires
        first.cfg.r1cs@ == second.cfg.r1cs@,
        a@ == built(first.cfg.r1cs@, w),
        b@ == built(second.cfg.r1cs@, w),
    ensures
        a.public_inputs() == b.public_inputs(),
        a.wf() == b.wf(),
        script(a, placeholder) == script(b, placeholder),
{
    lemma_view_decides_values(a, b, placeholder);
    lemma_view_decides_translation(a.r1cs, b.r1cs);
    assert(script(a, placeholder) =~= script(b, placeholder));
}

} // verus!
