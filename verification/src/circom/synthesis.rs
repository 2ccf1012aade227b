use vstd::prelude::*;
use ark_ff::PrimeField;
use ark_relations::gr1cs::SynthesisError;
use super::circuit::CircomCircuit;
use super::translation::triple_allocated;
use super::translation::triple_view;
use super::translation::triples_view;
use super::translation::lemma_translation_allocated;
use super::translation::Triple;
use super::translation::TripleView;

verus! {

/// The error with which the target constraint system refuses an allocation or
/// a constraint. The bridge carries it through and never looks inside.
#[verifier::external_type_specification]
#[verifier::external_body]
pub struct ExSynthesisError(SynthesisError);

/// The multiplicative identity of the field, ark-ff's `Field::ONE`. Nothing is
/// claimed of the value.
#[verifier::external_body]
fn field_one<F: PrimeField>() -> F {
    F::ONE
}

/// What the caller is to do next on the target constraint system.
pub enum SynthesisAction<'a, F> {
    /// Allocate the next public variable, with this value.
    AllocateInstance(F),
    /// Allocate the next private variable, with this value.
    AllocateWitness(F),
    /// Enforce this constraint.
    Enforce(&'a Triple<F>),
    /// Stop: constraint generation ended with this result.
    Finish(Result<(), SynthesisError>),
}

/// An action over sequences.
pub enum Step<F> {
    /// Allocation of a public variable with a value.
    Instance(F),
    /// Allocation of a private variable with a value.
    Witness(F),
    /// Enforcement of a constraint.
    Constraint(TripleView<F>),
    /// The end of constraint generation and its result.
    End(Result<(), SynthesisError>),
}

/// The action `a` over sequences.
pub open spec fn action_view<F>(a: SynthesisAction<'_, F>) -> Step<F> {
    match a {
        SynthesisAction::AllocateInstance(v) => Step::Instance(v),
        SynthesisAction::AllocateWitness(v) => Step::Witness(v),
        SynthesisAction::Enforce(t) => Step::Constraint(triple_view(*t)),
        SynthesisAction::Finish(r) => Step::End(r),
    }
}

/// Everything that constraint generation asks of the target constraint system
/// when nothing fails, in order: one public variable for each of the wires
/// `1..num_inputs`, then one private variable for each of the wires
/// `num_inputs..num_inputs + num_aux`, each with the wire's value, then the
/// constraints in their own order.
pub open spec fn script<F>(circuit: CircomCircuit<F>, placeholder: F) -> Seq<Step<F>> {
    let wires = circuit.r1cs.num_wires();
    Seq::new(
        (wires - 1 + circuit.r1cs.constraints@.len()) as nat,
        |p: int|
            if p + 1 < circuit.r1cs.num_inputs {
                Step::Instance(circuit.wire_value(p + 1, placeholder))
            } else if p + 1 < wires {
                Step::Witness(circuit.wire_value(p + 1, placeholder))
            } else {
                Step::Constraint(circuit.r1cs.translation()[p + 1 - wires])
            },
    )
}

/// In the script of a well-formed circuit every constraint comes after all
/// allocations and names only variables that those allocations made, or the
/// constant one.
pub proof fn lemma_script_enforces_allocated<F>(circuit: CircomCircuit<F>, placeholder: F, p: int)
    requires
        circuit.wf(),
        0 <= p < script(circuit, placeholder).len(),
        script(circuit, placeholder)[p] is Constraint,
    ensures
        p >= circuit.r1cs.num_wires() - 1,
        triple_allocated(
            script(circuit, placeholder)[p]->Constraint_0,
            circuit.r1cs.num_inputs as int,
            circuit.r1cs.num_aux as int,
        ),
{
    lemma_translation_allocated(circuit.r1cs, p + 1 - circuit.r1cs.num_wires());
}

/// The public variables are allocated in the order of the public inputs, each
/// with its public input as value.
pub proof fn lemma_public_inputs_follow_allocation<F>(circuit: CircomCircuit<F>, placeholder: F, k: int)
    requires
        circuit.r1cs.num_inputs >= 1,
        circuit.witness is Some,
        0 <= k < circuit.r1cs.num_inputs - 1,
    ensures
        k < script(circuit, placeholder).len(),
        k < circuit.public_inputs()->0.len(),
        script(circuit, placeholder)[k] == Step::Instance(circuit.public_inputs()->0[k]),
{
    assert(circuit.r1cs.mapping_view() is Some <==> circuit.r1cs.wire_mapping is Some);
}

/// Constraint generation for one circuit, as a state machine: `action` says
/// what to do next on the target constraint system, `advance` takes in how
/// that went.
pub struct Synthesis<F> {
    circuit: CircomCircuit<F>,
    placeholder: F,
    triples: Vec<Triple<F>>,
    next_wire: usize,
    next_constraint: usize,
    failure: Option<SynthesisError>,
}

impl<F> Synthesis<F> {
    #[verifier::type_invariant]
    spec fn inv(self) -> bool {
        &&& self.circuit.wf()
        &&& self.triples@.len() == self.circuit.r1cs.constraints@.len()
        &&& triples_view(self.triples@) == self.circuit.r1cs.translation()
        &&& 1 <= self.next_wire <= self.circuit.r1cs.num_wires()
        &&& self.next_constraint <= self.triples@.len()
        &&& self.next_constraint > 0 ==> self.next_wire == self.circuit.r1cs.num_wires()
    }

    /// The circuit whose constraints are generated.
    pub closed spec fn circuit(&self) -> CircomCircuit<F> {
        self.circuit
    }

    /// The value given to every variable where the circuit has no witness.
    pub closed spec fn placeholder(&self) -> F {
        self.placeholder
    }

    /// The number of actions that went well so far.
    pub closed spec fn steps_done(&self) -> int {
        self.next_wire - 1 + self.next_constraint
    }

    /// The error that ended constraint generation, if one did.
    pub closed spec fn failure(&self) -> Option<SynthesisError> {
        self.failure
    }

    /// What is to be done next: after a failure, to stop with that error; else
    /// the next entry of the script; after its last entry, to stop with success.
    pub open spec fn next_step(&self) -> Step<F> {
        match self.failure() {
            Some(e) => Step::End(Err(e)),
            None => {
                if 0 <= self.steps_done() < script(self.circuit(), self.placeholder()).len() {
                    script(self.circuit(), self.placeholder())[self.steps_done()]
                } else {
                    Step::End(Ok(()))
                }
            },
        }
    }
}

impl<F: Copy> Synthesis<F> {
    /// The action to perform next on the target constraint system.
    pub fn action(&self) -> (a: SynthesisAction<'_, F>)
        ensures
            action_view(a) == self.next_step(),
    {
        proof {
            use_type_invariant(self);
        }
        match self.failure {
            Some(e) => {
                return SynthesisAction::Finish(Err(e));
            },
            None => {},
        }
        let num_inputs = self.circuit.r1cs.num_inputs;
        let wires = num_inputs + self.circuit.r1cs.num_aux;
        if self.next_wire < num_inputs {
            SynthesisAction::AllocateInstance(self.circuit.resolve_wire(self.next_wire, self.placeholder))
        } else if self.next_wire < wires {
            SynthesisAction::AllocateWitness(self.circuit.resolve_wire(self.next_wire, self.placeholder))
        } else if self.next_constraint < self.triples.len() {
            assert(triples_view(self.triples@)[self.next_constraint as int]
                == self.circuit.r1cs.translation()[self.next_constraint as int]);
            SynthesisAction::Enforce(&self.triples[self.next_constraint])
        } else {
            SynthesisAction::Finish(Ok(()))
        }
    }

    /// Takes in the outcome of the action that `action` asked for. An error
    /// ends constraint generation with that error; success moves on to the
    /// next entry of the script. Once generation has ended nothing changes.
    pub fn advance(&mut self, outcome: Result<(), SynthesisError>)
        ensures
            final(self).circuit() == old(self).circuit(),
            final(self).placeholder() == old(self).placeholder(),
            old(self).next_step() is End ==> {
                &&& final(self).steps_done() == old(self).steps_done()
                &&& final(self).failure() == old(self).failure()
            },
            !(old(self).next_step() is End) ==> match outcome {
                Ok(_) => {
                    &&& final(self).steps_done() == old(self).steps_done() + 1
                    &&& final(self).failure() is None
                },
                Err(e) => {
                    &&& final(self).steps_done() == old(self).steps_done()
                    &&& final(self).failure() == Some(e)
                },
            },
    {
        proof {
            use_type_invariant(&*self);
        }
        if self.failure.is_some() {
            return;
        }
        let wires = self.circuit.r1cs.num_inputs + self.circuit.r1cs.num_aux;
        if self.next_wire >= wires && self.next_constraint >= self.triples.len() {
            return;
        }
        match outcome {
            Err(e) => {
                self.failure = Some(e);
            },
            Ok(_) => {
                if self.next_wire < wires {
                    self.next_wire = self.next_wire + 1;
                } else {
                    self.next_constraint = self.next_constraint + 1;
                }
            },
        }
    }
}

/// Performing `step` with the given functions can come out as `outcome`: the
/// function for the step's kind, called with the step's value or constraint,
/// can return it.
pub open spec fn step_outcome<F, A, W, E>(
    step: Step<F>,
    allocate_instance: A,
    allocate_witness: W,
    enforce: E,
    outcome: Result<(), SynthesisError>,
) -> bool where
    A: Fn(F) -> Result<(), SynthesisError>,
    W: Fn(F) -> Result<(), SynthesisError>,
    E: Fn(&Triple<F>) -> Result<(), SynthesisError>,
 {
    match step {
        Step::Instance(v) => call_ensures(allocate_instance, (v,), outcome),
        Step::Witness(v) => call_ensures(allocate_witness, (v,), outcome),
        Step::Constraint(c) => exists|t: Triple<F>| #[trigger] triple_view(t) == c && call_ensures(enforce, (&t,), outcome),
        Step::End(_) => false,
    }
}

/// Running `steps` with the given functions can end in `r`: in success where
/// every step succeeded, and in an error where a step came out as that error
/// and every step before it succeeded.
pub open spec fn run_outcome<F, A, W, E>(
    steps: Seq<Step<F>>,
    allocate_instance: A,
    allocate_witness: W,
    enforce: E,
    r: Result<(), SynthesisError>,
) -> bool where
    A: Fn(F) -> Result<(), SynthesisError>,
    W: Fn(F) -> Result<(), SynthesisError>,
    E: Fn(&Triple<F>) -> Result<(), SynthesisError>,
 {
    match r {
        Ok(_) => forall|p: int|
            0 <= p < steps.len() ==> step_outcome(#[trigger] steps[p], allocate_instance, allocate_witness, enforce, Ok(())),
        Err(e) => exists|p: int|
            {
                &&& 0 <= p < steps.len()
                &&& step_outcome(#[trigger] steps[p], allocate_instance, allocate_witness, enforce, Err(e))
                &&& forall|q: int|
                    0 <= q < p ==> step_outcome(#[trigger] steps[q], allocate_instance, allocate_witness, enforce, Ok(()))
            },
    }
}

impl<F: Copy> Synthesis<F> {
    /// Runs constraint generation from its start to its end. Each action is
    /// performed by the function for its kind: `allocate_instance` allocates a
    /// public variable with the given value, `allocate_witness` a private one,
    /// `enforce` enforces the given constraint. The run follows the script and
    /// stops at the first step that fails, with that step's error. `enforce`
    /// is only called with constraints whose variables the allocations before
    /// it have made.
    pub fn run<A, W, E>(self, allocate_instance: A, allocate_witness: W, enforce: E) -> (r: Result<(), SynthesisError>) where
        A: Fn(F) -> Result<(), SynthesisError>,
        W: Fn(F) -> Result<(), SynthesisError>,
        E: Fn(&Triple<F>) -> Result<(), SynthesisError>,

        requires
            self.steps_done() == 0,
            self.failure() is None,
            forall|v: F| call_requires(allocate_instance, (v,)),
            forall|v: F| call_requires(allocate_witness, (v,)),
            forall|t: Triple<F>|
                triple_allocated(
                    #[trigger] triple_view(t),
                    self.circuit().r1cs.num_inputs as int,
                    self.circuit().r1cs.num_aux as int,
                ) ==> call_requires(enforce, (&t,)),
        ensures
            run_outcome(script(self.circuit(), self.placeholder()), allocate_instance, allocate_witness, enforce, r),
    {
        let mut machine = self;
        let ghost steps = script(self.circuit(), self.placeholder());
        loop
            invariant
                machine.circuit() == self.circuit(),
                machine.placeholder() == self.placeholder(),
                steps == script(self.circuit(), self.placeholder()),
                0 <= machine.steps_done(),
                forall|v: F| call_requires(allocate_instance, (v,)),
                forall|v: F| call_requires(allocate_witness, (v,)),
                forall|t: Triple<F>|
                    triple_allocated(
                        #[trigger] triple_view(t),
                        self.circuit().r1cs.num_inputs as int,
                        self.circuit().r1cs.num_aux as int,
                    ) ==> call_requires(enforce, (&t,)),
                forall|q: int|
                    0 <= q < machine.steps_done() && q < steps.len() ==> step_outcome(
                        #[trigger] steps[q],
                        allocate_instance,
                        allocate_witness,
                        enforce,
                        Ok(()),
                    ),
                machine.failure() matches Some(e) ==> {
                    &&& machine.steps_done() < steps.len()
                    &&& step_outcome(steps[machine.steps_done()], allocate_instance, allocate_witness, enforce, Err(e))
                },
            decreases
                steps.len() - machine.steps_done() + (if machine.failure() is None {
                    1int
                } else {
                    0int
                }),
        {
            proof {
                use_type_invariant(&machine);
            }
            let ghost at = machine.steps_done();
            let outcome = match machine.action() {
                SynthesisAction::AllocateInstance(value) => allocate_instance(value),
                SynthesisAction::AllocateWitness(value) => allocate_witness(value),
                SynthesisAction::Enforce(triple) => {
                    proof {
                        lemma_script_enforces_allocated(machine.circuit(), machine.placeholder(), at);
                    }
                    enforce(triple)
                },
                SynthesisAction::Finish(result) => {
                    return result;
                },
            };
            assert(step_outcome(steps[at], allocate_instance, allocate_witness, enforce, outcome));
            machine.advance(outcome);
            assert(outcome is Ok ==> outcome == Ok::<(), SynthesisError>(())) by {
                if let Ok(unit) = outcome {
                    assert(unit == ());
                    assert(outcome == Ok::<(), SynthesisError>(unit));
                }
            }
        }
    }
}

impl<F: Copy + Send + Sync> Synthesis<F> {
    /// Starts constraint generation for `circuit`. Where the circuit has no
    /// witness every variable gets the value `placeholder`. The constraints
    /// are translated here, in parallel where `parallel` is set.
    pub fn begin(circuit: CircomCircuit<F>, placeholder: F, parallel: bool) -> (s: Self)
        requires
            circuit.wf(),
        ensures
            s.circuit() == circuit,
            s.placeholder() == placeholder,
            s.steps_done() == 0,
            s.failure() is None,
    {
        let triples = circuit.r1cs.translate(parallel);
        assert(triples_view(triples@).len() == circuit.r1cs.translation().len());
        Synthesis { circuit, placeholder, triples, next_wire: 1, next_constraint: 0, failure: None }
    }
}

impl<F: PrimeField> CircomCircuit<F> {
    /// Generates the constraints of this circuit, which it consumes, into the
    /// target constraint system, which the three functions stand for:
    /// `allocate_instance` allocates a public variable with the given value,
    /// `allocate_witness` a private one, `enforce` enforces the given
    /// constraint. One public variable is allocated for each of the wires
    /// `1..num_inputs`, then one private variable for each further wire, each
    /// with the wire's witness value or, without a witness, the field's one;
    /// then the constraints are enforced in their order. Generation stops at
    /// the first step that fails, with that step's error.
    pub fn generate_constraints<A, W, E>(
        self,
        allocate_instance: A,
        allocate_witness: W,
        enforce: E,
    ) -> (r: Result<(), SynthesisError>) where
        A: Fn(F) -> Result<(), SynthesisError>,
        W: Fn(F) -> Result<(), SynthesisError>,
        E: Fn(&Triple<F>) -> Result<(), SynthesisError>,

        requires
            self.wf(),
            forall|v: F| call_requires(allocate_instance, (v,)),
            forall|v: F| call_requires(allocate_witness, (v,)),
            forall|t: Triple<F>|
                triple_allocated(#[trigger] triple_view(t), self.r1cs.num_inputs as int, self.r1cs.num_aux as int)
                    ==> call_requires(enforce, (&t,)),
        ensures
            exists|one: F| run_outcome(#[trigger] script(self, one), allocate_instance, allocate_witness, enforce, r),
    {
        let synthesis = self.synthesis();
        let r = synthesis.run(allocate_instance, allocate_witness, enforce);
        assert(run_outcome(
            script(self, synthesis.placeholder()),
            allocate_instance,
            allocate_witness,
            enforce,
            r,
        ));
        r
    }

    /// Starts constraint generation for this circuit, which it consumes. The
    /// values of a circuit without a witness are all the field's one. The
    /// caller performs each action of the returned machine on the target
    /// constraint system and reports how it went, until the action is to stop.
    pub fn synthesis(self) -> (s: Synthesis<F>)
        requires
            self.wf(),
        ensures
            s.circuit() == self,
            s.steps_done() == 0,
            s.failure() is None,
    {
        Synthesis::begin(self, field_one(), true)
    }
}

} // verus!
