use vstd::prelude::*;
use std::collections::HashSet;

verus! {

/// A sparse linear combination: pairs of a wire index and its coefficient.
pub type ConstraintVec<F> = Vec<(usize, F)>;

/// One constraint `A * B = C`, as its three linear combinations.
pub type Constraints<F> = (ConstraintVec<F>, ConstraintVec<F>, ConstraintVec<F>);

/// A rank-one constraint system over the field `F`.
///
/// Wire 0 is the constant one. Wires `1..num_inputs` are the public wires and
/// wires `num_inputs..num_inputs + num_aux` the private ones.
#[derive(Clone, Debug)]
pub struct R1CS<F> {
    /// The number of public wires, the constant-one wire included.
    pub num_inputs: usize,
    /// The number of private wires.
    pub num_aux: usize,
    /// The constraints; a constraint is known by its position.
    pub constraints: Vec<Constraints<F>>,
    /// For each wire its index into the witness; absent, a wire is its own index.
    pub wire_mapping: Option<Vec<usize>>,
}

/// Every term of `terms` names a wire below `wires`.
pub open spec fn terms_in_range<F>(terms: Seq<(usize, F)>, wires: int) -> bool {
    forall|k: int| 0 <= k < terms.len() ==> (#[trigger] terms[k]).0 < wires
}

/// The three linear combinations of `c` name wires below `wires` only.
pub open spec fn constraint_in_range<F>(c: Constraints<F>, wires: int) -> bool {
    &&& terms_in_range(c.0@, wires)
    &&& terms_in_range(c.1@, wires)
    &&& terms_in_range(c.2@, wires)
}

/// No index occurs twice in `m`.
pub open spec fn injective(m: Seq<usize>) -> bool {
    forall|i: int, j: int| 0 <= i < j < m.len() ==> m[i] != m[j]
}

/// The linear combinations of a constraint as sequences.
pub open spec fn constraint_view<F>(c: Constraints<F>) -> (Seq<(usize, F)>, Seq<(usize, F)>, Seq<(usize, F)>) {
    (c.0@, c.1@, c.2@)
}

/// A constraint system over sequences.
pub struct R1CSView<F> {
    /// The number of public wires, the constant-one wire included.
    pub num_inputs: usize,
    /// The number of private wires.
    pub num_aux: usize,
    /// The constraints in their order.
    pub constraints: Seq<(Seq<(usize, F)>, Seq<(usize, F)>, Seq<(usize, F)>)>,
    /// The wire table, where there is one.
    pub wire_mapping: Option<Seq<usize>>,
}

impl<F> View for R1CS<F> {
    type V = R1CSView<F>;

    open spec fn view(&self) -> R1CSView<F> {
        R1CSView {
            num_inputs: self.num_inputs,
            num_aux: self.num_aux,
            constraints: self.constraints_view(),
            wire_mapping: self.mapping_view(),
        }
    }
}

impl<F> R1CSView<F> {
    /// The same system without its wire table.
    pub open spec fn without_mapping(self) -> R1CSView<F> {
        R1CSView { wire_mapping: None, ..self }
    }
}

impl<F> R1CS<F> {
    /// The number of wires, public and private.
    pub open spec fn num_wires(&self) -> int {
        self.num_inputs + self.num_aux
    }

    /// The constraints as sequences, in their order.
    pub open spec fn constraints_view(&self) -> Seq<(Seq<(usize, F)>, Seq<(usize, F)>, Seq<(usize, F)>)> {
        Seq::new(self.constraints@.len(), |i: int| constraint_view(self.constraints@[i]))
    }

    /// The wire table as a sequence, where there is one.
    pub open spec fn mapping_view(&self) -> Option<Seq<usize>> {
        match self.wire_mapping {
            Some(m) => Some(m@),
            None => None,
        }
    }

    /// Every constraint names existing wires only.
    pub open spec fn constraints_in_range(&self) -> bool {
        forall|i: int| 0 <= i < self.constraints@.len() ==>
            constraint_in_range(#[trigger] self.constraints@[i], self.num_wires())
    }

    /// The wire table, where there is one, has one entry per wire.
    pub open spec fn mapping_covers_wires(&self) -> bool {
        self.wire_mapping matches Some(m) ==> m@.len() == self.num_wires()
    }

    /// The invariant of the data model: the constant-one wire exists, the wire
    /// count fits the machine, constraints name existing wires, and the wire
    /// table, where present, has one entry per wire and sends no two wires to
    /// one witness index.
    pub open spec fn wf(&self) -> bool {
        &&& self.num_inputs >= 1
        &&& self.num_wires() <= usize::MAX
        &&& self.constraints_in_range()
        &&& self.mapping_covers_wires()
        &&& self.wire_mapping matches Some(m) ==> injective(m@)
    }

    /// The index into the witness at which the value of `wire` stands: the
    /// table's entry where there is a table, else `wire` itself.
    pub open spec fn witness_index(&self, wire: int) -> int {
        match self.wire_mapping {
            Some(m) => m@[wire] as int,
            None => wire,
        }
    }

    /// Looks `wire` up in the wire table; without a table a wire is its own
    /// witness index.
    pub fn wire_to_witness(&self, wire: usize) -> (index: usize)
        requires
            self.wire_mapping matches Some(m) ==> wire < m@.len(),
        ensures
            index == self.witness_index(wire as int),
    {
        match &self.wire_mapping {
            Some(m) => m[wire],
            None => wire,
        }
    }

    /// Tells whether the system meets the invariant of the data model.
    pub fn is_well_formed(&self) -> (ok: bool)
        ensures
            ok == self.wf(),
    {
        if self.num_inputs < 1 || self.num_aux > usize::MAX - self.num_inputs {
            return false;
        }
        let wires: usize = self.num_inputs + self.num_aux;
        let mut i: usize = 0;
        while i < self.constraints.len()
            invariant
                i <= self.constraints@.len(),
                wires == self.num_wires(),
                forall|k: int| 0 <= k < i ==>
                    constraint_in_range(#[trigger] self.constraints@[k], wires as int),
            decreases self.constraints@.len() - i,
        {
            let c = &self.constraints[i];
            if !(in_range(&c.0, wires) && in_range(&c.1, wires) && in_range(&c.2, wires)) {
                return false;
            }
            i = i + 1;
        }
        match &self.wire_mapping {
            Some(m) => m.len() == wires && is_injective(m),
            None => true,
        }
    }
}

/// A copy of `terms`.
pub fn copy_terms<F: Copy>(terms: &ConstraintVec<F>) -> (copy: ConstraintVec<F>)
    ensures
        copy@ == terms@,
{
    let mut copy: ConstraintVec<F> = Vec::new();
    let mut k: usize = 0;
    while k < terms.len()
        invariant
            k <= terms@.len(),
            copy@ == terms@.take(k as int),
        decreases terms@.len() - k,
    {
        copy.push(terms[k]);
        k = k + 1;
        assert(copy@ =~= terms@.take(k as int));
    }
    assert(terms@.take(k as int) =~= terms@);
    copy
}

impl<F: Copy> R1CS<F> {
    /// A copy of the system that shares nothing with it and has no wire
    /// table: its wires are their own witness indices.
    pub fn without_mapping(&self) -> (copy: R1CS<F>)
        ensures
            copy@ == self@.without_mapping(),
            self.constraints_in_range() ==> copy.constraints_in_range(),
    {
        let mut constraints: Vec<Constraints<F>> = Vec::new();
        let mut i: usize = 0;
        while i < self.constraints.len()
            invariant
                i <= self.constraints@.len(),
                constraints@.len() == i,
                forall|j: int| 0 <= j < i ==>
                    constraint_view(#[trigger] constraints@[j]) == constraint_view(self.constraints@[j]),
            decreases self.constraints@.len() - i,
        {
            let c = &self.constraints[i];
            constraints.push((copy_terms(&c.0), copy_terms(&c.1), copy_terms(&c.2)));
            i = i + 1;
        }
        let copy = R1CS {
            num_inputs: self.num_inputs,
            num_aux: self.num_aux,
            constraints,
            wire_mapping: None,
        };
        assert(copy.constraints_view() =~= self.constraints_view());
        proof {
            lemma_view_decides_range(*self, copy);
        }
        copy
    }
}

/// Whether the constraints name existing wires only is decided by the counts
/// and the constraints as sequences.
pub proof fn lemma_view_decides_range<F>(a: R1CS<F>, b: R1CS<F>)
    requires
        a@.without_mapping() == b@.without_mapping(),
    ensures
        a.constraints_in_range() == b.constraints_in_range(),
{
    assert(a.constraints_view().len() == b.constraints_view().len());
    assert forall|i: int| 0 <= i < a.constraints@.len() implies constraint_view(a.constraints@[i]) == constraint_view(
        b.constraints@[i],
    ) by {
        assert(a.constraints_view()[i] == b.constraints_view()[i]);
    }
    if a.constraints_in_range() {
        assert forall|i: int| 0 <= i < b.constraints@.len() implies constraint_in_range(
            #[trigger] b.constraints@[i],
            b.num_wires(),
        ) by {
            assert(constraint_in_range(a.constraints@[i], a.num_wires()));
            assert(constraint_view(a.constraints@[i]) == constraint_view(b.constraints@[i]));
        }
    }
    if b.constraints_in_range() {
        assert forall|i: int| 0 <= i < a.constraints@.len() implies constraint_in_range(
            #[trigger] a.constraints@[i],
            a.num_wires(),
        ) by {
            assert(constraint_in_range(b.constraints@[i], b.num_wires()));
            assert(constraint_view(a.constraints@[i]) == constraint_view(b.constraints@[i]));
        }
    }
}

/// Tells whether every term of `terms` names a wire below `wires`.
pub fn in_range<F>(terms: &ConstraintVec<F>, wires: usize) -> (ok: bool)
    ensures
        ok == terms_in_range(terms@, wires as int),
{
    let mut k: usize = 0;
    while k < terms.len()
        invariant
            k <= terms@.len(),
            forall|j: int| 0 <= j < k ==> (#[trigger] terms@[j]).0 < wires,
        decreases terms@.len() - k,
    {
        if terms[k].0 >= wires {
            return false;
        }
        k = k + 1;
    }
    true
}

/// Tells whether no index occurs twice in `m`.
pub fn is_injective(m: &Vec<usize>) -> (ok: bool)
    ensures
        ok == injective(m@),
{
    let mut seen: HashSet<usize> = HashSet::new();
    let mut i: usize = 0;
    while i < m.len()
        invariant
            i <= m@.len(),
            forall|a: int, b: int| 0 <= a < b < i ==> m@[a] != m@[b],
            forall|v: usize| seen@.contains(v) <==> exists|a: int| 0 <= a < i && m@[a] == v,
        decreases m@.len() - i,
    {
        let fresh = seen.insert(m[i]);
        if !fresh {
            return false;
        }
        i = i + 1;
    }
    true
}

} // verus!
