use ark_bn254::Fr;
use ark_ff::Field;
use circom_bridge::circom::r1cs::in_range;
use circom_bridge::circom::r1cs::is_injective;
use circom_bridge::CircomCircuit;
use circom_bridge::R1CS;

fn fr(v: u64) -> Fr {
    Fr::from(v)
}

// c = a * b with wires [one, c, a, b]
fn multiplier(wire_mapping: Option<Vec<usize>>) -> R1CS<Fr> {
    R1CS {
        num_inputs: 2,
        num_aux: 2,
        constraints: vec![(vec![(2, -Fr::ONE)], vec![(3, Fr::ONE)], vec![(1, -Fr::ONE)])],
        wire_mapping,
    }
}

fn three_public(wire_mapping: Option<Vec<usize>>) -> R1CS<Fr> {
    R1CS { num_inputs: 4, num_aux: 1, constraints: vec![], wire_mapping }
}

#[test]
fn unwitnessed_circuit_has_no_public_inputs() {
    let circuit = CircomCircuit { r1cs: multiplier(None), witness: None };
    assert!(circuit.can_read_public_inputs());
    assert!(circuit.get_public_inputs().is_none());
    let mapped = CircomCircuit { r1cs: multiplier(Some(vec![0, 3, 1, 2])), witness: None };
    assert!(mapped.get_public_inputs().is_none());
}

#[test]
fn public_inputs_skip_the_constant_wire() {
    let witness = vec![fr(1), fr(33), fr(3), fr(11)];
    let circuit = CircomCircuit { r1cs: multiplier(None), witness: Some(witness) };
    assert_eq!(circuit.get_public_inputs(), Some(vec![fr(33)]));
}

#[test]
fn public_inputs_number_one_less_than_the_instance_wires() {
    let witness = vec![fr(1), fr(10), fr(20), fr(30), fr(40)];
    let circuit = CircomCircuit { r1cs: three_public(None), witness: Some(witness) };
    let inputs = circuit.get_public_inputs().unwrap();
    assert_eq!(inputs.len(), 3);
    assert_eq!(inputs, vec![fr(10), fr(20), fr(30)]);
}

#[test]
fn public_inputs_of_a_system_with_only_the_constant_wire_are_empty() {
    let r1cs: R1CS<Fr> = R1CS { num_inputs: 1, num_aux: 0, constraints: vec![], wire_mapping: None };
    let circuit = CircomCircuit { r1cs, witness: Some(vec![fr(1)]) };
    assert_eq!(circuit.get_public_inputs(), Some(vec![]));
}

#[test]
fn public_inputs_go_through_the_wire_table() {
    let witness = vec![fr(1), fr(100), fr(200), fr(300), fr(400), fr(500)];
    let circuit = CircomCircuit { r1cs: three_public(Some(vec![0, 5, 2, 4, 1])), witness: Some(witness) };
    assert_eq!(circuit.get_public_inputs(), Some(vec![fr(500), fr(200), fr(400)]));
}

#[test]
fn mapping_and_extraction_commute() {
    let table = vec![0usize, 5, 2, 4, 1];
    let witness = vec![fr(1), fr(100), fr(200), fr(300), fr(400), fr(500)];
    let permuted: Vec<Fr> = table.iter().map(|i| witness[*i]).collect();
    let mapped = CircomCircuit { r1cs: three_public(Some(table)), witness: Some(witness) };
    let direct = CircomCircuit { r1cs: three_public(None), witness: Some(permuted) };
    assert_eq!(mapped.get_public_inputs(), direct.get_public_inputs());
}

#[test]
fn resolve_wire_reads_the_witness_or_the_placeholder() {
    let witness = vec![fr(1), fr(33), fr(3), fr(11)];
    let plain = CircomCircuit { r1cs: multiplier(None), witness: Some(witness.clone()) };
    assert_eq!(plain.resolve_wire(2, fr(7)), fr(3));
    let mapped = CircomCircuit { r1cs: multiplier(Some(vec![0, 3, 1, 2])), witness: Some(witness) };
    assert_eq!(mapped.resolve_wire(1, fr(7)), fr(11));
    assert_eq!(mapped.resolve_wire(3, fr(7)), fr(3));
    let bare = CircomCircuit { r1cs: multiplier(None), witness: None };
    assert_eq!(bare.resolve_wire(2, fr(7)), fr(7));
}

#[test]
fn wire_to_witness_defaults_to_the_wire_itself() {
    assert_eq!(multiplier(None).wire_to_witness(3), 3);
    assert_eq!(multiplier(Some(vec![0, 3, 1, 2])).wire_to_witness(3), 2);
    assert_eq!(multiplier(Some(vec![0, 3, 1, 2])).wire_to_witness(0), 0);
}

#[test]
fn well_formed_systems_are_recognised() {
    assert!(multiplier(None).is_well_formed());
    assert!(multiplier(Some(vec![0, 3, 1, 2])).is_well_formed());
    assert!(multiplier(Some(vec![9, 7, 5, 3])).is_well_formed());
}

#[test]
fn ill_formed_systems_are_recognised() {
    // no constant-one wire
    let none: R1CS<Fr> = R1CS { num_inputs: 0, num_aux: 3, constraints: vec![], wire_mapping: None };
    assert!(!none.is_well_formed());
    // the wire count does not fit
    let huge: R1CS<Fr> = R1CS { num_inputs: 2, num_aux: usize::MAX, constraints: vec![], wire_mapping: None };
    assert!(!huge.is_well_formed());
    // a term names wire 4 of 4
    let mut out_of_range = multiplier(None);
    out_of_range.constraints.push((vec![], vec![(4, Fr::ONE)], vec![]));
    assert!(!out_of_range.is_well_formed());
    // table too short
    assert!(!multiplier(Some(vec![0, 1, 2])).is_well_formed());
    // table sends two wires to one index
    assert!(!multiplier(Some(vec![0, 1, 2, 1])).is_well_formed());
}

#[test]
fn well_formed_circuits_cover_every_wire() {
    let witness = vec![fr(1), fr(33), fr(3), fr(11)];
    assert!(CircomCircuit { r1cs: multiplier(None), witness: Some(witness.clone()) }.is_well_formed());
    assert!(CircomCircuit { r1cs: multiplier(None), witness: None }.is_well_formed());
    let short = vec![fr(1), fr(33), fr(3)];
    let circuit = CircomCircuit { r1cs: multiplier(None), witness: Some(short.clone()) };
    assert!(!circuit.is_well_formed());
    assert!(circuit.can_read_public_inputs());
    assert_eq!(circuit.get_public_inputs(), Some(vec![fr(33)]));
    // the table points past the witness
    let mapped = CircomCircuit { r1cs: multiplier(Some(vec![0, 4, 1, 2])), witness: Some(witness) };
    assert!(!mapped.is_well_formed());
    assert!(!mapped.can_read_public_inputs());
    assert!(!CircomCircuit { r1cs: multiplier(None), witness: Some(vec![fr(1)]) }.can_read_public_inputs());
}

#[test]
fn injectivity_and_range_checks() {
    assert!(is_injective(&vec![]));
    assert!(is_injective(&vec![4, 2, 9]));
    assert!(!is_injective(&vec![4, 2, 4]));
    assert!(in_range::<Fr>(&vec![], 0));
    assert!(in_range(&vec![(0, fr(1)), (2, fr(1))], 3));
    assert!(!in_range(&vec![(0, fr(1)), (3, fr(1))], 3));
}
