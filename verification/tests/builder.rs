use ark_bn254::Fr;
use ark_ff::Field;
use circom_bridge::circom::inputs::parse_integers;
use circom_bridge::circom::inputs::parse_inputs;
use circom_bridge::circom::inputs::parse_raw_inputs;
use circom_bridge::circom::inputs::push_value;
use circom_bridge::CircomBuilder;
use circom_bridge::CircomConfig;
use circom_bridge::InputError;
use circom_bridge::Inputs;
use circom_bridge::NPIndex;
use circom_bridge::R1CS;
use num_bigint::BigInt;

fn multiplier(wire_mapping: Option<Vec<usize>>) -> R1CS<Fr> {
    R1CS {
        num_inputs: 2,
        num_aux: 2,
        constraints: vec![(vec![(2, -Fr::ONE)], vec![(3, Fr::ONE)], vec![(1, -Fr::ONE)])],
        wire_mapping,
    }
}

fn builder() -> CircomBuilder<Fr> {
    CircomBuilder::new(CircomConfig::new(multiplier(Some(vec![0, 3, 1, 2]))))
}

fn big(v: i64) -> BigInt {
    BigInt::from(v)
}

fn entry(name: &str, values: &[i64]) -> (String, Vec<BigInt>) {
    (name.to_string(), values.iter().map(|v| big(*v)).collect())
}

#[test]
fn a_new_builder_has_no_inputs_and_no_sanity_check() {
    let b = builder();
    assert!(b.inputs.is_empty());
    assert!(!b.cfg.sanity_check);
    assert_eq!(b.cfg.r1cs.num_inputs, 2);
}

#[test]
fn pushed_values_accumulate_under_their_name() {
    let mut b = builder();
    b.push_input("a", 3);
    b.push_input("b", 11u64);
    b.push_input("a", -4i64);
    b.push_input("c", big(5));
    b.push_input("a", 6);
    assert_eq!(b.inputs, vec![entry("a", &[3, -4, 6]), entry("b", &[11]), entry("c", &[5])]);
}

#[test]
fn push_integer_appends_or_creates() {
    let mut b = builder();
    b.push_integer("x", big(1));
    b.push_integer("", big(2));
    b.push_integer("x", big(3));
    assert_eq!(b.inputs, vec![entry("x", &[1, 3]), entry("", &[2])]);
    let mut entries: Inputs = vec![entry("k", &[1]), entry("k", &[2])];
    push_value(&mut entries, "k", big(9));
    assert_eq!(entries, vec![entry("k", &[1, 9]), entry("k", &[2])]);
}

#[test]
fn setup_has_no_witness_and_no_wire_table() {
    let b = builder();
    let circuit = b.setup();
    assert!(circuit.witness.is_none());
    assert!(circuit.r1cs.wire_mapping.is_none());
    assert_eq!(circuit.r1cs.num_inputs, 2);
    assert_eq!(circuit.r1cs.num_aux, 2);
    assert_eq!(circuit.r1cs.constraints, b.cfg.r1cs.constraints);
    assert!(circuit.get_public_inputs().is_none());
    // the builder keeps its table
    assert_eq!(b.cfg.r1cs.wire_mapping, Some(vec![0, 3, 1, 2]));
    let plain = CircomBuilder::new(CircomConfig::<Fr>::new(multiplier(None)));
    assert!(plain.setup().r1cs.wire_mapping.is_none());
}

#[test]
fn setup_circuits_are_independent_copies() {
    let b = builder();
    let mut first = b.setup();
    first.r1cs.constraints.clear();
    first.r1cs.num_aux = 9;
    let second = b.setup();
    assert_eq!(second.r1cs.constraints.len(), 1);
    assert_eq!(second.r1cs.num_aux, 2);
    assert_eq!(b.cfg.r1cs.constraints.len(), 1);
}

#[test]
fn build_carries_the_witness_over_the_system_without_table() {
    let b = builder();
    let witness = vec![Fr::from(1u64), Fr::from(33u64), Fr::from(3u64), Fr::from(11u64)];
    let circuit = b.build_from(Ok::<Vec<Fr>, String>(witness.clone())).unwrap();
    assert_eq!(circuit.witness, Some(witness));
    assert!(circuit.r1cs.wire_mapping.is_none());
    assert_eq!(circuit.r1cs.constraints, multiplier(None).constraints);
}

#[test]
fn loading_reads_strings_and_lists_of_strings() {
    let mut b = builder();
    assert_eq!(b.load_input_json("{\"a\": \"3\", \"b\": [\"11\"]}"), Ok(()));
    assert_eq!(b.inputs, vec![entry("a", &[3]), entry("b", &[11])]);
}

#[test]
fn loading_accepts_signed_and_large_integers() {
    let mut b = builder();
    let text = "{\"n\": \"-7\", \"p\": \"+8\", \"big\": [\"21888242871839275222246405745257275088548364400416034343698204186575808495617\", \"0\"], \"none\": []}";
    assert_eq!(b.load_input_json(text), Ok(()));
    let modulus: BigInt = "21888242871839275222246405745257275088548364400416034343698204186575808495617".parse().unwrap();
    let find = |name: &str| b.inputs.iter().find(|(n, _)| n == name).unwrap().1.clone();
    assert_eq!(find("n"), vec![big(-7)]);
    assert_eq!(find("p"), vec![big(8)]);
    assert_eq!(find("big"), vec![modulus, big(0)]);
    assert_eq!(find("none"), Vec::<BigInt>::new());
    assert_eq!(b.inputs.len(), 4);
}

#[test]
fn loading_replaces_what_was_there() {
    let mut b = builder();
    b.push_input("old", 1);
    b.push_input("a", 2);
    assert_eq!(b.load_input_json("{\"a\": \"3\"}"), Ok(()));
    assert_eq!(b.inputs, vec![entry("a", &[3])]);
    assert_eq!(b.load_input_json("{}"), Ok(()));
    assert!(b.inputs.is_empty());
}

#[test]
fn a_non_numeric_string_is_refused_and_changes_nothing() {
    let mut b = builder();
    b.push_input("kept", 5);
    assert_eq!(b.load_input_json("{\"a\": \"x\"}"), Err(InputError::NotAnInteger));
    assert_eq!(b.inputs, vec![entry("kept", &[5])]);
    assert_eq!(b.load_input_json("{\"a\": \"3\", \"b\": [\"4\", \"1.5\"]}"), Err(InputError::NotAnInteger));
    assert_eq!(b.load_input_json("{\"a\": \"\"}"), Err(InputError::NotAnInteger));
    assert_eq!(b.load_input_json("{\"a\": \"0x10\"}"), Err(InputError::NotAnInteger));
    assert_eq!(b.inputs, vec![entry("kept", &[5])]);
}

#[test]
fn malformed_json_is_refused() {
    let mut b = builder();
    b.push_input("kept", 5);
    assert_eq!(b.load_input_json("{\"a\": \"3\""), Err(InputError::MalformedJson));
    assert_eq!(b.load_input_json(""), Err(InputError::MalformedJson));
    assert_eq!(b.load_input_json("{\"a\": \"3\"} trailing"), Err(InputError::MalformedJson));
    assert_eq!(b.inputs, vec![entry("kept", &[5])]);
}

#[test]
fn other_shapes_are_refused() {
    let mut b = builder();
    b.push_input("kept", 5);
    assert_eq!(b.load_input_json("[\"3\"]"), Err(InputError::WrongShape));
    assert_eq!(b.load_input_json("\"3\""), Err(InputError::WrongShape));
    assert_eq!(b.load_input_json("{\"a\": 3}"), Err(InputError::WrongShape));
    assert_eq!(b.load_input_json("{\"a\": null}"), Err(InputError::WrongShape));
    assert_eq!(b.load_input_json("{\"a\": [\"3\", 4]}"), Err(InputError::WrongShape));
    assert_eq!(b.load_input_json("{\"a\": [[\"3\"]]}"), Err(InputError::WrongShape));
    assert_eq!(b.load_input_json("{\"a\": {\"b\": \"3\"}}"), Err(InputError::WrongShape));
    // a wrong shape anywhere comes before a bad integer anywhere
    assert_eq!(b.load_input_json("{\"a\": \"x\", \"b\": 3}"), Err(InputError::WrongShape));
    assert_eq!(b.inputs, vec![entry("kept", &[5])]);
}

#[test]
fn parse_inputs_gives_each_name_once() {
    let entries = parse_inputs("{\"b\": \"1\", \"a\": [\"2\", \"3\"], \"b\": \"4\"}").unwrap();
    let mut names: Vec<&str> = entries.iter().map(|(n, _)| n.as_str()).collect();
    names.sort();
    assert_eq!(names, vec!["a", "b"]);
    let b = entries.iter().find(|(n, _)| n == "b").unwrap();
    assert_eq!(b.1, vec![big(4)]);
}

#[test]
fn literals_become_integers_in_order() {
    let texts = vec!["12".to_string(), "-3".to_string(), "000".to_string()];
    assert_eq!(parse_integers(&texts), Some(vec![big(12), big(-3), big(0)]));
    assert_eq!(parse_integers(&vec![]), Some(vec![]));
    assert_eq!(parse_integers(&vec!["1".to_string(), "one".to_string()]), None);
    let raw = vec![("x".to_string(), vec!["1".to_string()]), ("y".to_string(), vec![])];
    assert_eq!(parse_raw_inputs(&raw), Some(vec![entry("x", &[1]), entry("y", &[])]));
    let bad = vec![("x".to_string(), vec!["1".to_string()]), ("y".to_string(), vec!["1 ".to_string()])];
    assert_eq!(parse_raw_inputs(&bad), None);
}

#[test]
fn index_holds_its_matrices() {
    let index: NPIndex<Fr> = NPIndex {
        num_instance_variables: 2,
        num_witness_variables: 2,
        num_constraints: 1,
        a_num_non_zero: 1,
        b_num_non_zero: 1,
        c_num_non_zero: 1,
        a: vec![vec![(Fr::ONE, 2)]],
        b: vec![vec![(Fr::ONE, 3)]],
        c: vec![vec![(Fr::ONE, 1)]],
    };
    let copy = index.clone();
    assert_eq!(index, copy);
    assert_eq!(copy.a[0][0].1, 2);
}
