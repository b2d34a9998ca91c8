use ark_bn254::Fr;
use ark_relations::r1cs::{ConstraintSystem, ConstraintSystemRef, SynthesisError};
use noname_arkworks::arkworks::ArkSystem;
use noname_arkworks::system::{
    CompiledR1cs, SourceConstraint, SourceLc, Term, TargetSystem, Var,
};
use noname_arkworks::translate::{make_index, make_lc};
use noname_arkworks::NoNameCircuit;

/// The BN254 scalar field's modulus minus one, as base-2^32 digits.
fn minus_one() -> Vec<u32> {
    vec![
        0xf0000000, 0x43e1f593, 0x79b97091, 0x2833e848, 0x8181585d, 0xb85045b6, 0xe131a029,
        0x30644e72,
    ]
}

fn lc(terms: &[(usize, u32)], constant: u32) -> SourceLc {
    SourceLc {
        terms: terms.iter().map(|&(index, c)| Term { index, coeff: vec![c] }).collect(),
        constant: if constant == 0 { vec![] } else { vec![constant] },
    }
}

fn constraint(a: SourceLc, b: SourceLc, c: SourceLc) -> SourceConstraint {
    SourceConstraint { a, b, c }
}

/// `fn main(pub public_input: Field, private_input: Field)` with
/// `xx = private_input + public_input`, `yy = private_input * public_input`
/// and `assert_eq(xx, yy)`, compiled to rank-1 constraints. Witness layout:
/// `[1, public_input, private_input, yy]`.
fn simple_addition() -> CompiledR1cs {
    CompiledR1cs {
        public_inputs: vec![1],
        public_outputs: vec![],
        constraints: vec![
            constraint(lc(&[(2, 1)], 0), lc(&[(1, 1)], 0), lc(&[(3, 1)], 0)),
            constraint(lc(&[(2, 1), (1, 1)], 0), lc(&[], 1), lc(&[(3, 1)], 0)),
        ],
    }
}

/// `fn main(pub public_input: [Field; 2], private_input: [Field; 2]) -> [Field; 2]`
/// with `xx = private_input[0] + public_input[0]`,
/// `yy = private_input[1] * public_input[1]`, `assert_eq(yy, xx)` and
/// `return [xx, yy]`. Witness layout:
/// `[1, out0, out1, pub0, pub1, priv0, priv1, yy]`.
fn with_public_output_array() -> CompiledR1cs {
    CompiledR1cs {
        public_inputs: vec![3, 4],
        public_outputs: vec![1, 2],
        constraints: vec![
            constraint(lc(&[(6, 1)], 0), lc(&[(4, 1)], 0), lc(&[(7, 1)], 0)),
            constraint(lc(&[(7, 1)], 0), lc(&[], 1), lc(&[(5, 1), (3, 1)], 0)),
            constraint(lc(&[(5, 1), (3, 1)], 0), lc(&[], 1), lc(&[(1, 1)], 0)),
            constraint(lc(&[(7, 1)], 0), lc(&[], 1), lc(&[(2, 1)], 0)),
        ],
    }
}

fn witness(values: &[u32]) -> Vec<Vec<u32>> {
    values.iter().map(|&v| vec![v]).collect()
}

fn emit(circuit: NoNameCircuit) -> (ConstraintSystemRef<Fr>, Result<(), SynthesisError>) {
    let cs = ConstraintSystem::<Fr>::new_ref();
    let mut sys = ArkSystem { cs: cs.clone() };
    let r = circuit.generate_constraints(&mut sys);
    (cs, r)
}

#[test]
fn cs_is_satisfied() {
    let circuit = NoNameCircuit {
        compiled_circuit: simple_addition(),
        witness: witness(&[1, 2, 2, 4]),
    };
    let (cs, r) = emit(circuit);
    r.unwrap();
    assert!(cs.is_satisfied().unwrap());
}

#[test]
fn cs_is_satisfied_array() {
    let circuit = NoNameCircuit {
        compiled_circuit: with_public_output_array(),
        witness: witness(&[1, 10, 10, 2, 5, 8, 2, 10]),
    };
    let (cs, r) = emit(circuit);
    r.unwrap();
    assert!(cs.is_satisfied().unwrap());
}

#[test]
fn array_circuit_declares_four_instance_variables() {
    let circuit = NoNameCircuit {
        compiled_circuit: with_public_output_array(),
        witness: witness(&[1, 10, 10, 2, 5, 8, 2, 10]),
    };
    let ts: TargetSystem = circuit.translate();
    assert_eq!(ts.instance, witness(&[10, 10, 2, 5]));
    assert_eq!(ts.witness, witness(&[8, 2, 10]));
    assert_eq!(ts.constraints.len(), 4);
    let (cs, r) = emit(circuit);
    r.unwrap();
    // arkworks counts its constant one among the instance variables
    assert_eq!(cs.num_instance_variables(), 5);
    assert_eq!(cs.num_witness_variables(), 3);
    assert_eq!(cs.num_constraints(), 4);
}

#[test]
fn inconsistent_witness_is_unsatisfied() {
    // public_input = 2, private_input = 3: xx = 5, yy = 6
    let circuit = NoNameCircuit {
        compiled_circuit: simple_addition(),
        witness: witness(&[1, 2, 3, 6]),
    };
    let (cs, r) = emit(circuit);
    r.unwrap();
    assert!(!cs.is_satisfied().unwrap());
}

#[test]
fn tampered_witness_entries_are_rejected() {
    let good = [1, 10, 10, 2, 5, 8, 2, 10];
    for i in 1..good.len() {
        let mut values = good;
        values[i] += 1;
        let circuit = NoNameCircuit {
            compiled_circuit: with_public_output_array(),
            witness: witness(&values),
        };
        let (cs, r) = emit(circuit);
        r.unwrap();
        assert!(!cs.is_satisfied().unwrap(), "entry {} tampered", i);
    }
}

#[test]
fn make_index_maps_the_partition() {
    assert_eq!(make_index(0, 2), Var::One);
    assert_eq!(make_index(1, 2), Var::Instance(1));
    assert_eq!(make_index(2, 2), Var::Instance(2));
    assert_eq!(make_index(3, 2), Var::Witness(0));
    assert_eq!(make_index(7, 2), Var::Witness(4));
    assert_eq!(make_index(0, 0), Var::One);
    assert_eq!(make_index(1, 0), Var::Witness(0));
}

#[test]
fn make_lc_keeps_terms_and_appends_the_constant() {
    let src = SourceLc {
        terms: vec![
            Term { index: 3, coeff: minus_one() },
            Term { index: 1, coeff: vec![7] },
        ],
        constant: vec![5, 1],
    };
    let t = make_lc(&src, 2);
    assert_eq!(t.terms.len(), 3);
    assert_eq!(t.terms[0].coeff, minus_one());
    assert_eq!(t.terms[0].var, Var::Witness(0));
    assert_eq!(t.terms[1].coeff, vec![7]);
    assert_eq!(t.terms[1].var, Var::Instance(1));
    assert_eq!(t.terms[2].coeff, vec![5, 1]);
    assert_eq!(t.terms[2].var, Var::One);
}

#[test]
fn large_coefficients_reach_the_field_exactly() {
    // public x = 3; constraint x * (-1) == y with y = -3
    let mut y = minus_one();
    y[0] -= 2;
    let circuit = NoNameCircuit {
        compiled_circuit: CompiledR1cs {
            public_inputs: vec![1],
            public_outputs: vec![],
            constraints: vec![constraint(
                lc(&[(1, 1)], 0),
                SourceLc { terms: vec![], constant: minus_one() },
                lc(&[(2, 1)], 0),
            )],
        },
        witness: vec![vec![1], vec![3], y],
    };
    let (cs, r) = emit(circuit);
    r.unwrap();
    assert!(cs.is_satisfied().unwrap());
}

#[test]
fn truncated_coefficient_is_unsatisfied() {
    // the same system with y = 2^32 - 3, which is not -3 in the field
    let circuit = NoNameCircuit {
        compiled_circuit: CompiledR1cs {
            public_inputs: vec![1],
            public_outputs: vec![],
            constraints: vec![constraint(
                lc(&[(1, 1)], 0),
                SourceLc { terms: vec![], constant: minus_one() },
                lc(&[(2, 1)], 0),
            )],
        },
        witness: vec![vec![1], vec![3], vec![0xfffffffd]],
    };
    let (cs, r) = emit(circuit);
    r.unwrap();
    assert!(!cs.is_satisfied().unwrap());
}

#[test]
fn missing_constraint_system_is_an_error() {
    let circuit = NoNameCircuit {
        compiled_circuit: simple_addition(),
        witness: witness(&[1, 2, 2, 4]),
    };
    let mut sys = ArkSystem { cs: ConstraintSystemRef::None };
    assert_eq!(circuit.generate_constraints(&mut sys), Err(SynthesisError::MissingCS));
}

#[test]
fn empty_witness_declares_nothing() {
    let circuit = NoNameCircuit {
        compiled_circuit: CompiledR1cs {
            public_inputs: vec![],
            public_outputs: vec![],
            constraints: vec![],
        },
        witness: vec![],
    };
    let ts = circuit.translate();
    assert!(ts.instance.is_empty());
    assert!(ts.witness.is_empty());
    assert!(ts.constraints.is_empty());
}

#[test]
fn only_the_constant_is_skipped() {
    let circuit = NoNameCircuit {
        compiled_circuit: CompiledR1cs {
            public_inputs: vec![1],
            public_outputs: vec![],
            constraints: vec![],
        },
        witness: witness(&[1, 9]),
    };
    let ts = circuit.translate();
    assert_eq!(ts.instance, witness(&[9]));
    assert!(ts.witness.is_empty());
}

#[test]
fn declared_values_follow_witness_order() {
    let circuit = NoNameCircuit {
        compiled_circuit: with_public_output_array(),
        witness: witness(&[1, 10, 10, 2, 5, 8, 2, 10]),
    };
    let (cs, r) = emit(circuit);
    r.unwrap();
    let inner = cs.borrow().unwrap();
    let fr = |v: u64| Fr::from(v);
    assert_eq!(inner.instance_assignment, vec![fr(1), fr(10), fr(10), fr(2), fr(5)]);
    assert_eq!(inner.witness_assignment, vec![fr(8), fr(2), fr(10)]);
}

#[test]
fn values_are_reduced_modulo_the_field() {
    // the modulus plus two, and the modulus minus three
    let mut over = minus_one();
    over[0] += 3;
    let mut y = minus_one();
    y[0] -= 2;
    let circuit = NoNameCircuit {
        compiled_circuit: CompiledR1cs {
            public_inputs: vec![1],
            public_outputs: vec![],
            constraints: vec![],
        },
        witness: vec![vec![1], over, y],
    };
    let (cs, r) = emit(circuit);
    r.unwrap();
    let inner = cs.borrow().unwrap();
    assert_eq!(inner.instance_assignment, vec![Fr::from(1u64), Fr::from(2u64)]);
    assert_eq!(inner.witness_assignment, vec![-Fr::from(3u64)]);
}

#[test]
fn coefficients_reach_the_matrices() {
    // public x; constraint x * (-1 + 0 * x) == y, with y the one witness variable
    let circuit = NoNameCircuit {
        compiled_circuit: CompiledR1cs {
            public_inputs: vec![1],
            public_outputs: vec![],
            constraints: vec![constraint(
                lc(&[(1, 1)], 0),
                SourceLc { terms: vec![], constant: minus_one() },
                lc(&[(2, 5)], 0),
            )],
        },
        witness: vec![vec![1], vec![3], vec![7]],
    };
    let (cs, r) = emit(circuit);
    r.unwrap();
    let m = cs.to_matrices().unwrap();
    // the constant's column is 0, instance 1 is column 1, witness 0 follows them
    assert_eq!(m.a[0], vec![(Fr::from(1u64), 1)]);
    assert_eq!(m.b[0], vec![(-Fr::from(1u64), 0)]);
    assert_eq!(m.c[0], vec![(Fr::from(5u64), 2)]);
}
