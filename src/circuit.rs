use vstd::prelude::*;
use ark_relations::r1cs::SynthesisError;
use crate::arkworks::{
    ark_builds_matrices, ark_constraint_count, ark_constraints, ark_has_cs, ark_instance_count,
    ark_instance_values, ark_setup_mode, ark_witness_count, ark_witness_values, coeff_of, emit,
    reduced, row_matches, ArkSystem,
};
use crate::laws::{lemma_translated_coefficients, row_from_source, source_coeff};
use crate::field::Limbs;
use crate::system::{CompiledR1cs, TargetSystem, Var};
use crate::translate::{translate, translation_of};

verus! {

/// A compiled circuit together with the witness generated for it.
pub struct NoNameCircuit {
    pub compiled_circuit: CompiledR1cs,
    pub witness: Vec<Limbs>,
}

impl NoNameCircuit {
    /// Number of witness entries after the constant that become instance
    /// variables.
    pub open spec fn num_instance(&self) -> nat {
        if self.witness.len() == 0 {
            0
        } else {
            vstd::math::min(self.compiled_circuit.public_len() as int, self.witness.len() - 1) as nat
        }
    }

    /// Number of witness entries that become witness variables.
    pub open spec fn num_witness(&self) -> nat {
        let p = self.compiled_circuit.public_len();
        if self.witness.len() > p + 1 {
            (self.witness.len() - (p + 1)) as nat
        } else {
            0
        }
    }

    /// The witness entries that become instance variables, in order.
    pub open spec fn instance_entries(&self) -> Seq<Limbs> {
        if self.witness.len() == 0 {
            Seq::empty()
        } else {
            self.witness@.subrange(1, 1 + self.num_instance() as int)
        }
    }

    /// The witness entries that become witness variables, in order.
    pub open spec fn witness_entries(&self) -> Seq<Limbs> {
        self.witness@.subrange(self.witness.len() - self.num_witness(), self.witness.len() as int)
    }

    /// The translated constraint system, with its assignment.
    pub fn translate(&self) -> (r: TargetSystem)
        requires
            self.compiled_circuit.public_len() <= usize::MAX,
        ensures
            translation_of(self.compiled_circuit, self.witness@, r),
    {
        translate(&self.compiled_circuit, &self.witness)
    }

    /// Translates the circuit and emits it into the arkworks constraint
    /// system: one instance or witness variable per witness entry after the
    /// constant, in witness order, then one constraint per compiled
    /// constraint, in order. An error of the constraint system ends the
    /// emission and is handed back as it came.
    pub fn generate_constraints(self, sys: &mut ArkSystem) -> (r: Result<(), SynthesisError>)
        requires
            self.compiled_circuit.public_len() <= usize::MAX,
        ensures
            r is Ok ==> {
                &&& ark_instance_count(*final(sys)) == ark_instance_count(*old(sys))
                    + self.num_instance()
                &&& ark_witness_count(*final(sys)) == ark_witness_count(*old(sys))
                    + self.num_witness()
                &&& ark_constraint_count(*final(sys)) == ark_constraint_count(*old(sys))
                    + self.compiled_circuit.constraints.len()
            },
            ark_setup_mode(*final(sys)) == ark_setup_mode(*old(sys)),
            r is Ok && !ark_setup_mode(*old(sys)) ==> {
                &&& ark_instance_values(*final(sys)) == ark_instance_values(*old(sys)) + reduced(
                    self.instance_entries(),
                )
                &&& ark_witness_values(*final(sys)) == ark_witness_values(*old(sys)) + reduced(
                    self.witness_entries(),
                )
            },
            r is Ok <==> (ark_has_cs(*old(sys)) || self.num_instance() + self.num_witness()
                + self.compiled_circuit.constraints.len() == 0),
            ark_has_cs(*final(sys)) == ark_has_cs(*old(sys)),
            ark_builds_matrices(*final(sys)) == ark_builds_matrices(*old(sys)),
            r is Ok && ark_builds_matrices(*old(sys)) ==> {
                &&& ark_constraints(*final(sys)).len() == ark_constraints(*old(sys)).len()
                    + self.compiled_circuit.constraints.len()
                &&& ark_constraints(*final(sys)).subrange(
                    0,
                    ark_constraints(*old(sys)).len() as int,
                ) == ark_constraints(*old(sys))
                &&& forall|j: int|
                    0 <= j < self.compiled_circuit.constraints.len() ==> row_from_source(
                        #[trigger] ark_constraints(*final(sys))[ark_constraints(*old(sys)).len()
                            + j],
                        self.compiled_circuit.constraints[j],
                        self.compiled_circuit.public_len(),
                    )
            },
    {
        let ts = self.translate();
        proof {
            assert(reduced(ts.instance@) =~= reduced(self.instance_entries()));
            assert(reduced(ts.witness@) =~= reduced(self.witness_entries()));
        }
        let r = emit(&ts, sys);
        proof {
            let p = self.compiled_circuit.public_len();
            let n0 = ark_constraints(*old(sys)).len();
            if r is Ok && ark_builds_matrices(*old(sys)) {
                assert forall|j: int| 0 <= j < self.compiled_circuit.constraints.len() implies row_from_source(
                    #[trigger] ark_constraints(*sys)[n0 + j],
                    self.compiled_circuit.constraints[j],
                    p,
                ) by {
                    let row = ark_constraints(*sys)[n0 + j];
                    let src = self.compiled_circuit.constraints[j];
                    let t = ts.constraints[j];
                    assert(ts.constraints.len() == self.compiled_circuit.constraints.len());
                    assert(row_matches(row, t));
                    assert forall|v: Var| {
                        &&& #[trigger] coeff_of(row.0, v) == source_coeff(src.a, p, v)
                        &&& coeff_of(row.1, v) == source_coeff(src.b, p, v)
                        &&& coeff_of(row.2, v) == source_coeff(src.c, p, v)
                    } by {
                        lemma_translated_coefficients(src.a, t.a, p, v);
                        lemma_translated_coefficients(src.b, t.b, p, v);
                        lemma_translated_coefficients(src.c, t.c, p, v);
                    }
                    assert(row_from_source(row, src, p));
                }
            }
        }
        r
    }
}

} // verus!
