use vstd::prelude::*;
use crate::field::{Limbs, limbs_value};

verus! {

/// One term `coeff * var` of a compiled linear combination; `index` is the
/// variable's position in the witness vector.
pub struct Term {
    pub index: usize,
    pub coeff: Limbs,
}

/// `constant + sum of coeff * witness[index]` over the terms.
pub struct SourceLc {
    pub terms: Vec<Term>,
    pub constant: Limbs,
}

/// A compiled constraint `a * b == c`.
pub struct SourceConstraint {
    pub a: SourceLc,
    pub b: SourceLc,
    pub c: SourceLc,
}

/// A compiled rank-1 constraint system: the public input and public output
/// variables, and the constraints over witness indices. Index 0 of the
/// witness is the constant one.
pub struct CompiledR1cs {
    pub public_inputs: Vec<usize>,
    pub public_outputs: Vec<usize>,
    pub constraints: Vec<SourceConstraint>,
}

/// A variable of the target system: the implicit constant one, an instance
/// (public) variable numbered from 1, or a witness (private) variable
/// numbered from 0.
#[derive(Clone, Copy, Debug, PartialEq, Eq, Structural)]
pub enum Var {
    One,
    Instance(usize),
    Witness(usize),
}

/// One term `coeff * var` of a target linear combination.
pub struct TargetTerm {
    pub coeff: Limbs,
    pub var: Var,
}

pub struct TargetLc {
    pub terms: Vec<TargetTerm>,
}

pub struct TargetConstraint {
    pub a: TargetLc,
    pub b: TargetLc,
    pub c: TargetLc,
}

/// A target constraint system with its assignment: `instance[k]` is the value
/// of `Var::Instance(k + 1)`, `witness[k]` that of `Var::Witness(k)`.
pub struct TargetSystem {
    pub instance: Vec<Limbs>,
    pub witness: Vec<Limbs>,
    pub constraints: Vec<TargetConstraint>,
}

impl CompiledR1cs {
    /// Number of public (input and output) variables.
    pub open spec fn public_len(&self) -> nat {
        (self.public_inputs.len() + self.public_outputs.len()) as nat
    }
}

/// Value of the witness entry at `i`, zero outside the witness.
pub open spec fn witness_value(w: Seq<Limbs>, i: int) -> int {
    if 0 <= i < w.len() {
        limbs_value(w[i]@) as int
    } else {
        0
    }
}

pub open spec fn eval_source_terms(terms: Seq<Term>, w: Seq<Limbs>) -> int
    decreases terms.len(),
{
    if terms.len() == 0 {
        0
    } else {
        eval_source_terms(terms.drop_last(), w) + limbs_value(terms.last().coeff@)
            * witness_value(w, terms.last().index as int)
    }
}

/// Integer value of a compiled linear combination under the witness `w`.
pub open spec fn eval_source(lc: SourceLc, w: Seq<Limbs>) -> int {
    eval_source_terms(lc.terms@, w) + limbs_value(lc.constant@)
}

/// `a * b == c` in the field of modulus `m`.
pub open spec fn holds_mod(a: int, b: int, c: int, m: int) -> bool {
    (a * b) % m == c % m
}

/// Every compiled constraint holds under `w` modulo `m`.
pub open spec fn source_satisfied(cs: CompiledR1cs, w: Seq<Limbs>, m: int) -> bool {
    forall|j: int|
        0 <= j < cs.constraints.len() ==> #[trigger] holds_mod(
            eval_source(cs.constraints[j].a, w),
            eval_source(cs.constraints[j].b, w),
            eval_source(cs.constraints[j].c, w),
            m,
        )
}

/// Value that the target system assigns to a variable; zero for a variable
/// that was not declared.
pub open spec fn assigned(ts: TargetSystem, v: Var) -> int {
    match v {
        Var::One => 1,
        Var::Instance(n) => if 1 <= n <= ts.instance.len() {
            limbs_value(ts.instance[n - 1]@) as int
        } else {
            0
        },
        Var::Witness(n) => if n < ts.witness.len() {
            limbs_value(ts.witness[n as int]@) as int
        } else {
            0
        },
    }
}

pub open spec fn eval_target_terms(terms: Seq<TargetTerm>, ts: TargetSystem) -> int
    decreases terms.len(),
{
    if terms.len() == 0 {
        0
    } else {
        eval_target_terms(terms.drop_last(), ts) + limbs_value(terms.last().coeff@)
            * assigned(ts, terms.last().var)
    }
}

/// Integer value of a target linear combination under the system's own
/// assignment.
pub open spec fn eval_target(lc: TargetLc, ts: TargetSystem) -> int {
    eval_target_terms(lc.terms@, ts)
}

/// Every constraint of the target system holds under its assignment modulo `m`.
pub open spec fn target_satisfied(ts: TargetSystem, m: int) -> bool {
    forall|j: int|
        0 <= j < ts.constraints.len() ==> #[trigger] holds_mod(
            eval_target(ts.constraints[j].a, ts),
            eval_target(ts.constraints[j].b, ts),
            eval_target(ts.constraints[j].c, ts),
            m,
        )
}

} // verus!
