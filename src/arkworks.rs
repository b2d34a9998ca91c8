use vstd::prelude::*;
use ark_bn254::Fr;
use ark_relations::r1cs::{ConstraintSystemRef, LinearCombination, SynthesisError, Variable};
use num_bigint::BigUint;
use crate::field::{Limbs, limbs_value};
use crate::system::{TargetConstraint, TargetLc, TargetSystem, TargetTerm, Var};

verus! {

#[verifier::external_type_specification]
#[verifier::external_body]
pub struct ExSynthesisError(SynthesisError);

/// An arkworks constraint system over the BN254 scalar field, the target that
/// a translation is emitted into. The handle is reached only through the
/// wrappers below.
#[verifier::external_body]
pub struct ArkSystem {
    pub cs: ConstraintSystemRef<Fr>,
}

/// An arkworks linear combination over the BN254 scalar field, reached only
/// through the wrappers below.
#[verifier::external_body]
pub struct ArkLc {
    lc: LinearCombination<Fr>,
}

/// Number of instance variables that the constraint system holds, the
/// constant one included.
pub uninterp spec fn ark_instance_count(s: ArkSystem) -> nat;

/// Number of witness variables that the constraint system holds.
pub uninterp spec fn ark_witness_count(s: ArkSystem) -> nat;

/// Number of constraints that the constraint system holds.
pub uninterp spec fn ark_constraint_count(s: ArkSystem) -> nat;

/// Whether the constraint system is in setup mode, where it counts variables
/// but keeps no values for them.
pub uninterp spec fn ark_setup_mode(s: ArkSystem) -> bool;

/// Canonical integer values of the instance assignment that the constraint
/// system keeps, the constant one included.
pub uninterp spec fn ark_instance_values(s: ArkSystem) -> Seq<nat>;

/// Canonical integer values of the witness assignment that the constraint
/// system keeps.
pub uninterp spec fn ark_witness_values(s: ArkSystem) -> Seq<nat>;

/// Whether the handle holds a constraint system (it is not
/// `ConstraintSystemRef::None`).
pub uninterp spec fn ark_has_cs(s: ArkSystem) -> bool;

/// Whether the constraint system records the combinations of the constraints
/// that it is given (`should_construct_matrices`).
pub uninterp spec fn ark_builds_matrices(s: ArkSystem) -> bool;

/// The constraints that the constraint system has recorded, in order, each
/// as the coefficient maps of its three combinations.
pub uninterp spec fn ark_constraints(s: ArkSystem) -> Seq<(Map<Var, nat>, Map<Var, nat>, Map<Var, nat>)>;

/// The coefficient, a canonical integer, that the combination gives each
/// variable it names.
pub uninterp spec fn ark_lc_terms(l: ArkLc) -> Map<Var, nat>;

/// The coefficient of `v` in a coefficient map; zero where it is absent.
pub open spec fn coeff_of(m: Map<Var, nat>, v: Var) -> nat {
    if m.contains_key(v) {
        m[v]
    } else {
        0
    }
}

/// The coefficient of `v` in a target combination: the sum of the
/// coefficients of its terms on `v`, reduced modulo the field's modulus.
pub open spec fn target_coeff(terms: Seq<TargetTerm>, v: Var) -> nat
    decreases terms.len(),
{
    if terms.len() == 0 {
        0
    } else {
        ((target_coeff(terms.drop_last(), v) + if terms.last().var == v {
            limbs_value(terms.last().coeff@)
        } else {
            0
        }) % fr_modulus()) as nat
    }
}

/// A recorded constraint gives every variable the coefficients that the
/// target constraint `c` gives it.
pub open spec fn row_matches(
    row: (Map<Var, nat>, Map<Var, nat>, Map<Var, nat>),
    c: TargetConstraint,
) -> bool {
    forall|v: Var|
        {
            &&& #[trigger] coeff_of(row.0, v) == target_coeff(c.a.terms@, v)
            &&& coeff_of(row.1, v) == target_coeff(c.b.terms@, v)
            &&& coeff_of(row.2, v) == target_coeff(c.c.terms@, v)
        }
}

/// The modulus of the BN254 scalar field,
/// 0x30644e72e131a029b85045b68181585d2833e84879b9709143e1f593f0000001.
pub open spec fn fr_modulus() -> nat {
    limbs_value(
        seq![
            0xf0000001u32,
            0x43e1f593u32,
            0x79b97091u32,
            0x2833e848u32,
            0x8181585du32,
            0xb85045b6u32,
            0xe131a029u32,
            0x30644e72u32,
        ],
    )
}

proof fn lemma_fr_modulus_positive()
    ensures
        fr_modulus() > 0,
{
    let s = seq![
        0xf0000001u32,
        0x43e1f593u32,
        0x79b97091u32,
        0x2833e848u32,
        0x8181585du32,
        0xb85045b6u32,
        0xe131a029u32,
        0x30644e72u32,
    ];
    assert(limbs_value(s) == s[0] as nat + 0x1_0000_0000 * limbs_value(s.drop_first()));
    assert(s[0] == 0xf0000001u32);
}

/// A combination's coefficient is a field value.
proof fn lemma_target_coeff_reduced(terms: Seq<TargetTerm>, v: Var)
    ensures
        target_coeff(terms, v) < fr_modulus(),
{
    lemma_fr_modulus_positive();
}

/// The field values of a sequence of digit vectors.
pub open spec fn reduced(vals: Seq<Limbs>) -> Seq<nat> {
    Seq::new(vals.len(), |k: int| limbs_value(vals[k]@) % fr_modulus())
}


/// Relies on `ConstraintSystemRef::new_input_variable` (ark-relations), fed
/// through `From<BigUint> for Fp` (ark-ff): on success it declares one more
/// instance variable, holding the digits' value reduced modulo the field's
/// modulus; it fails, declaring nothing, exactly when the handle holds no
/// system.
#[verifier::external_body]
fn new_input_variable(sys: &mut ArkSystem, value: &Limbs) -> (r: Result<(), SynthesisError>)
    ensures
        r is Ok ==> ark_instance_count(*final(sys)) == ark_instance_count(*old(sys)) + 1,
        r is Err ==> ark_instance_count(*final(sys)) == ark_instance_count(*old(sys)),
        ark_witness_count(*final(sys)) == ark_witness_count(*old(sys)),
        ark_constraint_count(*final(sys)) == ark_constraint_count(*old(sys)),
        ark_setup_mode(*final(sys)) == ark_setup_mode(*old(sys)),
        r is Ok && !ark_setup_mode(*old(sys)) ==> ark_instance_values(*final(sys))
            == ark_instance_values(*old(sys)).push(limbs_value(value@) % fr_modulus()),
        r is Err || ark_setup_mode(*old(sys)) ==> ark_instance_values(*final(sys))
            == ark_instance_values(*old(sys)),
        ark_witness_values(*final(sys)) == ark_witness_values(*old(sys)),
        ark_constraints(*final(sys)) == ark_constraints(*old(sys)),
        r is Ok <==> ark_has_cs(*old(sys)),
        ark_has_cs(*final(sys)) == ark_has_cs(*old(sys)),
        ark_builds_matrices(*final(sys)) == ark_builds_matrices(*old(sys)),
{
    let fe = Fr::from(BigUint::new(value.clone()));
    sys.cs.new_input_variable(|| Ok(fe)).map(|_| ())
}

/// Relies on `ConstraintSystemRef::new_witness_variable` (ark-relations), fed
/// through `From<BigUint> for Fp` (ark-ff): on success it declares one more
/// witness variable, holding the digits' value reduced modulo the field's
/// modulus; it fails, declaring nothing, exactly when the handle holds no
/// system.
#[verifier::external_body]
fn new_witness_variable(sys: &mut ArkSystem, value: &Limbs) -> (r: Result<(), SynthesisError>)
    ensures
        r is Ok ==> ark_witness_count(*final(sys)) == ark_witness_count(*old(sys)) + 1,
        r is Err ==> ark_witness_count(*final(sys)) == ark_witness_count(*old(sys)),
        ark_instance_count(*final(sys)) == ark_instance_count(*old(sys)),
        ark_constraint_count(*final(sys)) == ark_constraint_count(*old(sys)),
        ark_setup_mode(*final(sys)) == ark_setup_mode(*old(sys)),
        r is Ok && !ark_setup_mode(*old(sys)) ==> ark_witness_values(*final(sys))
            == ark_witness_values(*old(sys)).push(limbs_value(value@) % fr_modulus()),
        r is Err || ark_setup_mode(*old(sys)) ==> ark_witness_values(*final(sys))
            == ark_witness_values(*old(sys)),
        ark_instance_values(*final(sys)) == ark_instance_values(*old(sys)),
        ark_constraints(*final(sys)) == ark_constraints(*old(sys)),
        r is Ok <==> ark_has_cs(*old(sys)),
        ark_has_cs(*final(sys)) == ark_has_cs(*old(sys)),
        ark_builds_matrices(*final(sys)) == ark_builds_matrices(*old(sys)),
{
    let fe = Fr::from(BigUint::new(value.clone()));
    sys.cs.new_witness_variable(|| Ok(fe)).map(|_| ())
}

/// Relies on `ConstraintSystemRef::enforce_constraint` (ark-relations): on
/// success it counts one more constraint `a * b == c`, and records its
/// combinations where it builds matrices; it fails, changing nothing, exactly
/// when the handle holds no system.
#[verifier::external_body]
fn enforce_constraint(sys: &mut ArkSystem, a: ArkLc, b: ArkLc, c: ArkLc) -> (r: Result<
    (),
    SynthesisError,
>)
    ensures
        r is Ok ==> ark_constraint_count(*final(sys)) == ark_constraint_count(*old(sys)) + 1,
        r is Err ==> ark_constraint_count(*final(sys)) == ark_constraint_count(*old(sys)),
        ark_instance_count(*final(sys)) == ark_instance_count(*old(sys)),
        ark_witness_count(*final(sys)) == ark_witness_count(*old(sys)),
        ark_setup_mode(*final(sys)) == ark_setup_mode(*old(sys)),
        ark_instance_values(*final(sys)) == ark_instance_values(*old(sys)),
        ark_witness_values(*final(sys)) == ark_witness_values(*old(sys)),
        r is Ok <==> ark_has_cs(*old(sys)),
        ark_has_cs(*final(sys)) == ark_has_cs(*old(sys)),
        ark_builds_matrices(*final(sys)) == ark_builds_matrices(*old(sys)),
        r is Ok && ark_builds_matrices(*old(sys)) ==> ark_constraints(*final(sys))
            == ark_constraints(*old(sys)).push((ark_lc_terms(a), ark_lc_terms(b), ark_lc_terms(c))),
        !(r is Ok && ark_builds_matrices(*old(sys))) ==> ark_constraints(*final(sys))
            == ark_constraints(*old(sys)),
{
    sys.cs.enforce_constraint(a.lc, b.lc, c.lc)
}

/// Relies on `LinearCombination::zero` (ark-relations): the combination
/// without terms.
#[verifier::external_body]
fn lc_zero() -> (r: ArkLc)
    ensures
        forall|v: Var| #[trigger] coeff_of(ark_lc_terms(r), v) == 0,
{
    ArkLc { lc: LinearCombination::zero() }
}

/// Relies on `AddAssign<(F, Variable)> for LinearCombination`
/// (ark-relations), fed through `From<BigUint> for Fp` (ark-ff): adds
/// `coeff * var`, adding to the coefficient that `var` has already, or
/// inserting it.
#[verifier::external_body]
fn lc_add_term(lc: &mut ArkLc, coeff: &Limbs, var: Var)
    ensures
        forall|u: Var|
            #[trigger] coeff_of(ark_lc_terms(*final(lc)), u) == if u == var {
                ((coeff_of(ark_lc_terms(*old(lc)), u) + limbs_value(coeff@)) % fr_modulus()) as nat
            } else {
                coeff_of(ark_lc_terms(*old(lc)), u)
            },
{
    let var = match var {
        Var::One => Variable::One,
        Var::Instance(n) => Variable::Instance(n),
        Var::Witness(n) => Variable::Witness(n),
    };
    lc.lc += (Fr::from(BigUint::new(coeff.clone())), var);
}

/// Builds the arkworks linear combination of a target one, term by term.
fn ark_lc(t: &TargetLc) -> (r: ArkLc)
    ensures
        forall|v: Var| #[trigger] coeff_of(ark_lc_terms(r), v) == target_coeff(t.terms@, v),
{
    let mut lc = lc_zero();
    let mut i: usize = 0;
    while i < t.terms.len()
        invariant
            i <= t.terms.len(),
            forall|v: Var|
                #[trigger] coeff_of(ark_lc_terms(lc), v) == target_coeff(t.terms@.take(i as int), v),
        decreases t.terms.len() - i,
    {
        let term = &t.terms[i];
        let ghost prev = lc;
        lc_add_term(&mut lc, &term.coeff, term.var);
        proof {
            let s1 = t.terms@.take(i + 1);
            assert(s1.drop_last() =~= t.terms@.take(i as int));
            assert(s1.last() == t.terms[i as int]);
            assert forall|v: Var| #[trigger] coeff_of(ark_lc_terms(lc), v) == target_coeff(s1, v) by {
                lemma_target_coeff_reduced(t.terms@.take(i as int), v);
                assert(coeff_of(ark_lc_terms(prev), v) == target_coeff(t.terms@.take(i as int), v));
                if v != term.var {
                    vstd::arithmetic::div_mod::lemma_small_mod(
                        target_coeff(t.terms@.take(i as int), v),
                        fr_modulus(),
                    );
                }
            }
        }
        i = i + 1;
    }
    assert(t.terms@.take(i as int) =~= t.terms@);
    lc
}

/// Declares the system's instance variables, then its witness variables, each
/// in order, and enforces its constraints in order. The first error of the
/// constraint system is handed back as it came, and nothing after it is
/// declared or enforced.
pub fn emit(ts: &TargetSystem, sys: &mut ArkSystem) -> (r: Result<(), SynthesisError>)
    ensures
        r is Ok ==> {
            &&& ark_instance_count(*final(sys)) == ark_instance_count(*old(sys)) + ts.instance.len()
            &&& ark_witness_count(*final(sys)) == ark_witness_count(*old(sys)) + ts.witness.len()
            &&& ark_constraint_count(*final(sys)) == ark_constraint_count(*old(sys))
                + ts.constraints.len()
        },
        ark_setup_mode(*final(sys)) == ark_setup_mode(*old(sys)),
        r is Ok && !ark_setup_mode(*old(sys)) ==> {
            &&& ark_instance_values(*final(sys)) == ark_instance_values(*old(sys)) + reduced(
                ts.instance@,
            )
            &&& ark_witness_values(*final(sys)) == ark_witness_values(*old(sys)) + reduced(
                ts.witness@,
            )
        },
        r is Ok <==> (ark_has_cs(*old(sys)) || ts.instance.len() + ts.witness.len()
            + ts.constraints.len() == 0),
        ark_has_cs(*final(sys)) == ark_has_cs(*old(sys)),
        ark_builds_matrices(*final(sys)) == ark_builds_matrices(*old(sys)),
        r is Ok && ark_builds_matrices(*old(sys)) ==> {
            &&& ark_constraints(*final(sys)).len() == ark_constraints(*old(sys)).len()
                + ts.constraints.len()
            &&& ark_constraints(*final(sys)).subrange(0, ark_constraints(*old(sys)).len() as int)
                == ark_constraints(*old(sys))
            &&& forall|j: int|
                0 <= j < ts.constraints.len() ==> row_matches(
                    #[trigger] ark_constraints(*final(sys))[ark_constraints(*old(sys)).len() + j],
                    ts.constraints[j],
                )
        },
{
    let mut i: usize = 0;
    assert(reduced(ts.instance@.take(0)) =~= Seq::<nat>::empty());
    assert(reduced(ts.witness@.take(0)) =~= Seq::<nat>::empty());
    assert(ark_instance_values(*sys) + Seq::<nat>::empty() =~= ark_instance_values(*sys));
    assert(ark_witness_values(*sys) + Seq::<nat>::empty() =~= ark_witness_values(*sys));
    while i < ts.instance.len()
        invariant
            i <= ts.instance.len(),
            ark_instance_count(*sys) == ark_instance_count(*old(sys)) + i,
            ark_witness_count(*sys) == ark_witness_count(*old(sys)),
            ark_constraint_count(*sys) == ark_constraint_count(*old(sys)),
            ark_setup_mode(*sys) == ark_setup_mode(*old(sys)),
            !ark_setup_mode(*old(sys)) ==> ark_instance_values(*sys) == ark_instance_values(*old(sys))
                + reduced(ts.instance@.take(i as int)),
            !ark_setup_mode(*old(sys)) ==> ark_witness_values(*sys) == ark_witness_values(*old(sys)),
            ark_has_cs(*sys) == ark_has_cs(*old(sys)),
            ark_builds_matrices(*sys) == ark_builds_matrices(*old(sys)),
            ark_constraints(*sys) == ark_constraints(*old(sys)),
            ark_has_cs(*old(sys)) || i == 0,
        decreases ts.instance.len() - i,
    {
        proof {
            assert(reduced(ts.instance@.take(i + 1)) =~= reduced(ts.instance@.take(i as int)).push(
                limbs_value(ts.instance[i as int]@) % fr_modulus(),
            ));
        }
        match new_input_variable(sys, &ts.instance[i]) {
            Ok(_) => {},
            Err(e) => {
                return Err(e);
            },
        }
        i = i + 1;
    }
    assert(ts.instance@.take(i as int) =~= ts.instance@);
    let mut k: usize = 0;
    while k < ts.witness.len()
        invariant
            k <= ts.witness.len(),
            ark_instance_count(*sys) == ark_instance_count(*old(sys)) + ts.instance.len(),
            ark_witness_count(*sys) == ark_witness_count(*old(sys)) + k,
            ark_constraint_count(*sys) == ark_constraint_count(*old(sys)),
            ark_setup_mode(*sys) == ark_setup_mode(*old(sys)),
            !ark_setup_mode(*old(sys)) ==> ark_instance_values(*sys) == ark_instance_values(*old(sys))
                + reduced(ts.instance@),
            !ark_setup_mode(*old(sys)) ==> ark_witness_values(*sys) == ark_witness_values(*old(sys))
                + reduced(ts.witness@.take(k as int)),
            ark_has_cs(*sys) == ark_has_cs(*old(sys)),
            ark_builds_matrices(*sys) == ark_builds_matrices(*old(sys)),
            ark_constraints(*sys) == ark_constraints(*old(sys)),
            ark_has_cs(*old(sys)) || (k == 0 && ts.instance.len() == 0),
        decreases ts.witness.len() - k,
    {
        proof {
            assert(reduced(ts.witness@.take(k + 1)) =~= reduced(ts.witness@.take(k as int)).push(
                limbs_value(ts.witness[k as int]@) % fr_modulus(),
            ));
        }
        match new_witness_variable(sys, &ts.witness[k]) {
            Ok(_) => {},
            Err(e) => {
                return Err(e);
            },
        }
        k = k + 1;
    }
    assert(ts.witness@.take(k as int) =~= ts.witness@);
    let mut j: usize = 0;
    while j < ts.constraints.len()
        invariant
            j <= ts.constraints.len(),
            ark_instance_count(*sys) == ark_instance_count(*old(sys)) + ts.instance.len(),
            ark_witness_count(*sys) == ark_witness_count(*old(sys)) + ts.witness.len(),
            ark_constraint_count(*sys) == ark_constraint_count(*old(sys)) + j,
            ark_setup_mode(*sys) == ark_setup_mode(*old(sys)),
            !ark_setup_mode(*old(sys)) ==> ark_instance_values(*sys) == ark_instance_values(*old(sys))
                + reduced(ts.instance@),
            !ark_setup_mode(*old(sys)) ==> ark_witness_values(*sys) == ark_witness_values(*old(sys))
                + reduced(ts.witness@),
            ark_has_cs(*sys) == ark_has_cs(*old(sys)),
            ark_builds_matrices(*sys) == ark_builds_matrices(*old(sys)),
            ark_has_cs(*old(sys)) || (j == 0 && ts.instance.len() == 0 && ts.witness.len() == 0),
            ark_builds_matrices(*old(sys)) ==> {
                &&& ark_constraints(*sys).len() == ark_constraints(*old(sys)).len() + j
                &&& ark_constraints(*sys).subrange(0, ark_constraints(*old(sys)).len() as int)
                    == ark_constraints(*old(sys))
                &&& forall|q: int|
                    0 <= q < j ==> row_matches(
                        #[trigger] ark_constraints(*sys)[ark_constraints(*old(sys)).len() + q],
                        ts.constraints[q],
                    )
            },
        decreases ts.constraints.len() - j,
    {
        let c = &ts.constraints[j];
        let a = ark_lc(&c.a);
        let b = ark_lc(&c.b);
        let cc = ark_lc(&c.c);
        let ghost before = ark_constraints(*sys);
        let ghost row = (ark_lc_terms(a), ark_lc_terms(b), ark_lc_terms(cc));
        match enforce_constraint(sys, a, b, cc) {
            Ok(_) => {},
            Err(e) => {
                return Err(e);
            },
        }
        proof {
            if ark_builds_matrices(*old(sys)) {
                let n0 = ark_constraints(*old(sys)).len();
                let after = ark_constraints(*sys);
                assert(after == before.push(row));
                assert(after.subrange(0, n0 as int) =~= before.subrange(0, n0 as int));
                assert(row_matches(row, ts.constraints[j as int]));
                assert forall|q: int| 0 <= q < j + 1 implies row_matches(
                    #[trigger] after[n0 + q],
                    ts.constraints[q],
                ) by {
                    if q < j {
                        assert(after[n0 + q] == before[n0 + q]);
                    } else {
                        assert(after[n0 + q] == row);
                    }
                }
            }
        }
        j = j + 1;
    }
    Ok(())
}

} // verus!
