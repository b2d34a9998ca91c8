use vstd::prelude::*;
use crate::field::{Limbs, limbs_value};
use crate::system::{
    CompiledR1cs, SourceConstraint, SourceLc, TargetConstraint, TargetLc, TargetSystem,
    TargetTerm, Term, Var,
};

verus! {

/// The target variable that stands for witness index `i` when the first
/// `p` indices after the constant are public.
pub open spec fn index_of(i: nat, p: nat) -> Var {
    if i == 0 {
        Var::One
    } else if i <= p {
        Var::Instance(i as usize)
    } else {
        Var::Witness((i - (p + 1)) as usize)
    }
}

/// Maps a witness index to its target variable.
pub fn make_index(index: usize, public_io_length: usize) -> (r: Var)
    ensures
        r == index_of(index as nat, public_io_length as nat),
{
    if index == 0 {
        Var::One
    } else if index <= public_io_length {
        Var::Instance(index)
    } else {
        Var::Witness(index - (public_io_length + 1))
    }
}

/// `t` is `src` with each term's variable re-indexed by `index_of` and its
/// coefficient kept digit for digit, followed by the constant as a
/// coefficient of `Var::One`.
pub open spec fn lc_translated(src: SourceLc, t: TargetLc, p: nat) -> bool {
    &&& t.terms.len() == src.terms.len() + 1
    &&& forall|j: int|
        0 <= j < src.terms.len() ==> {
            &&& (#[trigger] t.terms[j]).coeff@ == src.terms[j].coeff@
            &&& t.terms[j].var == index_of(src.terms[j].index as nat, p)
        }
    &&& t.terms[src.terms.len() as int].coeff@ == src.constant@
    &&& t.terms[src.terms.len() as int].var == Var::One
}

pub open spec fn constraint_translated(src: SourceConstraint, t: TargetConstraint, p: nat) -> bool {
    &&& lc_translated(src.a, t.a, p)
    &&& lc_translated(src.b, t.b, p)
    &&& lc_translated(src.c, t.c, p)
}

/// `ts` is the translation of the compiled system `cs` with witness `w`:
/// witness entries 1 to `p` become instance variables 1 to `p`, the entries
/// after them witness variables from 0, and each constraint is carried over
/// in order.
pub open spec fn translation_of(cs: CompiledR1cs, w: Seq<Limbs>, ts: TargetSystem) -> bool {
    let p = cs.public_len();
    &&& ts.instance.len() == if w.len() == 0 { 0 } else { vstd::math::min(p as int, w.len() - 1) }
    &&& forall|k: int| 0 <= k < ts.instance.len() ==> (#[trigger] ts.instance[k])@ == w[k + 1]@
    &&& ts.witness.len() == if w.len() > p + 1 { w.len() - (p + 1) } else { 0 }
    &&& forall|k: int| 0 <= k < ts.witness.len() ==> (#[trigger] ts.witness[k])@ == w[k + p + 1]@
    &&& ts.constraints.len() == cs.constraints.len()
    &&& forall|j: int|
        0 <= j < cs.constraints.len() ==> constraint_translated(
            cs.constraints[j],
            #[trigger] ts.constraints[j],
            p,
        )
}

fn copy_limbs(v: &Limbs) -> (r: Limbs)
    ensures
        r@ == v@,
{
    let mut r: Limbs = Vec::new();
    let mut i: usize = 0;
    while i < v.len()
        invariant
            i <= v.len(),
            r@ == v@.subrange(0, i as int),
        decreases v.len() - i,
    {
        r.push(v[i]);
        i = i + 1;
    }
    assert(r@ =~= v@);
    r
}

/// Converts a compiled linear combination into a target one: each term's
/// coefficient times its re-indexed variable, then the constant times the
/// constant one.
pub fn make_lc(lc: &SourceLc, public_io_length: usize) -> (r: TargetLc)
    ensures
        lc_translated(*lc, r, public_io_length as nat),
        forall|j: int|
            0 <= j < lc.terms.len() ==> limbs_value((#[trigger] r.terms[j]).coeff@) == limbs_value(
                lc.terms[j].coeff@,
            ),
        limbs_value(r.terms[lc.terms.len() as int].coeff@) == limbs_value(lc.constant@),
{
    let mut terms: Vec<TargetTerm> = Vec::new();
    let mut i: usize = 0;
    while i < lc.terms.len()
        invariant
            i <= lc.terms.len(),
            terms.len() == i,
            forall|j: int|
                0 <= j < i ==> {
                    &&& (#[trigger] terms[j]).coeff@ == lc.terms[j].coeff@
                    &&& terms[j].var == index_of(lc.terms[j].index as nat, public_io_length as nat)
                },
        decreases lc.terms.len() - i,
    {
        let term = &lc.terms[i];
        let var = make_index(term.index, public_io_length);
        terms.push(TargetTerm { coeff: copy_limbs(&term.coeff), var });
        i = i + 1;
    }
    terms.push(TargetTerm { coeff: copy_limbs(&lc.constant), var: make_index(0, public_io_length) });
    TargetLc { terms }
}

/// Translates a compiled system and its witness: declares every witness
/// entry after the constant as an instance or a witness variable, in witness
/// order, and carries every constraint over, in order.
pub fn translate(circuit: &CompiledR1cs, witness: &Vec<Limbs>) -> (r: TargetSystem)
    requires
        circuit.public_len() <= usize::MAX,
    ensures
        translation_of(*circuit, witness@, r),
{
    let public_io_length = circuit.public_inputs.len() + circuit.public_outputs.len();
    let mut instance: Vec<Limbs> = Vec::new();
    let mut wit: Vec<Limbs> = Vec::new();
    let mut idx: usize = 1;
    while idx < witness.len()
        invariant
            1 <= idx,
            idx <= witness.len() || (witness.len() == 0 && idx == 1),
            public_io_length == circuit.public_len(),
            instance.len() == vstd::math::min(public_io_length as int, idx - 1),
            forall|k: int| 0 <= k < instance.len() ==> (#[trigger] instance[k])@ == witness[k + 1]@,
            wit.len() == if idx > public_io_length + 1 { idx - (public_io_length + 1) } else { 0 },
            forall|k: int| 0 <= k < wit.len() ==> (#[trigger] wit[k])@ == witness[k + public_io_length + 1]@,
        decreases witness.len() - idx,
    {
        let value = copy_limbs(&witness[idx]);
        if idx <= public_io_length {
            instance.push(value);
        } else {
            wit.push(value);
        }
        idx = idx + 1;
    }
    let constraints = translate_constraints(&circuit.constraints, public_io_length);
    TargetSystem { instance, witness: wit, constraints }
}

/// Converts every compiled constraint, in order.
fn translate_constraints(src: &Vec<SourceConstraint>, public_io_length: usize) -> (r: Vec<
    TargetConstraint,
>)
    ensures
        r.len() == src.len(),
        forall|q: int|
            0 <= q < src.len() ==> constraint_translated(
                src[q],
                #[trigger] r[q],
                public_io_length as nat,
            ),
{
    let mut constraints: Vec<TargetConstraint> = Vec::new();
    let mut j: usize = 0;
    while j < src.len()
        invariant
            j <= src.len(),
            constraints.len() == j,
            forall|q: int|
                0 <= q < j ==> constraint_translated(
                    src[q],
                    #[trigger] constraints[q],
                    public_io_length as nat,
                ),
        decreases src.len() - j,
    {
        let c = &src[j];
        let a = make_lc(&c.a, public_io_length);
        let b = make_lc(&c.b, public_io_length);
        let cc = make_lc(&c.c, public_io_length);
        constraints.push(TargetConstraint { a, b, c: cc });
        j = j + 1;
    }
    constraints
}

} // verus!
