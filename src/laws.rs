use vstd::prelude::*;
use crate::field::{Limbs, limbs_value};
use crate::system::{
    assigned, eval_source, eval_source_terms, eval_target, eval_target_terms, holds_mod,
    source_satisfied, target_satisfied, witness_value, CompiledR1cs, SourceConstraint, SourceLc,
    TargetLc,
    TargetSystem, TargetTerm, Term, Var,
};
use crate::arkworks::{coeff_of, fr_modulus, target_coeff};
use crate::translate::{index_of, lc_translated, translation_of};

verus! {

/// The witness has the layout that the compiled system assumes: the constant
/// one first, every public variable after it, and every variable that a
/// constraint names inside it.
pub open spec fn witness_fits(cs: CompiledR1cs, w: Seq<Limbs>) -> bool {
    &&& w.len() >= cs.public_len() + 1
    &&& limbs_value(w[0]@) == 1
    &&& forall|j: int|
        0 <= j < cs.constraints.len() ==> {
            &&& lc_indices_fit(#[trigger] cs.constraints[j].a, w.len())
            &&& lc_indices_fit(cs.constraints[j].b, w.len())
            &&& lc_indices_fit(cs.constraints[j].c, w.len())
        }
}

pub open spec fn lc_indices_fit(lc: SourceLc, n: nat) -> bool {
    forall|k: int| 0 <= k < lc.terms.len() ==> (#[trigger] lc.terms[k]).index < n
}

/// `v` is one of the target variables of a system with `p` instance and `w`
/// witness variables.
pub open spec fn target_var_in_range(v: Var, p: nat, w: nat) -> bool {
    match v {
        Var::One => true,
        Var::Instance(n) => 1 <= n <= p,
        Var::Witness(n) => n < w,
    }
}

/// Re-indexing is a bijection from the witness indices `0 ..= p + w` onto the
/// constant, the instance variables `1 ..= p` and the witness variables
/// `0 .. w`: no two indices meet, and no target variable is missed.
pub proof fn lemma_index_mapping_bijective(p: nat, w: nat)
    requires
        p + w <= usize::MAX,
    ensures
        forall|i: nat, j: nat|
            i <= p + w && j <= p + w && #[trigger] index_of(i, p) == #[trigger] index_of(j, p)
                ==> i == j,
        forall|i: nat| i <= p + w ==> target_var_in_range(#[trigger] index_of(i, p), p, w),
        forall|v: Var|
            #[trigger] target_var_in_range(v, p, w) ==> exists|i: nat|
                i <= p + w && #[trigger] index_of(i, p) == v,
{
    assert forall|v: Var| #[trigger] target_var_in_range(v, p, w) implies exists|i: nat|
        i <= p + w && #[trigger] index_of(i, p) == v by {
        match v {
            Var::One => {
                assert(index_of(0, p) == v);
            },
            Var::Instance(n) => {
                assert(index_of(n as nat, p) == v);
            },
            Var::Witness(n) => {
                assert(index_of((n + p + 1) as nat, p) == v);
            },
        }
    }
}

/// Under a translation, the target variable of an index inside the witness
/// holds that witness entry's value.
proof fn lemma_assigned_index(cs: CompiledR1cs, w: Seq<Limbs>, ts: TargetSystem, i: nat)
    requires
        witness_fits(cs, w),
        translation_of(cs, w, ts),
        i < w.len(),
        i <= usize::MAX,
    ensures
        assigned(ts, index_of(i, cs.public_len())) == witness_value(w, i as int),
{
    let p = cs.public_len();
    if i == 0 {
    } else if i <= p {
        assert(ts.instance[i - 1]@ == w[i - 1 + 1]@);
    } else {
        let k = i - (p + 1);
        assert(ts.witness[k]@ == w[k + p + 1]@);
    }
}

proof fn lemma_eval_terms(
    cs: CompiledR1cs,
    w: Seq<Limbs>,
    ts: TargetSystem,
    st: Seq<Term>,
    tt: Seq<TargetTerm>,
)
    requires
        witness_fits(cs, w),
        translation_of(cs, w, ts),
        tt.len() == st.len(),
        forall|k: int| 0 <= k < st.len() ==> (#[trigger] st[k]).index < w.len(),
        forall|k: int|
            0 <= k < st.len() ==> {
                &&& (#[trigger] tt[k]).coeff@ == st[k].coeff@
                &&& tt[k].var == index_of(st[k].index as nat, cs.public_len())
            },
    ensures
        eval_target_terms(tt, ts) == eval_source_terms(st, w),
    decreases st.len(),
{
    if st.len() > 0 {
        let n = st.len() - 1;
        assert(st[n].index < w.len());
        assert(tt[n].coeff@ == st[n].coeff@);
        lemma_assigned_index(cs, w, ts, st[n].index as nat);
        let st2 = st.drop_last();
        let tt2 = tt.drop_last();
        assert forall|k: int| 0 <= k < st2.len() implies (#[trigger] st2[k]).index < w.len() by {
            assert(st2[k] == st[k]);
        }
        assert forall|k: int| 0 <= k < st2.len() implies {
            &&& (#[trigger] tt2[k]).coeff@ == st2[k].coeff@
            &&& tt2[k].var == index_of(st2[k].index as nat, cs.public_len())
        } by {
            assert(st2[k] == st[k]);
            assert(tt2[k] == tt[k]);
        }
        lemma_eval_terms(cs, w, ts, st2, tt2);
    }
}

/// A translated linear combination takes the same integer value under the
/// target assignment as the compiled one under the witness.
proof fn lemma_eval_lc(cs: CompiledR1cs, w: Seq<Limbs>, ts: TargetSystem, src: SourceLc, t: TargetLc)
    requires
        witness_fits(cs, w),
        translation_of(cs, w, ts),
        lc_indices_fit(src, w.len()),
        lc_translated(src, t, cs.public_len()),
    ensures
        eval_target(t, ts) == eval_source(src, w),
{
    let tt = t.terms@.drop_last();
    let st = src.terms@;
    assert forall|k: int| 0 <= k < st.len() implies (#[trigger] st[k]).index < w.len() by {
        assert(src.terms[k] == st[k]);
    }
    assert forall|k: int| 0 <= k < st.len() implies {
        &&& (#[trigger] tt[k]).coeff@ == st[k].coeff@
        &&& tt[k].var == index_of(st[k].index as nat, cs.public_len())
    } by {
        assert(tt[k] == t.terms[k]);
        assert(st[k] == src.terms[k]);
    }
    lemma_eval_terms(cs, w, ts, st, tt);
}

/// Translation keeps satisfiability exactly: for a witness with the layout
/// that the compiled system assumes, the translated system holds under its
/// assignment if and only if the compiled system holds under the witness.
pub proof fn lemma_translation_preserves_satisfaction(
    cs: CompiledR1cs,
    w: Seq<Limbs>,
    ts: TargetSystem,
    m: int,
)
    requires
        witness_fits(cs, w),
        translation_of(cs, w, ts),
    ensures
        target_satisfied(ts, m) == source_satisfied(cs, w, m),
{
    assert forall|j: int| 0 <= j < cs.constraints.len() implies {
        &&& eval_target(ts.constraints[j].a, ts) == eval_source(cs.constraints[j].a, w)
        &&& eval_target(ts.constraints[j].b, ts) == eval_source(cs.constraints[j].b, w)
        &&& eval_target(ts.constraints[j].c, ts) == eval_source(cs.constraints[j].c, w)
    } by {
        let c = cs.constraints[j];
        let t = ts.constraints[j];
        lemma_eval_lc(cs, w, ts, c.a, t.a);
        lemma_eval_lc(cs, w, ts, c.b, t.b);
        lemma_eval_lc(cs, w, ts, c.c, t.c);
    }
    if target_satisfied(ts, m) {
        assert forall|j: int| 0 <= j < cs.constraints.len() implies #[trigger] holds_mod(
            eval_source(cs.constraints[j].a, w),
            eval_source(cs.constraints[j].b, w),
            eval_source(cs.constraints[j].c, w),
            m,
        ) by {
            assert(holds_mod(
                eval_target(ts.constraints[j].a, ts),
                eval_target(ts.constraints[j].b, ts),
                eval_target(ts.constraints[j].c, ts),
                m,
            ));
        }
    }
    if source_satisfied(cs, w, m) {
        assert forall|j: int| 0 <= j < ts.constraints.len() implies #[trigger] holds_mod(
            eval_target(ts.constraints[j].a, ts),
            eval_target(ts.constraints[j].b, ts),
            eval_target(ts.constraints[j].c, ts),
            m,
        ) by {
            assert(holds_mod(
                eval_source(cs.constraints[j].a, w),
                eval_source(cs.constraints[j].b, w),
                eval_source(cs.constraints[j].c, w),
                m,
            ));
        }
    }
}

/// Round trip: a witness that satisfies the compiled system satisfies its
/// translation, through the transported assignment.
pub proof fn lemma_round_trip_satisfiable(cs: CompiledR1cs, w: Seq<Limbs>, ts: TargetSystem, m: int)
    requires
        witness_fits(cs, w),
        source_satisfied(cs, w, m),
        translation_of(cs, w, ts),
    ensures
        target_satisfied(ts, m),
{
    lemma_translation_preserves_satisfaction(cs, w, ts, m);
}

/// A tampered witness is caught: when one entry after the constant of a
/// satisfying witness is replaced by a different value, and the compiled
/// system does not hold under the tampered witness, the translation of the
/// tampered witness is not satisfied either.
pub proof fn lemma_tampered_witness_rejected(
    cs: CompiledR1cs,
    w: Seq<Limbs>,
    i: int,
    v: Limbs,
    ts: TargetSystem,
    m: int,
)
    requires
        witness_fits(cs, w),
        source_satisfied(cs, w, m),
        1 <= i < w.len(),
        (limbs_value(v@) as int) % m != (limbs_value(w[i]@) as int) % m,
        !source_satisfied(cs, w.update(i, v), m),
        translation_of(cs, w.update(i, v), ts),
    ensures
        !target_satisfied(ts, m),
{
    let w2 = w.update(i, v);
    assert(w2[0] == w[0]);
    assert forall|j: int| 0 <= j < cs.constraints.len() implies {
        &&& lc_indices_fit(#[trigger] cs.constraints[j].a, w2.len())
        &&& lc_indices_fit(cs.constraints[j].b, w2.len())
        &&& lc_indices_fit(cs.constraints[j].c, w2.len())
    } by {
        assert(lc_indices_fit(cs.constraints[j].a, w.len()));
    }
    lemma_translation_preserves_satisfaction(cs, w2, ts, m);
}

pub open spec fn source_terms_coeff(terms: Seq<Term>, p: nat, v: Var) -> nat
    decreases terms.len(),
{
    if terms.len() == 0 {
        0
    } else {
        ((source_terms_coeff(terms.drop_last(), p, v) + if index_of(terms.last().index as nat, p)
            == v {
            limbs_value(terms.last().coeff@)
        } else {
            0
        }) % fr_modulus()) as nat
    }
}

/// The field coefficient that a compiled combination gives target variable
/// `v`: the sum of its coefficients on the witness indices that map to `v`,
/// and of the constant when `v` is the constant one, reduced modulo the
/// field's modulus.
pub open spec fn source_coeff(lc: SourceLc, p: nat, v: Var) -> nat {
    ((source_terms_coeff(lc.terms@, p, v) + if v == Var::One {
        limbs_value(lc.constant@)
    } else {
        0
    }) % fr_modulus()) as nat
}

/// A recorded constraint gives every target variable the field coefficients
/// that the compiled constraint `c` gives it.
pub open spec fn row_from_source(
    row: (Map<Var, nat>, Map<Var, nat>, Map<Var, nat>),
    c: SourceConstraint,
    p: nat,
) -> bool {
    forall|v: Var|
        {
            &&& #[trigger] coeff_of(row.0, v) == source_coeff(c.a, p, v)
            &&& coeff_of(row.1, v) == source_coeff(c.b, p, v)
            &&& coeff_of(row.2, v) == source_coeff(c.c, p, v)
        }
}

proof fn lemma_terms_coeff(st: Seq<Term>, tt: Seq<TargetTerm>, p: nat, v: Var)
    requires
        tt.len() == st.len(),
        forall|k: int|
            0 <= k < st.len() ==> {
                &&& (#[trigger] tt[k]).coeff@ == st[k].coeff@
                &&& tt[k].var == index_of(st[k].index as nat, p)
            },
    ensures
        target_coeff(tt, v) == source_terms_coeff(st, p, v),
    decreases st.len(),
{
    if st.len() > 0 {
        let n = st.len() - 1;
        assert(tt[n].coeff@ == st[n].coeff@);
        let st2 = st.drop_last();
        let tt2 = tt.drop_last();
        assert forall|k: int| 0 <= k < st2.len() implies {
            &&& (#[trigger] tt2[k]).coeff@ == st2[k].coeff@
            &&& tt2[k].var == index_of(st2[k].index as nat, p)
        } by {
            assert(st2[k] == st[k]);
            assert(tt2[k] == tt[k]);
        }
        lemma_terms_coeff(st2, tt2, p, v);
    }
}

/// Coefficients survive translation as field values: for every target
/// variable, a translated combination's coefficient on it, summed and
/// reduced modulo the field's modulus, is the compiled combination's.
pub proof fn lemma_translated_coefficients(src: SourceLc, t: TargetLc, p: nat, v: Var)
    requires
        lc_translated(src, t, p),
    ensures
        target_coeff(t.terms@, v) == source_coeff(src, p, v),
{
    let tt = t.terms@.drop_last();
    let st = src.terms@;
    assert forall|k: int| 0 <= k < st.len() implies {
        &&& (#[trigger] tt[k]).coeff@ == st[k].coeff@
        &&& tt[k].var == index_of(st[k].index as nat, p)
    } by {
        assert(tt[k] == t.terms[k]);
        assert(st[k] == src.terms[k]);
    }
    lemma_terms_coeff(st, tt, p, v);
    assert(t.terms@.last() == t.terms[src.terms.len() as int]);
}

} // verus!
