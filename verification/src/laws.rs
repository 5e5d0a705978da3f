//! The algebraic meaning of a constraint system on both sides of the
//! translation, and the laws the pass obeys: translation preserves
//! satisfaction, every occurrence of a wire resolves consistently, and
//! the planned variable topology does not depend on the witness.

use vstd::prelude::*;
use crate::circuit::{spec_lookup, Constraint, Expression, Gadget, Term, Wire, Witness};
use crate::field::modulus;
use crate::translate::{
    constraint_translated, expr_translated, spec_planned_term, spec_resolve, PlannedConstraint,
    PlannedTerm,
};

verus! {

/// The value a wire takes under a witness assignment: its bound value, or
/// zero where none is bound.
pub open spec fn spec_witness_value(witness: Witness, idx: u32) -> nat {
    match spec_lookup(witness.entries@, idx) {
        Some(e) => e.value(),
        None => 0,
    }
}

/// The integer a linear expression evaluates to under a witness
/// assignment: the sum over its terms of coefficient times wire value.
pub open spec fn expr_eval(terms: Seq<Term>, witness: Witness) -> int
    decreases terms.len(),
{
    if terms.len() == 0 {
        0
    } else {
        terms[0].coeff.value() * spec_witness_value(witness, terms[0].wire.index) + expr_eval(
            terms.drop_first(),
            witness,
        )
    }
}

/// Whether one constraint's relation `a * b == c` holds over the field
/// under a witness assignment.
pub open spec fn constraint_holds(c: Constraint, witness: Witness) -> bool {
    (expr_eval(c.a.terms@, witness) * expr_eval(c.b.terms@, witness) - expr_eval(
        c.c.terms@,
        witness,
    )) % (modulus() as int) == 0
}

/// Whether every constraint of a gadget holds under a witness assignment.
pub open spec fn gadget_satisfied(g: Gadget, witness: Witness) -> bool {
    forall|i: int| 0 <= i < g.constraints@.len() ==> constraint_holds(#[trigger] g.constraints@[i], witness)
}

/// The integer a translated linear combination evaluates to: the sum over
/// its planned terms of coefficient times the resolved variable's value.
pub open spec fn planned_eval(terms: Seq<PlannedTerm>) -> int
    decreases terms.len(),
{
    if terms.len() == 0 {
        0
    } else {
        terms[0].coeff.value() * terms[0].var.value.value() + planned_eval(terms.drop_first())
    }
}

/// Whether one registered constraint's relation holds over the field,
/// with every variable at the value it was bound to.
pub open spec fn planned_constraint_holds(pc: PlannedConstraint) -> bool {
    (planned_eval(pc.a@) * planned_eval(pc.b@) - planned_eval(pc.c@)) % (modulus() as int) == 0
}

/// Whether every registered constraint of a plan holds.
pub open spec fn plan_satisfied(plan: Seq<PlannedConstraint>) -> bool {
    forall|i: int| 0 <= i < plan.len() ==> planned_constraint_holds(#[trigger] plan[i])
}

/// A translated expression evaluates to exactly what the expression it
/// came from evaluates to under the witness assignment.
pub proof fn lemma_translated_expr_eval(
    terms: Seq<Term>,
    witness: Witness,
    public_inputs: Seq<Wire>,
    planned: Seq<PlannedTerm>,
)
    requires
        planned.len() == terms.len(),
        forall|j: int|
            0 <= j < planned.len() ==> planned[j] == spec_planned_term(
                terms[j],
                witness,
                public_inputs,
            ),
    ensures
        planned_eval(planned) == expr_eval(terms, witness),
    decreases terms.len(),
{
    if terms.len() > 0 {
        assert(planned[0] == spec_planned_term(terms[0], witness, public_inputs));
        assert(planned[0].var.value.value() == spec_witness_value(witness, terms[0].wire.index));
        assert forall|j: int| 0 <= j < planned.drop_first().len() implies planned.drop_first()[j]
            == spec_planned_term(terms.drop_first()[j], witness, public_inputs) by {
            assert(planned.drop_first()[j] == planned[j + 1]);
            assert(terms.drop_first()[j] == terms[j + 1]);
        }
        lemma_translated_expr_eval(terms.drop_first(), witness, public_inputs,
            planned.drop_first());
    }
}

/// Translation preserves satisfaction: checking the registered
/// constraints of a full pass succeeds exactly when every constraint of
/// the gadget holds under the witness assignment, with unassigned wires
/// taken as zero.
pub proof fn lemma_translation_preserves_satisfaction(
    gadget: Gadget,
    witness: Witness,
    public_inputs: Seq<Wire>,
    plan: Seq<PlannedConstraint>,
)
    requires
        plan.len() == gadget.constraints@.len(),
        forall|i: int|
            0 <= i < plan.len() ==> constraint_translated(
                gadget.constraints@[i],
                witness,
                public_inputs,
                #[trigger] plan[i],
            ),
    ensures
        plan_satisfied(plan) <==> gadget_satisfied(gadget, witness),
{
    assert forall|i: int| 0 <= i < plan.len() implies (planned_constraint_holds(#[trigger] plan[i])
        <==> constraint_holds(gadget.constraints@[i], witness)) by {
        let c = gadget.constraints@[i];
        lemma_translated_expr_eval(c.a.terms@, witness, public_inputs, plan[i].a@);
        lemma_translated_expr_eval(c.b.terms@, witness, public_inputs, plan[i].b@);
        lemma_translated_expr_eval(c.c.terms@, witness, public_inputs, plan[i].c@);
    }
    if plan_satisfied(plan) {
        assert forall|i: int| 0 <= i < gadget.constraints@.len() implies constraint_holds(
            #[trigger] gadget.constraints@[i],
            witness,
        ) by {
            assert(planned_constraint_holds(plan[i]));
        }
    }
    if gadget_satisfied(gadget, witness) {
        assert forall|i: int| 0 <= i < plan.len() implies planned_constraint_holds(
            #[trigger] plan[i],
        ) by {
            assert(constraint_holds(gadget.constraints@[i], witness));
        }
    }
}

/// Whether a planned term stands somewhere in a plan, in any of the three
/// expressions of any registered constraint.
pub open spec fn plan_has_term(plan: Seq<PlannedConstraint>, t: PlannedTerm) -> bool {
    exists|i: int, j: int|
        #![trigger plan[i].a@[j]]
        #![trigger plan[i].b@[j]]
        #![trigger plan[i].c@[j]]
        0 <= i < plan.len() && ((0 <= j < plan[i].a@.len() && plan[i].a@[j] == t) || (0 <= j
            < plan[i].b@.len() && plan[i].b@[j] == t) || (0 <= j < plan[i].c@.len() && plan[i].c@[j]
            == t))
}

/// In the plan of one pass, every occurrence of a term is resolved from
/// its wire alone.
pub proof fn lemma_term_resolved_from_wire(
    gadget: Gadget,
    witness: Witness,
    public_inputs: Seq<Wire>,
    plan: Seq<PlannedConstraint>,
    t: PlannedTerm,
)
    requires
        plan.len() == gadget.constraints@.len(),
        forall|i: int|
            0 <= i < plan.len() ==> constraint_translated(
                gadget.constraints@[i],
                witness,
                public_inputs,
                #[trigger] plan[i],
            ),
        plan_has_term(plan, t),
    ensures
        t.var == spec_resolve(witness, public_inputs, t.wire),
{
    let (i, j) = choose|i: int, j: int|
        #![trigger plan[i].a@[j]]
        #![trigger plan[i].b@[j]]
        #![trigger plan[i].c@[j]]
        0 <= i < plan.len() && ((0 <= j < plan[i].a@.len() && plan[i].a@[j] == t) || (0 <= j
            < plan[i].b@.len() && plan[i].b@[j] == t) || (0 <= j < plan[i].c@.len() && plan[i].c@[j]
            == t));
    let c = gadget.constraints@[i];
    if 0 <= j < plan[i].a@.len() && plan[i].a@[j] == t {
        assert(plan[i].a@[j] == spec_planned_term(c.a.terms@[j], witness, public_inputs));
    } else if 0 <= j < plan[i].b@.len() && plan[i].b@[j] == t {
        assert(plan[i].b@[j] == spec_planned_term(c.b.terms@[j], witness, public_inputs));
    } else {
        assert(plan[i].c@[j] == spec_planned_term(c.c.terms@[j], witness, public_inputs));
    }
}

/// Within one pass, a wire that appears in several expressions across
/// several constraints resolves to the same variable binding — the same
/// value and the same visibility — on every occurrence.
pub proof fn lemma_consistent_wire_resolution(
    gadget: Gadget,
    witness: Witness,
    public_inputs: Seq<Wire>,
    plan: Seq<PlannedConstraint>,
    t1: PlannedTerm,
    t2: PlannedTerm,
)
    requires
        plan.len() == gadget.constraints@.len(),
        forall|i: int|
            0 <= i < plan.len() ==> constraint_translated(
                gadget.constraints@[i],
                witness,
                public_inputs,
                #[trigger] plan[i],
            ),
        plan_has_term(plan, t1),
        plan_has_term(plan, t2),
        t1.wire == t2.wire,
    ensures
        t1.var == t2.var,
{
    lemma_term_resolved_from_wire(gadget, witness, public_inputs, plan, t1);
    lemma_term_resolved_from_wire(gadget, witness, public_inputs, plan, t2);
}

/// A wire's visibility is decided by set membership alone: the resolved
/// flag is the same under any two witness assignments.
pub proof fn lemma_visibility_independent_of_witness(
    w1: Witness,
    w2: Witness,
    public_inputs: Seq<Wire>,
    wire: Wire,
)
    ensures
        spec_resolve(w1, public_inputs, wire).is_public == public_inputs.contains(wire),
        spec_resolve(w1, public_inputs, wire).is_public == spec_resolve(
            w2,
            public_inputs,
            wire,
        ).is_public,
{
}

/// Whether two translated linear combinations have the same shape: the
/// same terms — wire, coefficient and visibility — differing at most in
/// the values bound to the variables.
pub open spec fn same_shape(t1: Seq<PlannedTerm>, t2: Seq<PlannedTerm>) -> bool {
    &&& t1.len() == t2.len()
    &&& forall|j: int|
        0 <= j < t1.len() ==> (#[trigger] t1[j]).wire == t2[j].wire && t1[j].coeff == t2[j].coeff
            && t1[j].var.is_public == t2[j].var.is_public
}

/// Two translations of one expression under different witness assignments
/// have the same shape.
proof fn lemma_expr_same_shape(
    e: Expression,
    w1: Witness,
    w2: Witness,
    public_inputs: Seq<Wire>,
    t1: Seq<PlannedTerm>,
    t2: Seq<PlannedTerm>,
)
    requires
        expr_translated(e, w1, public_inputs, t1),
        expr_translated(e, w2, public_inputs, t2),
    ensures
        same_shape(t1, t2),
{
    assert forall|j: int| 0 <= j < t1.len() implies (#[trigger] t1[j]).wire == t2[j].wire
        && t1[j].coeff == t2[j].coeff && t1[j].var.is_public == t2[j].var.is_public by {
        assert(t1[j] == spec_planned_term(e.terms@[j], w1, public_inputs));
        assert(t2[j] == spec_planned_term(e.terms@[j], w2, public_inputs));
    }
}

/// The variable topology a pass allocates is decided by the constraint
/// list and the public-input set alone: two passes over the same gadget —
/// say a parameter-generation pass with no witness and a proving pass
/// with a full one — plan the same constraints, in the same order, with
/// the same wires, coefficients and visibility flags, differing at most
/// in the values bound to the variables.
pub proof fn lemma_topology_independent_of_witness(
    gadget: Gadget,
    w1: Witness,
    w2: Witness,
    public_inputs: Seq<Wire>,
    plan1: Seq<PlannedConstraint>,
    plan2: Seq<PlannedConstraint>,
)
    requires
        plan1.len() == gadget.constraints@.len(),
        forall|i: int|
            0 <= i < plan1.len() ==> constraint_translated(
                gadget.constraints@[i],
                w1,
                public_inputs,
                #[trigger] plan1[i],
            ),
        plan2.len() == gadget.constraints@.len(),
        forall|i: int|
            0 <= i < plan2.len() ==> constraint_translated(
                gadget.constraints@[i],
                w2,
                public_inputs,
                #[trigger] plan2[i],
            ),
    ensures
        plan1.len() == plan2.len(),
        forall|i: int|
            0 <= i < plan1.len() ==> same_shape((#[trigger] plan1[i]).a@, plan2[i].a@)
                && same_shape(plan1[i].b@, plan2[i].b@) && same_shape(plan1[i].c@, plan2[i].c@),
{
    assert forall|i: int| 0 <= i < plan1.len() implies same_shape(
        (#[trigger] plan1[i]).a@,
        plan2[i].a@,
    ) && same_shape(plan1[i].b@, plan2[i].b@) && same_shape(plan1[i].c@, plan2[i].c@) by {
        let c = gadget.constraints@[i];
        lemma_expr_same_shape(c.a, w1, w2, public_inputs, plan1[i].a@, plan2[i].a@);
        lemma_expr_same_shape(c.b, w1, w2, public_inputs, plan1[i].b@, plan2[i].b@);
        lemma_expr_same_shape(c.c, w1, w2, public_inputs, plan1[i].c@, plan2[i].c@);
    }
}

}
