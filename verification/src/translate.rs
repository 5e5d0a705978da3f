//! The translation pass: resolving wires, translating linear expressions,
//! and laying out the ordered list of constraint registrations that one
//! synthesis pass hands to the proving backend.
//!
//! The pass is total: it decides every value, visibility flag and
//! coefficient, in the original constraint order. The backend adapter then
//! performs one variable allocation per planned term — deliberately one
//! per occurrence, so that a parameter-generation pass and a proving pass
//! allocate the identical variable topology — and one registration per
//! planned constraint.

use vstd::prelude::*;
use crate::circuit::{spec_lookup, wire_is_public, Constraint, Expression, Gadget, Term, Wire,
    Witness};
use crate::field::{spec_zero, Element};

verus! {

/// What one wire resolves to: the value the backend variable is bound to,
/// and whether the variable is allocated as a public input.
#[derive(Clone, Copy, Debug, PartialEq, Eq, Structural)]
pub struct ResolvedVar {
    pub value: Element,
    pub is_public: bool,
}

/// One summand of a translated linear combination: the converted
/// coefficient, scaling one freshly allocated backend variable.
#[derive(Clone, Copy, Debug, PartialEq, Eq, Structural)]
pub struct PlannedTerm {
    pub wire: Wire,
    pub coeff: Element,
    pub var: ResolvedVar,
}

/// One constraint registration: the three translated linear combinations
/// of an `a * b == c` relation, in backend form.
#[derive(Clone, Debug)]
pub struct PlannedConstraint {
    pub a: Vec<PlannedTerm>,
    pub b: Vec<PlannedTerm>,
    pub c: Vec<PlannedTerm>,
}

/// What a wire resolves to: its witness value where one is bound, the
/// additive identity where none is, and public visibility exactly where
/// the public-input set names the wire.
pub open spec fn spec_resolve(witness: Witness, public_inputs: Seq<Wire>, wire: Wire) -> ResolvedVar {
    ResolvedVar {
        value: match spec_lookup(witness.entries@, wire.index) {
            Some(v) => v,
            None => spec_zero(),
        },
        is_public: public_inputs.contains(wire),
    }
}

/// The translation of one term: the coefficient carried over, the wire
/// resolved.
pub open spec fn spec_planned_term(t: Term, witness: Witness, public_inputs: Seq<Wire>) -> PlannedTerm {
    PlannedTerm { wire: t.wire, coeff: t.coeff, var: spec_resolve(witness, public_inputs, t.wire) }
}

/// Whether `planned` is exactly the translation of the expression `e`:
/// one planned term per term of `e`, in order.
pub open spec fn expr_translated(
    e: Expression,
    witness: Witness,
    public_inputs: Seq<Wire>,
    planned: Seq<PlannedTerm>,
) -> bool {
    &&& planned.len() == e.terms@.len()
    &&& forall|j: int|
        0 <= j < planned.len() ==> planned[j] == spec_planned_term(
            e.terms@[j],
            witness,
            public_inputs,
        )
}

/// Whether `pc` is exactly the translation of the constraint `c`: all
/// three of its expressions translated.
pub open spec fn constraint_translated(
    c: Constraint,
    witness: Witness,
    public_inputs: Seq<Wire>,
    pc: PlannedConstraint,
) -> bool {
    &&& expr_translated(c.a, witness, public_inputs, pc.a@)
    &&& expr_translated(c.b, witness, public_inputs, pc.b@)
    &&& expr_translated(c.c, witness, public_inputs, pc.c@)
}

/// Resolves one wire against the witness assignment and the public-input
/// set. Visibility is decided by set membership alone, independent of
/// whether the wire has a witness value; an unassigned wire is bound to
/// the field's additive identity.
pub fn resolve_wire(wire: Wire, witness: &Witness, public_inputs: &Vec<Wire>) -> (r: ResolvedVar)
    ensures
        r == spec_resolve(*witness, public_inputs@, wire),
        r.is_public == public_inputs@.contains(wire),
{
    let value = match witness.lookup(wire.index) {
        Some(v) => v,
        None => Element::zero(),
    };
    let is_public = wire_is_public(public_inputs, wire);
    ResolvedVar { value, is_public }
}

/// Translates one linear expression: resolves each of its wires and pairs
/// the resolved variable with the carried-over coefficient, visiting every
/// term exactly once, in order.
pub fn translate_expression(
    expr: &Expression,
    witness: &Witness,
    public_inputs: &Vec<Wire>,
) -> (r: Vec<PlannedTerm>)
    ensures
        expr_translated(*expr, *witness, public_inputs@, r@),
{
    let n = expr.terms.len();
    let mut planned: Vec<PlannedTerm> = Vec::new();
    let mut i: usize = 0;
    while i < n
        invariant
            0 <= i <= n,
            n == expr.terms@.len(),
            planned@.len() == i,
            forall|j: int|
                0 <= j < i ==> planned@[j] == spec_planned_term(
                    expr.terms@[j],
                    *witness,
                    public_inputs@,
                ),
        decreases n - i,
    {
        let term = expr.terms[i];
        let var = resolve_wire(term.wire, witness, public_inputs);
        planned.push(PlannedTerm { wire: term.wire, coeff: term.coeff, var });
        i = i + 1;
    }
    planned
}

/// Lays out one full synthesis pass: translates every constraint of the
/// gadget, in the original order, into the registration the backend is to
/// record. An empty constraint list yields an empty plan.
pub fn plan_synthesis(
    gadget: &Gadget,
    witness: &Witness,
    public_inputs: &Vec<Wire>,
) -> (r: Vec<PlannedConstraint>)
    ensures
        r@.len() == gadget.constraints@.len(),
        forall|i: int|
            0 <= i < r@.len() ==> constraint_translated(
                gadget.constraints@[i],
                *witness,
                public_inputs@,
                #[trigger] r@[i],
            ),
{
    let n = gadget.constraints.len();
    let mut plan: Vec<PlannedConstraint> = Vec::new();
    let mut i: usize = 0;
    while i < n
        invariant
            0 <= i <= n,
            n == gadget.constraints@.len(),
            plan@.len() == i,
            forall|k: int|
                0 <= k < i ==> constraint_translated(
                    gadget.constraints@[k],
                    *witness,
                    public_inputs@,
                    #[trigger] plan@[k],
                ),
        decreases n - i,
    {
        let constraint = &gadget.constraints[i];
        let a = translate_expression(&constraint.a, witness, public_inputs);
        let b = translate_expression(&constraint.b, witness, public_inputs);
        let c = translate_expression(&constraint.c, witness, public_inputs);
        plan.push(PlannedConstraint { a, b, c });
        i = i + 1;
    }
    plan
}

}
