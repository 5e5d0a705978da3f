//! The generic, engine-agnostic constraint-system representation: wires,
//! linear expressions over the field, multiplicative constraints, witness
//! assignments, and the public-input set.

use vstd::prelude::*;
use crate::field::Element;

verus! {

/// An opaque identifier naming one variable of the generic circuit.
#[derive(Clone, Copy, Debug, PartialEq, Eq, Structural)]
pub struct Wire {
    pub index: u32,
}

/// One summand of a linear expression: a coefficient attached to a wire.
#[derive(Clone, Copy, Debug, PartialEq, Eq, Structural)]
pub struct Term {
    pub wire: Wire,
    pub coeff: Element,
}

/// A linear expression over the field: the weighted sum of its terms.
/// An empty expression stands for the constant zero.
#[derive(Clone, Debug)]
pub struct Expression {
    pub terms: Vec<Term>,
}

/// One multiplicative constraint, asserting `a * b == c` over the field
/// once every wire is replaced by its witness value.
#[derive(Clone, Debug)]
pub struct Constraint {
    pub a: Expression,
    pub b: Expression,
    pub c: Expression,
}

/// The ordered list of constraints of one circuit.
#[derive(Clone, Debug)]
pub struct Gadget {
    pub constraints: Vec<Constraint>,
}

/// One binding of a wire index to a known field-element value.
#[derive(Clone, Copy, Debug, PartialEq, Eq, Structural)]
pub struct WitnessEntry {
    pub wire_index: u32,
    pub value: Element,
}

/// A witness assignment: a mapping from wire index to field element. It
/// need not cover every wire of the circuit; an uncovered wire resolves
/// to the field's additive identity.
#[derive(Clone, Debug)]
pub struct Witness {
    pub entries: Vec<WitnessEntry>,
}

/// The value bound to a wire index, taking the first entry that names it.
pub open spec fn spec_lookup(entries: Seq<WitnessEntry>, idx: u32) -> Option<Element>
    decreases entries.len(),
{
    if entries.len() == 0 {
        None
    } else if entries[0].wire_index == idx {
        Some(entries[0].value)
    } else {
        spec_lookup(entries.drop_first(), idx)
    }
}

impl Witness {
    /// An empty assignment, as used by a parameter-generation pass.
    pub fn empty() -> (r: Witness)
        ensures
            r.entries@.len() == 0,
            forall|idx: u32| spec_lookup(r.entries@, idx) is None,
    {
        Witness { entries: Vec::new() }
    }

    /// Looks a wire index up in the assignment.
    pub fn lookup(&self, idx: u32) -> (r: Option<Element>)
        ensures
            r == spec_lookup(self.entries@, idx),
    {
        let n = self.entries.len();
        let mut i: usize = 0;
        proof {
            assert(self.entries@.skip(0) =~= self.entries@);
        }
        while i < n
            invariant
                0 <= i <= n,
                n == self.entries@.len(),
                spec_lookup(self.entries@, idx) == spec_lookup(self.entries@.skip(i as int), idx),
            decreases n - i,
        {
            let entry = self.entries[i];
            proof {
                assert(self.entries@.skip(i as int)[0] == self.entries@[i as int]);
                assert(self.entries@.skip(i as int).drop_first() =~= self.entries@.skip(
                    i as int + 1,
                ));
            }
            if entry.wire_index == idx {
                return Some(entry.value);
            }
            i = i + 1;
        }
        proof {
            assert(self.entries@.skip(n as int) =~= Seq::<WitnessEntry>::empty());
        }
        None
    }
}

/// Whether a wire is marked as a public input.
pub fn wire_is_public(public_inputs: &Vec<Wire>, wire: Wire) -> (r: bool)
    ensures
        r == public_inputs@.contains(wire),
{
    let n = public_inputs.len();
    let mut i: usize = 0;
    while i < n
        invariant
            0 <= i <= n,
            n == public_inputs@.len(),
            forall|j: int| 0 <= j < i ==> public_inputs@[j] != wire,
        decreases n - i,
    {
        if public_inputs[i] == wire {
            return true;
        }
        i = i + 1;
    }
    false
}

}
