use r1cs_bellman::circuit::{
    wire_is_public, Constraint, Expression, Gadget, Term, Wire, Witness, WitnessEntry,
};
use r1cs_bellman::field::Element;
use r1cs_bellman::translate::{plan_synthesis, resolve_wire, translate_expression, PlannedTerm};

fn elem(x: u64) -> Element {
    Element::from_u64(x)
}

fn wire(i: u32) -> Wire {
    Wire { index: i }
}

fn witness_of(pairs: &[(u32, u64)]) -> Witness {
    Witness {
        entries: pairs
            .iter()
            .map(|&(i, v)| WitnessEntry { wire_index: i, value: elem(v) })
            .collect(),
    }
}

/// One constraint `x * y == z` over the wires 1, 2 and 3.
fn product_gadget() -> Gadget {
    Gadget {
        constraints: vec![Constraint {
            a: Expression { terms: vec![Term { wire: wire(1), coeff: elem(1) }] },
            b: Expression { terms: vec![Term { wire: wire(2), coeff: elem(1) }] },
            c: Expression { terms: vec![Term { wire: wire(3), coeff: elem(1) }] },
        }],
    }
}

#[test]
fn visibility_follows_public_set() {
    // Wire 1 is assigned, wire 2 is not; wires 2 and 3 are public.
    let witness = witness_of(&[(1, 7), (3, 9)]);
    let pubs = vec![wire(2), wire(3)];
    let r1 = resolve_wire(wire(1), &witness, &pubs);
    let r2 = resolve_wire(wire(2), &witness, &pubs);
    let r3 = resolve_wire(wire(3), &witness, &pubs);
    assert!(!r1.is_public);
    assert!(r2.is_public);
    assert!(r3.is_public);
    // Visibility is decided by membership alone, whether or not a value is bound.
    assert_eq!(r1.value, elem(7));
    assert_eq!(r2.value, elem(0));
    assert_eq!(r3.value, elem(9));
}

#[test]
fn membership_scan_matches_set() {
    let pubs = vec![wire(4), wire(4), wire(9)];
    assert!(wire_is_public(&pubs, wire(4)));
    assert!(wire_is_public(&pubs, wire(9)));
    assert!(!wire_is_public(&pubs, wire(1)));
    assert!(!wire_is_public(&Vec::new(), wire(4)));
}

#[test]
fn empty_constraint_list_registers_nothing() {
    let gadget = Gadget { constraints: Vec::new() };
    let plan = plan_synthesis(&gadget, &witness_of(&[(1, 5)]), &vec![wire(1)]);
    assert_eq!(plan.len(), 0);
}

#[test]
fn empty_witness_resolves_all_to_zero() {
    // A parameter-generation pass: no witness, yet every variable is
    // allocated, bound to zero, with the same topology as a proving pass.
    let plan = plan_synthesis(&product_gadget(), &Witness::empty(), &vec![wire(3)]);
    assert_eq!(plan.len(), 1);
    for terms in [&plan[0].a, &plan[0].b, &plan[0].c] {
        assert_eq!(terms.len(), 1);
        assert_eq!(terms[0].var.value, elem(0));
    }
    assert!(!plan[0].a[0].var.is_public);
    assert!(!plan[0].b[0].var.is_public);
    assert!(plan[0].c[0].var.is_public);
}

#[test]
fn repeated_wire_resolves_consistently() {
    // Wire 1 appears in several expressions across two constraints.
    let gadget = Gadget {
        constraints: vec![
            Constraint {
                a: Expression {
                    terms: vec![
                        Term { wire: wire(1), coeff: elem(2) },
                        Term { wire: wire(2), coeff: elem(3) },
                    ],
                },
                b: Expression { terms: vec![Term { wire: wire(1), coeff: elem(4) }] },
                c: Expression { terms: vec![Term { wire: wire(3), coeff: elem(1) }] },
            },
            Constraint {
                a: Expression { terms: vec![Term { wire: wire(1), coeff: elem(5) }] },
                b: Expression { terms: vec![Term { wire: wire(3), coeff: elem(1) }] },
                c: Expression { terms: vec![Term { wire: wire(1), coeff: elem(6) }] },
            },
        ],
    };
    let plan = plan_synthesis(&gadget, &witness_of(&[(1, 11), (3, 13)]), &vec![wire(1)]);
    let mut seen: Vec<&PlannedTerm> = Vec::new();
    for pc in &plan {
        for terms in [&pc.a, &pc.b, &pc.c] {
            for t in terms.iter() {
                if t.wire == wire(1) {
                    seen.push(t);
                }
            }
        }
    }
    assert_eq!(seen.len(), 4);
    for t in &seen {
        assert_eq!(t.var.value, elem(11));
        assert!(t.var.is_public);
    }
}

#[test]
fn translation_carries_coefficients_and_values() {
    let witness = witness_of(&[(1, 1), (2, 6), (3, 6)]);
    let pubs = vec![wire(3)];
    let expr = Expression {
        terms: vec![
            Term { wire: wire(2), coeff: elem(10) },
            Term { wire: wire(3), coeff: elem(20) },
        ],
    };
    let planned = translate_expression(&expr, &witness, &pubs);
    assert_eq!(planned.len(), 2);
    assert_eq!(planned[0].coeff, elem(10));
    assert_eq!(planned[0].var.value, elem(6));
    assert!(!planned[0].var.is_public);
    assert_eq!(planned[1].coeff, elem(20));
    assert_eq!(planned[1].var.value, elem(6));
    assert!(planned[1].var.is_public);
}

#[test]
fn constraints_keep_their_order() {
    let gadget = Gadget {
        constraints: vec![
            Constraint {
                a: Expression { terms: vec![Term { wire: wire(1), coeff: elem(100) }] },
                b: Expression { terms: Vec::new() },
                c: Expression { terms: Vec::new() },
            },
            Constraint {
                a: Expression { terms: vec![Term { wire: wire(1), coeff: elem(200) }] },
                b: Expression { terms: Vec::new() },
                c: Expression { terms: Vec::new() },
            },
        ],
    };
    let plan = plan_synthesis(&gadget, &Witness::empty(), &Vec::new());
    assert_eq!(plan.len(), 2);
    assert_eq!(plan[0].a[0].coeff, elem(100));
    assert_eq!(plan[1].a[0].coeff, elem(200));
    assert_eq!(plan[0].b.len(), 0);
    assert_eq!(plan[0].c.len(), 0);
}

#[test]
fn topology_is_identical_across_passes() {
    // A parameter-generation pass (no witness) and a proving pass (full
    // witness) plan the same variable topology: same terms, same wires,
    // same coefficients, same visibility — only the bound values differ.
    let gadget = product_gadget();
    let pubs = vec![wire(3)];
    let setup = plan_synthesis(&gadget, &Witness::empty(), &pubs);
    let proving = plan_synthesis(&gadget, &witness_of(&[(1, 1), (2, 6), (3, 6)]), &pubs);
    assert_eq!(setup.len(), proving.len());
    for (pc_s, pc_p) in setup.iter().zip(proving.iter()) {
        for (ts, tp) in [(&pc_s.a, &pc_p.a), (&pc_s.b, &pc_p.b), (&pc_s.c, &pc_p.c)] {
            assert_eq!(ts.len(), tp.len());
            for (s, p) in ts.iter().zip(tp.iter()) {
                assert_eq!(s.wire, p.wire);
                assert_eq!(s.coeff, p.coeff);
                assert_eq!(s.var.is_public, p.var.is_public);
            }
        }
    }
}

#[test]
fn lookup_takes_first_binding() {
    let witness = witness_of(&[(5, 50), (6, 60)]);
    assert_eq!(witness.lookup(5), Some(elem(50)));
    assert_eq!(witness.lookup(6), Some(elem(60)));
    assert_eq!(witness.lookup(7), None);
}
