//! Field elements of the proving backend's scalar field.
//!
//! An element is held as four little-endian 64-bit limbs; a canonical
//! element's value lies below the field modulus. The backend encodes an
//! element as 32 little-endian bytes, and this module provides that
//! encoding and its inverse as verified functions.

use vstd::prelude::*;
use vstd::bytes::{
    lemma_auto_spec_u64_to_from_le_bytes, spec_u64_from_le_bytes, spec_u64_to_le_bytes,
    u64_from_le_bytes, u64_to_le_bytes,
};
use vstd::slice::slice_subrange;

verus! {

/// Little-endian 64-bit limbs of the scalar-field modulus of the
/// backend's pairing curve (BLS12-381).
pub const MODULUS_LIMB_0: u64 = 0xffff_ffff_0000_0001;
pub const MODULUS_LIMB_1: u64 = 0x53bd_a402_fffe_5bfe;
pub const MODULUS_LIMB_2: u64 = 0x3339_d808_09a1_d805;
pub const MODULUS_LIMB_3: u64 = 0x73ed_a753_299d_7d48;

/// The integer packed from four little-endian 64-bit limbs.
pub open spec fn limbs_value(l0: u64, l1: u64, l2: u64, l3: u64) -> nat {
    (l0 as nat) + 0x1_0000_0000_0000_0000 * ((l1 as nat) + 0x1_0000_0000_0000_0000 * ((
    l2 as nat) + 0x1_0000_0000_0000_0000 * (l3 as nat)))
}

/// The scalar-field modulus as an integer.
pub open spec fn modulus() -> nat {
    limbs_value(MODULUS_LIMB_0, MODULUS_LIMB_1, MODULUS_LIMB_2, MODULUS_LIMB_3)
}

/// Lexicographic order on limb quadruples, most significant limb first.
pub open spec fn limbs_lex_lt(
    a0: u64, a1: u64, a2: u64, a3: u64,
    b0: u64, b1: u64, b2: u64, b3: u64,
) -> bool {
    a3 < b3 || (a3 == b3 && (a2 < b2 || (a2 == b2 && (a1 < b1 || (a1 == b1 && a0 < b0)))))
}

/// One element of the backend's scalar field, as little-endian limbs.
#[derive(Clone, Copy, Debug, PartialEq, Eq, Structural)]
pub struct Element {
    pub limb0: u64,
    pub limb1: u64,
    pub limb2: u64,
    pub limb3: u64,
}

impl Element {
    /// The integer this element stands for.
    pub open spec fn value(self) -> nat {
        limbs_value(self.limb0, self.limb1, self.limb2, self.limb3)
    }

    /// A canonical element's value lies below the field modulus.
    pub open spec fn wf(self) -> bool {
        self.value() < modulus()
    }

    /// The field's additive identity.
    pub fn zero() -> (r: Element)
        ensures
            r == spec_zero(),
            r.value() == 0,
            r.wf(),
    {
        proof {
            lemma_modulus_exceeds_u64();
        }
        Element { limb0: 0, limb1: 0, limb2: 0, limb3: 0 }
    }

    /// The element whose value is the given machine integer.
    pub fn from_u64(x: u64) -> (r: Element)
        ensures
            r.value() == x,
            r.wf(),
    {
        proof {
            lemma_modulus_exceeds_u64();
        }
        Element { limb0: x, limb1: 0, limb2: 0, limb3: 0 }
    }

    /// Builds the element with the given limbs, if its value is canonical;
    /// rejects exactly the limb quadruples at or above the modulus.
    pub fn new(l0: u64, l1: u64, l2: u64, l3: u64) -> (r: Option<Element>)
        ensures
            (r is Some) <==> limbs_value(l0, l1, l2, l3) < modulus(),
            r matches Some(e) ==> e == (Element { limb0: l0, limb1: l1, limb2: l2, limb3: l3 })
                && e.wf(),
    {
        proof {
            lemma_lex_iff_value_lt(
                l0, l1, l2, l3,
                MODULUS_LIMB_0, MODULUS_LIMB_1, MODULUS_LIMB_2, MODULUS_LIMB_3,
            );
        }
        let below: bool = l3 < MODULUS_LIMB_3 || (l3 == MODULUS_LIMB_3 && (l2 < MODULUS_LIMB_2
            || (l2 == MODULUS_LIMB_2 && (l1 < MODULUS_LIMB_1 || (l1 == MODULUS_LIMB_1 && l0
            < MODULUS_LIMB_0)))));
        if below {
            Some(Element { limb0: l0, limb1: l1, limb2: l2, limb3: l3 })
        } else {
            None
        }
    }
}

/// The additive identity, as a value.
pub open spec fn spec_zero() -> Element {
    Element { limb0: 0, limb1: 0, limb2: 0, limb3: 0 }
}

/// The modulus does not fit in one limb, so every single-limb value is canonical.
pub proof fn lemma_modulus_exceeds_u64()
    ensures
        modulus() > 0xffff_ffff_ffff_ffff,
{
    assert(modulus() > 0xffff_ffff_ffff_ffff) by (nonlinear_arith);
}

/// Comparing two limb quadruples lexicographically, most significant limb
/// first, agrees with comparing their packed integer values.
pub proof fn lemma_lex_iff_value_lt(
    a0: u64, a1: u64, a2: u64, a3: u64,
    b0: u64, b1: u64, b2: u64, b3: u64,
)
    ensures
        limbs_lex_lt(a0, a1, a2, a3, b0, b1, b2, b3) <==> limbs_value(a0, a1, a2, a3)
            < limbs_value(b0, b1, b2, b3),
{
    let ka2: nat = (a2 as nat) + 0x1_0000_0000_0000_0000 * (a3 as nat);
    let kb2: nat = (b2 as nat) + 0x1_0000_0000_0000_0000 * (b3 as nat);
    let ka1: nat = (a1 as nat) + 0x1_0000_0000_0000_0000 * ka2;
    let kb1: nat = (b1 as nat) + 0x1_0000_0000_0000_0000 * kb2;
    lemma_pair_lt(a2, a3 as nat, b2, b3 as nat);
    lemma_pair_lt(b2, b3 as nat, a2, a3 as nat);
    lemma_pair_lt(a1, ka2, b1, kb2);
    lemma_pair_lt(b1, kb2, a1, ka2);
    lemma_pair_lt(a0, ka1, b0, kb1);
    lemma_pair_lt(b0, kb1, a0, ka1);
    assert(ka2 == kb2 <==> (a2 == b2 && a3 == b3));
    assert(ka1 == kb1 <==> (a1 == b1 && a2 == b2 && a3 == b3));
}

/// Splitting off the lowest limb preserves the order of packed values.
proof fn lemma_pair_lt(alo: u64, ahi: nat, blo: u64, bhi: nat)
    ensures
        ((alo as nat) + 0x1_0000_0000_0000_0000 * ahi < (blo as nat) + 0x1_0000_0000_0000_0000
            * bhi) <==> (ahi < bhi || (ahi == bhi && alo < blo)),
{
    if ahi < bhi {
        assert((alo as nat) + 0x1_0000_0000_0000_0000 * ahi < (blo as nat)
            + 0x1_0000_0000_0000_0000 * bhi) by (nonlinear_arith)
            requires
                alo < 0x1_0000_0000_0000_0000,
                ahi < bhi,
        ;
    } else if bhi < ahi {
        assert((blo as nat) + 0x1_0000_0000_0000_0000 * bhi < (alo as nat)
            + 0x1_0000_0000_0000_0000 * ahi) by (nonlinear_arith)
            requires
                blo < 0x1_0000_0000_0000_0000,
                bhi < ahi,
        ;
    }
}

/// The backend's canonical encoding of an element: its limbs as 32
/// little-endian bytes.
pub open spec fn backend_encoding(e: Element) -> Seq<u8> {
    spec_u64_to_le_bytes(e.limb0) + spec_u64_to_le_bytes(e.limb1) + spec_u64_to_le_bytes(e.limb2)
        + spec_u64_to_le_bytes(e.limb3)
}

/// The limb read from eight consecutive bytes of an encoding.
pub open spec fn decoded_limb(b: Seq<u8>, i: int) -> u64 {
    spec_u64_from_le_bytes(b.subrange(8 * i, 8 * i + 8))
}

/// Converts an element into the backend's 32-byte little-endian encoding.
pub fn to_backend_bytes(e: &Element) -> (r: Vec<u8>)
    ensures
        r@ == backend_encoding(*e),
        r@.len() == 32,
{
    let mut out = u64_to_le_bytes(e.limb0);
    let mut part1 = u64_to_le_bytes(e.limb1);
    let mut part2 = u64_to_le_bytes(e.limb2);
    let mut part3 = u64_to_le_bytes(e.limb3);
    out.append(&mut part1);
    out.append(&mut part2);
    out.append(&mut part3);
    out
}

/// Reads an element back from the backend's encoding. Succeeds exactly on
/// 32-byte strings whose decoded value is canonical, and the element read
/// back encodes to the very bytes given.
pub fn from_backend_bytes(b: &[u8]) -> (r: Option<Element>)
    ensures
        (r is Some) <==> (b@.len() == 32 && limbs_value(
            decoded_limb(b@, 0),
            decoded_limb(b@, 1),
            decoded_limb(b@, 2),
            decoded_limb(b@, 3),
        ) < modulus()),
        r matches Some(e) ==> e == (Element {
            limb0: decoded_limb(b@, 0),
            limb1: decoded_limb(b@, 1),
            limb2: decoded_limb(b@, 2),
            limb3: decoded_limb(b@, 3),
        }) && e.wf() && backend_encoding(e) == b@,
{
    if b.len() != 32 {
        return None;
    }
    let l0 = u64_from_le_bytes(slice_subrange(b, 0, 8));
    let l1 = u64_from_le_bytes(slice_subrange(b, 8, 16));
    let l2 = u64_from_le_bytes(slice_subrange(b, 16, 24));
    let l3 = u64_from_le_bytes(slice_subrange(b, 24, 32));
    proof {
        lemma_auto_spec_u64_to_from_le_bytes();
        assert(spec_u64_to_le_bytes(l0) == b@.subrange(0, 8));
        assert(spec_u64_to_le_bytes(l1) == b@.subrange(8, 16));
        assert(spec_u64_to_le_bytes(l2) == b@.subrange(16, 24));
        assert(spec_u64_to_le_bytes(l3) == b@.subrange(24, 32));
        assert(b@ =~= b@.subrange(0, 8) + b@.subrange(8, 16) + b@.subrange(16, 24) + b@.subrange(
            24,
            32,
        ));
    }
    Element::new(l0, l1, l2, l3)
}

/// Round trip: a canonical element's backend encoding decodes to the same
/// element, limb for limb, and its decoded value stays canonical.
pub proof fn lemma_backend_encoding_round_trip(e: Element)
    requires
        e.wf(),
    ensures
        backend_encoding(e).len() == 32,
        decoded_limb(backend_encoding(e), 0) == e.limb0,
        decoded_limb(backend_encoding(e), 1) == e.limb1,
        decoded_limb(backend_encoding(e), 2) == e.limb2,
        decoded_limb(backend_encoding(e), 3) == e.limb3,
        limbs_value(
            decoded_limb(backend_encoding(e), 0),
            decoded_limb(backend_encoding(e), 1),
            decoded_limb(backend_encoding(e), 2),
            decoded_limb(backend_encoding(e), 3),
        ) < modulus(),
{
    lemma_auto_spec_u64_to_from_le_bytes();
    let s0 = spec_u64_to_le_bytes(e.limb0);
    let s1 = spec_u64_to_le_bytes(e.limb1);
    let s2 = spec_u64_to_le_bytes(e.limb2);
    let s3 = spec_u64_to_le_bytes(e.limb3);
    let b = backend_encoding(e);
    assert(b.subrange(0, 8) =~= s0);
    assert(b.subrange(8, 16) =~= s1);
    assert(b.subrange(16, 24) =~= s2);
    assert(b.subrange(24, 32) =~= s3);
}

}
