use bls12_381::Scalar;
use r1cs_bellman::field::{
    from_backend_bytes, to_backend_bytes, Element, MODULUS_LIMB_0, MODULUS_LIMB_1, MODULUS_LIMB_2,
    MODULUS_LIMB_3,
};

fn limbs(e: &Element) -> [u64; 4] {
    [e.limb0, e.limb1, e.limb2, e.limb3]
}

fn round_trip(e: Element) {
    let bytes = to_backend_bytes(&e);
    assert_eq!(bytes.len(), 32);
    let back = from_backend_bytes(&bytes).unwrap();
    assert_eq!(back, e);
}

#[test]
fn encoding_round_trips() {
    round_trip(Element::zero());
    round_trip(Element::from_u64(1));
    round_trip(Element::from_u64(6));
    round_trip(Element::from_u64(u64::MAX));
    // The largest canonical element: the modulus minus one.
    let top = Element::new(
        MODULUS_LIMB_0 - 1,
        MODULUS_LIMB_1,
        MODULUS_LIMB_2,
        MODULUS_LIMB_3,
    )
    .unwrap();
    round_trip(top);
}

#[test]
fn constructor_rejects_values_at_or_above_the_modulus() {
    assert!(Element::new(MODULUS_LIMB_0, MODULUS_LIMB_1, MODULUS_LIMB_2, MODULUS_LIMB_3).is_none());
    assert!(Element::new(0, 0, 0, u64::MAX).is_none());
    assert!(
        Element::new(MODULUS_LIMB_0 - 1, MODULUS_LIMB_1, MODULUS_LIMB_2, MODULUS_LIMB_3).is_some()
    );
    assert!(Element::new(u64::MAX, u64::MAX, u64::MAX, MODULUS_LIMB_3 - 1).is_some());
}

#[test]
fn decoding_rejects_noncanonical_and_bad_length() {
    // The modulus itself, encoded by hand, is not a canonical element.
    let mut bytes: Vec<u8> = Vec::new();
    for limb in [MODULUS_LIMB_0, MODULUS_LIMB_1, MODULUS_LIMB_2, MODULUS_LIMB_3] {
        bytes.extend_from_slice(&limb.to_le_bytes());
    }
    assert!(from_backend_bytes(&bytes).is_none());
    assert!(from_backend_bytes(&bytes[..31]).is_none());
    assert!(from_backend_bytes(&[]).is_none());
    // All bytes high: far above the modulus.
    assert!(from_backend_bytes(&[0xffu8; 32]).is_none());
}

#[test]
fn encoding_matches_backend_scalars() {
    // The backend's own canonical encoding of the same value is the very
    // byte string this library produces.
    let samples = [
        Element::zero(),
        Element::from_u64(1),
        Element::from_u64(6),
        Element::from_u64(u64::MAX),
        Element::new(MODULUS_LIMB_0 - 1, MODULUS_LIMB_1, MODULUS_LIMB_2, MODULUS_LIMB_3).unwrap(),
    ];
    for e in samples {
        let scalar = Scalar::from_raw(limbs(&e));
        assert_eq!(to_backend_bytes(&e), scalar.to_bytes().to_vec());
    }
}

#[test]
fn round_trip_through_backend_scalar() {
    // Independent round trip: library encoding -> backend scalar ->
    // backend encoding -> library element, unchanged.
    let e = Element::from_u64(123_456_789);
    let scalar = Scalar::from_bytes(&to_backend_bytes(&e).try_into().unwrap()).unwrap();
    let back = from_backend_bytes(&scalar.to_bytes()).unwrap();
    assert_eq!(back, e);
}
