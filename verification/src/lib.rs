//! Translation of a generic rank-1 constraint system into the form a
//! pairing-based zk-SNARK proving backend consumes.
//!
//! The library resolves generic wires against a witness assignment and a
//! public-input set, translates linear expressions into resolved term
//! lists, and lays out the full ordered list of constraint registrations
//! for one synthesis pass. The backend's own allocation and registration
//! calls are driven by a thin adapter outside this crate; everything the
//! pass decides — values, visibility, coefficients, order — is computed
//! and specified here.

pub mod circuit;
pub mod field;
pub mod laws;
pub mod translate;
