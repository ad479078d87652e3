//! An identity-attestation registry: non-fungible records that carry a
//! per-account verification status, written only by holders of the Admin or
//! Gatekeeper role, behind a global pause gate and a one-time constructor.

pub mod identity;
pub mod metadata;
pub mod error;
pub mod status;
pub mod roles;
pub mod ledger;
pub mod policy;
pub mod registry;
pub mod laws;
