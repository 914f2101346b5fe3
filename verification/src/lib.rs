//! Verified C2PA provenance pipeline: container dissection, JUMBF box
//! walking, COSE/CBOR and X.509 projection, ECDSA P-256 signature
//! verification, trust classification, and the canonical public-outputs
//! record with its on-chain attestation model.

pub mod bytes;
pub mod hexes;
pub mod utf8;
pub mod dissect;
pub mod jpeg;
pub mod jumbf;
pub mod cbor;
pub mod cose;
pub mod x509;
pub mod claim;
pub mod crypto;
pub mod pipeline;
pub mod codec;
pub mod ledger;
pub mod encode;
pub mod inspect;
pub mod props;
pub mod identity;
pub mod api;
