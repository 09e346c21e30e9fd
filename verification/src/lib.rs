//! A verifiable asset registry: named registries each define an ordered
//! schema of byte-string fields, and minting an asset into a registry is
//! gated on Merkle inclusion proofs that tie every submitted field value to
//! a previously anchored document root.

pub mod hashing;
pub mod ledger;
pub mod proofs;
pub mod registry;
pub mod types;
