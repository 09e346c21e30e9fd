//! The data model: registry identifiers and metadata, asset data, mint
//! requests, and the error taxonomy.

use vstd::prelude::*;

use crate::hashing::clone_bytes;
use crate::proofs::{MerkleProof, ProofNodeV};

verus! {

/// Identifies a registry; allocated from a strictly increasing nonce and
/// never reused.
pub type RegistryId = u128;

/// Identifies an asset inside the ledger.
pub type AssetId = u128;

/// A pre-authenticated caller identity, handed in by the surrounding
/// dispatch layer; this crate performs no credential checks itself.
pub type AccountId = u64;

/// Metadata for a registry instance: a policy flag and the ordered schema
/// of byte-string field names. Immutable once created; the field order
/// defines the positional mapping used when validating mint values.
#[derive(Clone)]
pub struct RegistryInfo {
    pub owner_can_burn: bool,
    pub fields: Vec<Vec<u8>>,
}

/// The mathematical abstraction of a `RegistryInfo`.
pub struct RegistryInfoV {
    pub owner_can_burn: bool,
    pub fields: Seq<Seq<u8>>,
}

impl View for RegistryInfo {
    type V = RegistryInfoV;

    open spec fn view(&self) -> RegistryInfoV {
        RegistryInfoV { owner_can_burn: self.owner_can_burn, fields: self.fields.deep_view() }
    }
}

impl RegistryInfo {
    /// Copies the metadata; the copy abstracts to the same value.
    pub fn clone_info(&self) -> (r: RegistryInfo)
        ensures
            r@ == self@,
    {
        let mut fields: Vec<Vec<u8>> = Vec::new();
        let mut i: usize = 0;
        while i < self.fields.len()
            invariant
                i <= self.fields@.len(),
                fields@.len() == i,
                forall|j: int| 0 <= j < i ==> fields@[j]@ == self.fields@[j]@,
            decreases self.fields@.len() - i,
        {
            fields.push(clone_bytes(&self.fields[i]));
            i = i + 1;
        }
        let r = RegistryInfo { owner_can_burn: self.owner_can_burn, fields };
        proof {
            assert(r@.fields =~~= self@.fields);
        }
        r
    }
}

/// Data about an asset instance. The registry id is part of the asset's
/// identity-relevant content, so that content-derived asset identifiers
/// cannot collide across registries with otherwise identical data.
#[derive(Clone, Copy, PartialEq, Eq, Structural)]
pub struct AssetInfo {
    pub registry_id: RegistryId,
}

impl AssetInfo {
    /// The registry this asset belongs to.
    pub fn registry_id(&self) -> (r: RegistryId)
        ensures
            r == self.registry_id,
    {
        self.registry_id
    }
}

/// All data needed to decide whether a requested mint is valid: the anchor
/// whose committed document root the proofs are checked against, and one
/// proof and one value for each field of the registry's schema, in schema
/// order.
#[derive(Clone)]
pub struct MintInfo {
    pub anchor_id: Vec<u8>,
    pub proofs: Vec<MerkleProof>,
    pub values: Vec<Vec<u8>>,
}

/// The mathematical abstraction of a `MintInfo`.
pub struct MintInfoV {
    pub anchor_id: Seq<u8>,
    pub proofs: Seq<Seq<ProofNodeV>>,
    pub values: Seq<Seq<u8>>,
}

impl View for MintInfo {
    type V = MintInfoV;

    open spec fn view(&self) -> MintInfoV {
        MintInfoV {
            anchor_id: self.anchor_id@,
            proofs: self.proofs.deep_view(),
            values: self.values.deep_view(),
        }
    }
}

/// An opaque failure reported by the asset ledger; propagated unchanged.
#[derive(Clone, Copy, PartialEq, Eq, Structural, Debug)]
pub enum LedgerError {
    SupplyExhausted,
}

/// Why a registry operation was rejected. Every variant is terminal for
/// the triggering call; nothing is retried internally.
#[derive(Clone, Copy, PartialEq, Eq, Structural, Debug)]
pub enum Error {
    /// The referenced registry id is unknown.
    RegistryDoesNotExist,
    /// The values or proofs provided to a mint call do not match the
    /// length of the registry's fields vector.
    InvalidMintingValues,
    /// The anchor id has no committed document root on record.
    DocumentNotAnchored,
    /// At least one field's proof fails verification against the resolved
    /// document root.
    InvalidProof,
    /// The registry id space is exhausted; a fatal, non-retryable
    /// condition.
    NonceOverflow,
    /// The asset ledger refused issuance; its error is carried unchanged.
    Ledger(LedgerError),
}

} // verus!
