use va_registry::hashing::{leaf_hash, node_hash};
use va_registry::ledger::SimpleLedger;
use va_registry::proofs::{MerkleProof, ProofNode};
use va_registry::registry::Module;
use va_registry::types::{AssetInfo, Error, LedgerError, MintInfo, RegistryInfo};

const OWNER: u64 = 7;

fn gold_bar_registry() -> RegistryInfo {
    RegistryInfo { owner_can_burn: false, fields: vec![b"name".to_vec(), b"weight".to_vec()] }
}

/// Anchors a two-leaf document for the given values and returns the mint
/// request that proves them.
fn anchored_mint_info(registry: &mut Module, name: &[u8], weight: &[u8]) -> MintInfo {
    let leaf0 = leaf_hash(b"name".to_vec(), name.to_vec());
    let leaf1 = leaf_hash(b"weight".to_vec(), weight.to_vec());
    let root = node_hash(&leaf0, &leaf1);
    let anchor_id = b"doc-1".to_vec();
    registry.set_anchor(anchor_id.clone(), root);
    MintInfo {
        anchor_id,
        proofs: vec![
            MerkleProof { nodes: vec![ProofNode { is_left: false, hash: leaf1.clone() }] },
            MerkleProof { nodes: vec![ProofNode { is_left: true, hash: leaf0.clone() }] },
        ],
        values: vec![name.to_vec(), weight.to_vec()],
    }
}

#[test]
fn create_registry_ids_are_distinct_and_increasing() {
    let mut registry = Module::new();
    let id0 = registry.create_registry(gold_bar_registry()).unwrap();
    let id1 = registry.create_registry(gold_bar_registry()).unwrap();
    let id2 = registry
        .create_registry(RegistryInfo { owner_can_burn: true, fields: vec![] })
        .unwrap();
    assert_eq!(id0, 0);
    assert_eq!(id1, 1);
    assert_eq!(id2, 2);
    assert!(id0 < id1 && id1 < id2);
}

#[test]
fn identical_metadata_makes_two_distinct_registries() {
    let mut registry = Module::new();
    let id0 = registry.create_registry(gold_bar_registry()).unwrap();
    let id1 = registry.create_registry(gold_bar_registry()).unwrap();
    assert_ne!(id0, id1);
    assert!(registry.registry_exists(id0));
    assert!(registry.registry_exists(id1));
}

#[test]
fn get_registry_is_idempotent_and_stable() {
    let mut registry = Module::new();
    let id = registry.create_registry(gold_bar_registry()).unwrap();

    let first = registry.get_registry(id).unwrap();
    let second = registry.get_registry(id).unwrap();
    assert_eq!(first.fields, second.fields);
    assert_eq!(first.owner_can_burn, second.owner_can_burn);

    // Later creations do not disturb the stored metadata.
    registry.create_registry(RegistryInfo { owner_can_burn: true, fields: vec![] }).unwrap();
    let third = registry.get_registry(id).unwrap();
    assert_eq!(third.fields, vec![b"name".to_vec(), b"weight".to_vec()]);
    assert!(!third.owner_can_burn);
}

#[test]
fn get_registry_absent_is_none() {
    let registry = Module::new();
    assert!(registry.get_registry(0).is_none());
    assert!(!registry.registry_exists(0));
}

#[test]
fn get_document_root_resolves_latest_commitment() {
    let mut registry = Module::new();
    assert_eq!(
        registry.get_document_root(&b"doc-1".to_vec()),
        Err(Error::DocumentNotAnchored)
    );
    registry.set_anchor(b"doc-1".to_vec(), vec![1u8; 32]);
    assert_eq!(registry.get_document_root(&b"doc-1".to_vec()), Ok(vec![1u8; 32]));
    registry.set_anchor(b"doc-1".to_vec(), vec![2u8; 32]);
    assert_eq!(registry.get_document_root(&b"doc-1".to_vec()), Ok(vec![2u8; 32]));
}

#[test]
fn mint_rejects_unknown_registry() {
    let mut registry = Module::new();
    let mut ledger = SimpleLedger::new(10);
    let mint_info = MintInfo { anchor_id: b"doc-1".to_vec(), proofs: vec![], values: vec![] };
    let r = registry.mint(&mut ledger, OWNER, AssetInfo { registry_id: 9 }, mint_info);
    assert_eq!(r, Err(Error::RegistryDoesNotExist));
}

#[test]
fn mint_rejects_arity_mismatch() {
    let mut registry = Module::new();
    let mut ledger = SimpleLedger::new(10);
    let rid = registry.create_registry(gold_bar_registry()).unwrap();
    let mut mint_info = anchored_mint_info(&mut registry, b"Gold Bar", b"1kg");

    // One value short of the two-field schema.
    mint_info.values.pop();
    let r = registry.mint(&mut ledger, OWNER, AssetInfo { registry_id: rid }, mint_info);
    assert_eq!(r, Err(Error::InvalidMintingValues));
    assert!(!registry.is_member(rid, 0));

    // One proof too many.
    let mut over = anchored_mint_info(&mut registry, b"Gold Bar", b"1kg");
    over.proofs.push(MerkleProof { nodes: vec![] });
    let r = registry.mint(&mut ledger, OWNER, AssetInfo { registry_id: rid }, over);
    assert_eq!(r, Err(Error::InvalidMintingValues));
    assert!(!registry.is_member(rid, 0));
}

#[test]
fn mint_rejects_unanchored_document() {
    let mut registry = Module::new();
    let mut ledger = SimpleLedger::new(10);
    let rid = registry.create_registry(gold_bar_registry()).unwrap();
    let mut mint_info = anchored_mint_info(&mut registry, b"Gold Bar", b"1kg");
    mint_info.anchor_id = b"doc-unknown".to_vec();
    let r = registry.mint(&mut ledger, OWNER, AssetInfo { registry_id: rid }, mint_info);
    assert_eq!(r, Err(Error::DocumentNotAnchored));
    assert!(!registry.is_member(rid, 0));
}

#[test]
fn mint_is_all_or_nothing_on_one_bad_proof() {
    let mut registry = Module::new();
    let mut ledger = SimpleLedger::new(10);
    let rid = registry.create_registry(gold_bar_registry()).unwrap();
    let mut mint_info = anchored_mint_info(&mut registry, b"Gold Bar", b"1kg");

    // Corrupt only the second field's proof.
    mint_info.proofs[1].nodes[0].hash[0] ^= 0x01;
    let r = registry.mint(&mut ledger, OWNER, AssetInfo { registry_id: rid }, mint_info);
    assert_eq!(r, Err(Error::InvalidProof));
    assert!(!registry.is_member(rid, 0));
}

#[test]
fn successful_mint_records_membership_in_exactly_one_registry() {
    let mut registry = Module::new();
    let mut ledger = SimpleLedger::new(10);
    let rid = registry.create_registry(gold_bar_registry()).unwrap();
    let other = registry.create_registry(gold_bar_registry()).unwrap();
    let mint_info = anchored_mint_info(&mut registry, b"Gold Bar", b"1kg");

    let asset_id = registry
        .mint(&mut ledger, OWNER, AssetInfo { registry_id: rid }, mint_info)
        .unwrap();
    assert!(registry.is_member(rid, asset_id));
    assert!(!registry.is_member(other, asset_id));
}

#[test]
fn mint_propagates_ledger_failure_without_membership() {
    let mut registry = Module::new();
    let mut ledger = SimpleLedger::new(0);
    let rid = registry.create_registry(gold_bar_registry()).unwrap();
    let mint_info = anchored_mint_info(&mut registry, b"Gold Bar", b"1kg");

    let r = registry.mint(&mut ledger, OWNER, AssetInfo { registry_id: rid }, mint_info);
    assert_eq!(r, Err(Error::Ledger(LedgerError::SupplyExhausted)));
    assert!(!registry.is_member(rid, 0));
}

#[test]
fn end_to_end_gold_bar_scenario() {
    let mut registry = Module::new();
    let mut ledger = SimpleLedger::new(10);
    let rid = registry.create_registry(gold_bar_registry()).unwrap();

    // Anchor the document committing name = "Gold Bar", weight = "1kg".
    let good = anchored_mint_info(&mut registry, b"Gold Bar", b"1kg");
    let proofs = good.proofs.clone();
    let anchor_id = good.anchor_id.clone();

    let asset_id = registry
        .mint(&mut ledger, OWNER, AssetInfo { registry_id: rid }, good)
        .unwrap();
    assert!(registry.is_member(rid, asset_id));

    // Same proofs, but the weight value changed: rejected.
    let tampered = MintInfo {
        anchor_id,
        proofs,
        values: vec![b"Gold Bar".to_vec(), b"2kg".to_vec()],
    };
    let r = registry.mint(&mut ledger, OWNER, AssetInfo { registry_id: rid }, tampered);
    assert_eq!(r, Err(Error::InvalidProof));
}
