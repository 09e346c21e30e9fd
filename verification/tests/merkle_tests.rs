use blake2::Digest;
use va_registry::hashing::{bytes_eq, leaf_hash, node_hash};
use va_registry::proofs::{verify, MerkleProof, ProofNode};

fn blake2b_256(data: &[u8]) -> Vec<u8> {
    let mut hasher = blake2::Blake2b::<blake2::digest::consts::U32>::new();
    hasher.update(data);
    hasher.finalize().to_vec()
}

#[test]
fn leaf_hash_matches_blake2b_256_of_concatenation() {
    let h = leaf_hash(b"name".to_vec(), b"Gold Bar".to_vec());
    assert_eq!(h, blake2b_256(b"nameGold Bar"));
    assert_eq!(h.len(), 32);
}

#[test]
fn leaf_hash_is_order_sensitive() {
    let ab = leaf_hash(b"ab".to_vec(), b"cd".to_vec());
    let cd = leaf_hash(b"cd".to_vec(), b"ab".to_vec());
    assert_ne!(ab, cd);
}

#[test]
fn node_hash_matches_blake2b_256_of_concatenation() {
    let left = vec![1u8, 2, 3];
    let right = vec![4u8, 5];
    assert_eq!(node_hash(&left, &right), blake2b_256(&[1u8, 2, 3, 4, 5]));
}

#[test]
fn bytes_eq_compares_contents() {
    assert!(bytes_eq(&vec![1u8, 2], &vec![1u8, 2]));
    assert!(!bytes_eq(&vec![1u8, 2], &vec![1u8, 3]));
    assert!(!bytes_eq(&vec![1u8, 2], &vec![1u8, 2, 3]));
}

#[test]
fn empty_path_verifies_only_against_the_leaf_itself() {
    let leaf = leaf_hash(b"name".to_vec(), b"Gold Bar".to_vec());
    let pf = MerkleProof { nodes: vec![] };
    assert!(verify(&leaf, &pf, &leaf));
    let other = leaf_hash(b"name".to_vec(), b"Silver Bar".to_vec());
    assert!(!verify(&leaf, &pf, &other));
}

#[test]
fn round_trip_two_leaf_tree() {
    let leaf0 = leaf_hash(b"name".to_vec(), b"Gold Bar".to_vec());
    let leaf1 = leaf_hash(b"weight".to_vec(), b"1kg".to_vec());
    let root = node_hash(&leaf0, &leaf1);

    let pf0 = MerkleProof { nodes: vec![ProofNode { is_left: false, hash: leaf1.clone() }] };
    let pf1 = MerkleProof { nodes: vec![ProofNode { is_left: true, hash: leaf0.clone() }] };
    assert!(verify(&leaf0, &pf0, &root));
    assert!(verify(&leaf1, &pf1, &root));
}

#[test]
fn flipping_one_value_byte_breaks_verification() {
    let leaf0 = leaf_hash(b"name".to_vec(), b"Gold Bar".to_vec());
    let leaf1 = leaf_hash(b"weight".to_vec(), b"1kg".to_vec());
    let root = node_hash(&leaf0, &leaf1);
    let pf1 = MerkleProof { nodes: vec![ProofNode { is_left: true, hash: leaf0.clone() }] };

    let mut value = b"1kg".to_vec();
    value[0] ^= 0x01;
    let tampered = leaf_hash(b"weight".to_vec(), value);
    assert!(!verify(&tampered, &pf1, &root));
}

#[test]
fn round_trip_four_leaf_tree() {
    let leaves: Vec<Vec<u8>> = vec![
        leaf_hash(b"a".to_vec(), b"1".to_vec()),
        leaf_hash(b"b".to_vec(), b"2".to_vec()),
        leaf_hash(b"c".to_vec(), b"3".to_vec()),
        leaf_hash(b"d".to_vec(), b"4".to_vec()),
    ];
    let left = node_hash(&leaves[0], &leaves[1]);
    let right = node_hash(&leaves[2], &leaves[3]);
    let root = node_hash(&left, &right);

    // Path for leaf 2: sibling leaf 3 on the right, then the left
    // subtree's hash on the left.
    let pf2 = MerkleProof {
        nodes: vec![
            ProofNode { is_left: false, hash: leaves[3].clone() },
            ProofNode { is_left: true, hash: left.clone() },
        ],
    };
    assert!(verify(&leaves[2], &pf2, &root));
    assert!(!verify(&leaves[1], &pf2, &root));
}
