//! Merkle inclusion proofs.
//!
//! A proof lists the sibling hashes on the path from a leaf up to the
//! root, innermost first. Each step records on which side the sibling
//! stands: a left sibling is prepended (`hash(sibling ++ current)`), a
//! right sibling is appended (`hash(current ++ sibling)`). A proof is
//! valid for a leaf and a root exactly when folding the leaf through every
//! step reproduces the root.

use vstd::prelude::*;

use crate::hashing::{bytes_eq, clone_bytes, hash_of, node_hash};

verus! {

/// One step of a Merkle inclusion proof: the sibling hash, and whether it
/// stands to the left of the running hash.
#[derive(Clone)]
pub struct ProofNode {
    pub is_left: bool,
    pub hash: Vec<u8>,
}

/// The mathematical abstraction of a `ProofNode`.
pub struct ProofNodeV {
    pub is_left: bool,
    pub hash: Seq<u8>,
}

impl View for ProofNode {
    type V = ProofNodeV;

    open spec fn view(&self) -> ProofNodeV {
        ProofNodeV { is_left: self.is_left, hash: self.hash@ }
    }
}

impl DeepView for ProofNode {
    type V = ProofNodeV;

    open spec fn deep_view(&self) -> ProofNodeV {
        self.view()
    }
}

/// A Merkle inclusion proof: the ordered sibling path from the leaf up to
/// the root.
#[derive(Clone)]
pub struct MerkleProof {
    pub nodes: Vec<ProofNode>,
}

impl View for MerkleProof {
    type V = Seq<ProofNodeV>;

    open spec fn view(&self) -> Seq<ProofNodeV> {
        self.nodes.deep_view()
    }
}

impl DeepView for MerkleProof {
    type V = Seq<ProofNodeV>;

    open spec fn deep_view(&self) -> Seq<ProofNodeV> {
        self.view()
    }
}

/// The root reached by folding `leaf` through every step of the sibling
/// path, in path order.
pub open spec fn compute_root(leaf: Seq<u8>, path: Seq<ProofNodeV>) -> Seq<u8>
    decreases path.len(),
{
    if path.len() == 0 {
        leaf
    } else {
        let combined = if path[0].is_left {
            hash_of(path[0].hash + leaf)
        } else {
            hash_of(leaf + path[0].hash)
        };
        compute_root(combined, path.drop_first())
    }
}

/// The root of the Merkle tree built over the given leaf hashes: a single
/// leaf is its own root, and a longer sequence is split in half, with the
/// root the hash of the left half's root followed by the right half's
/// root.
pub open spec fn merkle_root(leaves: Seq<Seq<u8>>) -> Seq<u8>
    decreases leaves.len(),
{
    if leaves.len() == 0 {
        Seq::empty()
    } else if leaves.len() == 1 {
        leaves[0]
    } else {
        let mid = leaves.len() as int / 2;
        hash_of(merkle_root(leaves.take(mid)) + merkle_root(leaves.skip(mid)))
    }
}

/// The sibling path for leaf `i` of the Merkle tree built over `leaves`,
/// ordered from the leaf up to the root.
pub open spec fn merkle_path(leaves: Seq<Seq<u8>>, i: int) -> Seq<ProofNodeV>
    decreases leaves.len(),
{
    if leaves.len() <= 1 {
        Seq::empty()
    } else {
        let mid = leaves.len() as int / 2;
        if i < mid {
            merkle_path(leaves.take(mid), i).push(
                ProofNodeV { is_left: false, hash: merkle_root(leaves.skip(mid)) },
            )
        } else {
            merkle_path(leaves.skip(mid), i - mid).push(
                ProofNodeV { is_left: true, hash: merkle_root(leaves.take(mid)) },
            )
        }
    }
}

/// Folding through a path extended by one step combines the fold of the
/// shorter path with the extra sibling.
proof fn lemma_compute_root_push(leaf: Seq<u8>, path: Seq<ProofNodeV>, node: ProofNodeV)
    ensures
        compute_root(leaf, path.push(node)) == (if node.is_left {
            hash_of(node.hash + compute_root(leaf, path))
        } else {
            hash_of(compute_root(leaf, path) + node.hash)
        }),
    decreases path.len(),
{
    if path.len() == 0 {
        assert(path.push(node)[0] == node);
        assert(path.push(node).drop_first() =~= Seq::<ProofNodeV>::empty());
        let combined = if node.is_left {
            hash_of(node.hash + leaf)
        } else {
            hash_of(leaf + node.hash)
        };
        assert(compute_root(leaf, path.push(node)) == compute_root(
            combined,
            Seq::<ProofNodeV>::empty(),
        ));
        assert(compute_root(leaf, path) == leaf);
    } else {
        assert(path.push(node)[0] == path[0]);
        assert(path.push(node).drop_first() =~= path.drop_first().push(node));
        let combined = if path[0].is_left {
            hash_of(path[0].hash + leaf)
        } else {
            hash_of(leaf + path[0].hash)
        };
        assert(compute_root(leaf, path.push(node)) == compute_root(
            combined,
            path.drop_first().push(node),
        ));
        assert(compute_root(leaf, path) == compute_root(combined, path.drop_first()));
        lemma_compute_root_push(combined, path.drop_first(), node);
    }
}

/// Round trip: the sibling path built for any leaf of a Merkle tree folds
/// that leaf back to the tree's root, so `verify` accepts a proof built
/// against a root committed over exactly the submitted leaves.
pub proof fn lemma_merkle_path_verifies(leaves: Seq<Seq<u8>>, i: int)
    requires
        0 <= i < leaves.len(),
    ensures
        compute_root(leaves[i], merkle_path(leaves, i)) == merkle_root(leaves),
    decreases leaves.len(),
{
    if leaves.len() > 1 {
        let mid = leaves.len() as int / 2;
        if i < mid {
            lemma_merkle_path_verifies(leaves.take(mid), i);
            lemma_compute_root_push(
                leaves[i],
                merkle_path(leaves.take(mid), i),
                ProofNodeV { is_left: false, hash: merkle_root(leaves.skip(mid)) },
            );
            assert(leaves.take(mid)[i] == leaves[i]);
        } else {
            lemma_merkle_path_verifies(leaves.skip(mid), i - mid);
            lemma_compute_root_push(
                leaves[i],
                merkle_path(leaves.skip(mid), i - mid),
                ProofNodeV { is_left: true, hash: merkle_root(leaves.take(mid)) },
            );
            assert(leaves.skip(mid)[i - mid] == leaves[i]);
        }
    }
}

/// Decides inclusion: whether folding `leaf` through the sibling path of
/// `pf` reproduces `expected_root`.
pub fn verify(leaf: &Vec<u8>, pf: &MerkleProof, expected_root: &Vec<u8>) -> (r: bool)
    ensures
        r == (compute_root(leaf@, pf@) == expected_root@),
{
    let mut current = clone_bytes(leaf);
    let mut i: usize = 0;
    proof {
        assert(pf@.skip(0) =~= pf@);
    }
    while i < pf.nodes.len()
        invariant
            i <= pf.nodes@.len(),
            compute_root(current@, pf@.skip(i as int)) == compute_root(leaf@, pf@),
        decreases pf.nodes@.len() - i,
    {
        let node = &pf.nodes[i];
        let next = if node.is_left {
            node_hash(&node.hash, &current)
        } else {
            node_hash(&current, &node.hash)
        };
        proof {
            assert(pf@.skip(i as int)[0] == pf@[i as int]);
            assert(pf@.skip(i as int).drop_first() =~= pf@.skip(i as int + 1));
        }
        current = next;
        i = i + 1;
    }
    proof {
        assert(pf@.skip(pf.nodes@.len() as int) =~= Seq::<ProofNodeV>::empty());
    }
    bytes_eq(&current, expected_root)
}

} // verus!
