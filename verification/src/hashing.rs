//! The hash primitive and byte-string helpers.
//!
//! Every hash in this crate is the 256-bit BLAKE2b digest of a byte string.
//! Leaf hashes are digests of the concatenation `field ++ value`, and inner
//! Merkle nodes are digests of the concatenation `left ++ right`; the
//! concatenation order is significant in both places.

use vstd::prelude::*;

verus! {

/// The digest of a byte string. The digest is an opaque function of the
/// input bytes alone; the only fact stated beside it is its length.
pub uninterp spec fn hash_of(data: Seq<u8>) -> Seq<u8>;

/// Relies on blake2's `Blake2b` with 256-bit output, through
/// `digest::Digest::digest`: the digest is a pure function of the input
/// bytes alone and is always 32 bytes long.
#[verifier::external_body]
fn hash_bytes(data: &Vec<u8>) -> (r: Vec<u8>)
    ensures
        r@ == hash_of(data@),
        r@.len() == 32,
{
    let digest = <blake2::Blake2b<blake2::digest::consts::U32> as blake2::Digest>::digest(
        data.as_slice(),
    );
    digest.to_vec()
}

/// A byte string's deep view is its view.
pub proof fn lemma_bytes_deep_view(v: Vec<u8>)
    ensures
        v.deep_view() == v@,
{
    assert(v.deep_view() =~= v@);
}

/// Copies a byte string.
pub fn clone_bytes(v: &Vec<u8>) -> (r: Vec<u8>)
    ensures
        r@ == v@,
{
    let mut r: Vec<u8> = Vec::new();
    let mut i: usize = 0;
    while i < v.len()
        invariant
            i <= v@.len(),
            r@ == v@.subrange(0, i as int),
        decreases v@.len() - i,
    {
        r.push(v[i]);
        i = i + 1;
        proof {
            assert(r@ =~= v@.subrange(0, i as int));
        }
    }
    proof {
        assert(r@ =~= v@);
    }
    r
}

/// Concatenates two byte strings.
pub fn concat_bytes(a: &Vec<u8>, b: &Vec<u8>) -> (r: Vec<u8>)
    ensures
        r@ == a@ + b@,
{
    let mut r = clone_bytes(a);
    let mut i: usize = 0;
    while i < b.len()
        invariant
            i <= b@.len(),
            r@ == a@ + b@.subrange(0, i as int),
        decreases b@.len() - i,
    {
        r.push(b[i]);
        i = i + 1;
        proof {
            assert(r@ =~= a@ + b@.subrange(0, i as int));
        }
    }
    proof {
        assert(r@ =~= a@ + b@);
    }
    r
}

/// Compares two byte strings for equality of their contents.
pub fn bytes_eq(a: &Vec<u8>, b: &Vec<u8>) -> (r: bool)
    ensures
        r == (a@ == b@),
{
    if a.len() != b.len() {
        return false;
    }
    let mut i: usize = 0;
    while i < a.len()
        invariant
            i <= a@.len(),
            a@.len() == b@.len(),
            forall|j: int| 0 <= j < i ==> a@[j] == b@[j],
        decreases a@.len() - i,
    {
        if a[i] != b[i] {
            return false;
        }
        i = i + 1;
    }
    proof {
        assert(a@ =~= b@);
    }
    true
}

/// Generates the leaf hash of a field-name/value pair: the digest of the
/// order-sensitive concatenation `field ++ value`.
pub fn leaf_hash(field: Vec<u8>, value: Vec<u8>) -> (h: Vec<u8>)
    ensures
        h@ == hash_of(field@ + value@),
        h@.len() == 32,
{
    let data = concat_bytes(&field, &value);
    hash_bytes(&data)
}

/// Generates the hash of an inner Merkle node: the digest of the
/// order-sensitive concatenation `left ++ right`.
pub fn node_hash(left: &Vec<u8>, right: &Vec<u8>) -> (h: Vec<u8>)
    ensures
        h@ == hash_of(left@ + right@),
        h@.len() == 32,
{
    let data = concat_bytes(left, right);
    hash_bytes(&data)
}

} // verus!
