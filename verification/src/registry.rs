//! The registry store and the mint gate.
//!
//! `Module` is the explicit state object of the system: the nonce that
//! allocates registry ids, the registry table, the anchor store mapping
//! anchor ids to committed document roots, and the membership set
//! recording which assets were minted under which registry. Each public
//! operation is one atomic, serialized state transition.

use vstd::prelude::*;

use crate::hashing::{bytes_eq, clone_bytes, hash_of, leaf_hash, lemma_bytes_deep_view};
use crate::ledger::AssetLedger;
use crate::proofs::{compute_root, verify, MerkleProof, ProofNodeV};
use crate::types::{
    AccountId, AssetId, AssetInfo, Error, MintInfo, MintInfoV, RegistryId, RegistryInfo,
    RegistryInfoV,
};

verus! {

/// Whether some entry of the association sequence carries the key.
pub open spec fn assoc_has<K, V>(s: Seq<(K, V)>, key: K) -> bool {
    exists|i: int| 0 <= i < s.len() && (#[trigger] s[i]).0 == key
}

/// The value of the first entry carrying the key, if any.
pub open spec fn assoc_get<K, V>(s: Seq<(K, V)>, key: K) -> Option<V>
    decreases s.len(),
{
    if s.len() == 0 {
        None
    } else if s[0].0 == key {
        Some(s[0].1)
    } else {
        assoc_get(s.drop_first(), key)
    }
}

/// A key is found exactly when some entry carries it.
pub proof fn lemma_assoc_get_some_iff_has<K, V>(s: Seq<(K, V)>, key: K)
    ensures
        assoc_get(s, key) is Some <==> assoc_has(s, key),
    decreases s.len(),
{
    if s.len() > 0 && s[0].0 != key {
        lemma_assoc_get_some_iff_has(s.drop_first(), key);
        if assoc_has(s.drop_first(), key) {
            let i = choose|i: int|
                0 <= i < s.drop_first().len() && (#[trigger] s.drop_first()[i]).0 == key;
            assert(s[i + 1].0 == key);
        }
        if assoc_has(s, key) {
            let i = choose|i: int| 0 <= i < s.len() && (#[trigger] s[i]).0 == key;
            assert(s.drop_first()[i - 1].0 == key);
        }
    }
}

/// Looking a key up after appending one entry: an already present key
/// keeps its value, the appended key is found, and all else stays absent.
pub proof fn lemma_assoc_get_push<K, V>(s: Seq<(K, V)>, entry: (K, V), key: K)
    ensures
        assoc_has(s, key) ==> assoc_get(s.push(entry), key) == assoc_get(s, key),
        !assoc_has(s, key) && entry.0 == key ==> assoc_get(s.push(entry), key) == Some(entry.1),
        !assoc_has(s, key) && entry.0 != key ==> assoc_get(s.push(entry), key) == None::<V>,
    decreases s.len(),
{
    lemma_assoc_get_some_iff_has(s, key);
    if s.len() == 0 {
        assert(s.push(entry)[0] == entry);
        assert(s.push(entry).drop_first() =~= Seq::<(K, V)>::empty());
        assert(assoc_get(Seq::<(K, V)>::empty(), key) == None::<V>);
    } else {
        assert(s.push(entry)[0] == s[0]);
        assert(s.push(entry).drop_first() =~= s.drop_first().push(entry));
        lemma_assoc_get_push(s.drop_first(), entry, key);
        lemma_assoc_get_some_iff_has(s.drop_first(), key);
        if s[0].0 == key {
            assert(assoc_has(s, key));
        } else {
            assert(assoc_has(s, key) == assoc_has(s.drop_first(), key)) by {
                if assoc_has(s, key) {
                    let i = choose|i: int| 0 <= i < s.len() && (#[trigger] s[i]).0 == key;
                    assert(s.drop_first()[i - 1].0 == key);
                }
                if assoc_has(s.drop_first(), key) {
                    let i = choose|i: int|
                        0 <= i < s.drop_first().len() && (#[trigger] s.drop_first()[i]).0 == key;
                    assert(s[i + 1].0 == key);
                }
            }
            assert(assoc_get(s.push(entry), key) == assoc_get(s.drop_first().push(entry), key));
        }
    }
}

/// The first entry carrying a key decides the lookup.
pub proof fn lemma_assoc_get_first_match<K, V>(s: Seq<(K, V)>, key: K, k: int)
    requires
        0 <= k < s.len(),
        s[k].0 == key,
        forall|j: int| 0 <= j < k ==> (#[trigger] s[j]).0 != key,
    ensures
        assoc_get(s, key) == Some(s[k].1),
    decreases k,
{
    if k > 0 {
        lemma_assoc_get_first_match(s.drop_first(), key, k - 1);
        assert(s.drop_first()[k - 1] == s[k]);
        assert(forall|j: int|
            0 <= j < k - 1 ==> (#[trigger] s.drop_first()[j]).0 == s[j + 1].0);
    }
}

/// The state of the verifiable asset registry: the nonce from which
/// registry ids are allocated, the registry table, the anchor store, and
/// the registry membership set.
pub struct Module {
    registry_nonce: u128,
    registries: Vec<(RegistryId, RegistryInfo)>,
    anchors: Vec<(Vec<u8>, Vec<u8>)>,
    nft_lists: Vec<(RegistryId, AssetId)>,
}

impl Module {
    /// The nonce from which the next registry id is allocated.
    pub closed spec fn nonce(self) -> u128 {
        self.registry_nonce
    }

    /// The registry table, in creation order.
    pub closed spec fn registries_seq(self) -> Seq<(RegistryId, RegistryInfoV)> {
        self.registries@.map_values(|e: (RegistryId, RegistryInfo)| (e.0, e.1@))
    }

    /// The anchor store, most recent commitment first.
    pub closed spec fn anchors_seq(self) -> Seq<(Seq<u8>, Seq<u8>)> {
        self.anchors@.map_values(|e: (Vec<u8>, Vec<u8>)| (e.0@, e.1@))
    }

    /// The membership set, in issuance order.
    pub closed spec fn members(self) -> Seq<(RegistryId, AssetId)> {
        self.nft_lists@
    }

    /// Whether a registry with this id exists.
    pub open spec fn has_registry(self, id: RegistryId) -> bool {
        assoc_has(self.registries_seq(), id)
    }

    /// The metadata stored under a registry id, if any.
    pub open spec fn spec_get_registry(self, id: RegistryId) -> Option<RegistryInfoV> {
        assoc_get(self.registries_seq(), id)
    }

    /// The committed document root under an anchor id, if any.
    pub open spec fn anchor_root(self, anchor_id: Seq<u8>) -> Option<Seq<u8>> {
        assoc_get(self.anchors_seq(), anchor_id)
    }

    /// Whether the asset was minted under the registry.
    pub open spec fn spec_is_member(self, registry_id: RegistryId, asset_id: AssetId) -> bool {
        self.members().contains((registry_id, asset_id))
    }

    /// Well-formedness: registry ids are unique and below the nonce, and
    /// no asset id is recorded under two membership entries.
    pub open spec fn wf(self) -> bool {
        &&& forall|i: int, j: int|
            0 <= i < j < self.registries_seq().len() ==> (#[trigger] self.registries_seq()[i]).0
                != (#[trigger] self.registries_seq()[j]).0
        &&& forall|i: int|
            0 <= i < self.registries_seq().len() ==> (#[trigger] self.registries_seq()[i]).0
                < self.nonce()
        &&& forall|i: int, j: int|
            0 <= i < j < self.members().len() ==> (#[trigger] self.members()[i]).1 != (
            #[trigger] self.members()[j]).1
    }

    /// Creates an empty registry state.
    pub fn new() -> (r: Module)
        ensures
            r.wf(),
            r.nonce() == 0,
            r.registries_seq() == Seq::<(RegistryId, RegistryInfoV)>::empty(),
            r.anchors_seq() == Seq::<(Seq<u8>, Seq<u8>)>::empty(),
            r.members() == Seq::<(RegistryId, AssetId)>::empty(),
    {
        let r = Module {
            registry_nonce: 0,
            registries: Vec::new(),
            anchors: Vec::new(),
            nft_lists: Vec::new(),
        };
        proof {
            assert(r.registries_seq() =~= Seq::<(RegistryId, RegistryInfoV)>::empty());
            assert(r.anchors_seq() =~= Seq::<(Seq<u8>, Seq<u8>)>::empty());
        }
        r
    }

    /// Allocates the next registry id: returns the nonce and increments
    /// it, or fails with `NonceOverflow` when incrementing would wrap.
    pub fn create_new_registry_id(&mut self) -> (r: Result<RegistryId, Error>)
        ensures
            final(self).registries_seq() == old(self).registries_seq(),
            final(self).anchors_seq() == old(self).anchors_seq(),
            final(self).members() == old(self).members(),
            (match r {
                Ok(id) => old(self).nonce() < u128::MAX && id == old(self).nonce()
                    && final(self).nonce() == old(self).nonce() + 1,
                Err(e) => e == Error::NonceOverflow && old(self).nonce() == u128::MAX
                    && *final(self) == *old(self),
            }),
    {
        let id = self.registry_nonce;
        if id == u128::MAX {
            return Err(Error::NonceOverflow);
        }
        self.registry_nonce = id + 1;
        Ok(id)
    }

    /// Creates a registry: allocates an id from the nonce and stores the
    /// metadata under it. Registries with identical metadata may exist;
    /// equality of metadata is not identity. Fails only with
    /// `NonceOverflow`, when the id space is exhausted.
    pub fn create_registry(&mut self, info: RegistryInfo) -> (r: Result<RegistryId, Error>)
        requires
            old(self).wf(),
        ensures
            final(self).wf(),
            create_transition(*old(self), info@, *final(self), r),
            r is Err <==> old(self).nonce() == u128::MAX,
    {
        let id = match self.create_new_registry_id() {
            Ok(id) => id,
            Err(e) => {
                return Err(e);
            },
        };
        self.registries.push((id, info));
        proof {
            let pre = *old(self);
            let post = *self;
            assert(post.registries_seq() =~= pre.registries_seq().push((id, info@)));
            assert forall|i: int, j: int|
                0 <= i < j < post.registries_seq().len() implies (
            #[trigger] post.registries_seq()[i]).0 != (#[trigger] post.registries_seq()[j]).0 by {
                if j < pre.registries_seq().len() {
                    assert(pre.registries_seq()[i].0 != pre.registries_seq()[j].0);
                } else {
                    assert(pre.registries_seq()[i].0 < pre.nonce());
                }
            }
        }
        Ok(id)
    }

    /// Looks the id up in the registry table; the returned index is the
    /// first entry carrying it.
    fn find_registry(&self, id: RegistryId) -> (r: Option<usize>)
        ensures
            (match r {
                Some(k) => k < self.registries@.len() && self.registries@[k as int].0 == id
                    && self.spec_get_registry(id) == Some(self.registries@[k as int].1@),
                None => !self.has_registry(id) && self.spec_get_registry(id) is None,
            }),
    {
        let mut i: usize = 0;
        while i < self.registries.len()
            invariant
                i <= self.registries@.len(),
                forall|j: int| 0 <= j < i ==> (#[trigger] self.registries_seq()[j]).0 != id,
            decreases self.registries@.len() - i,
        {
            if self.registries[i].0 == id {
                proof {
                    lemma_assoc_get_first_match(self.registries_seq(), id, i as int);
                }
                return Some(i);
            }
            i = i + 1;
        }
        proof {
            assert(!self.has_registry(id)) by {
                if assoc_has(self.registries_seq(), id) {
                    let k = choose|k: int|
                        0 <= k < self.registries_seq().len() && (
                        #[trigger] self.registries_seq()[k]).0 == id;
                }
            }
            lemma_assoc_get_some_iff_has(self.registries_seq(), id);
        }
        None
    }

    /// Read-only lookup of a registry's metadata; absence is not an error
    /// at this layer.
    pub fn get_registry(&self, id: RegistryId) -> (r: Option<RegistryInfo>)
        ensures
            (match r {
                Some(info) => self.spec_get_registry(id) == Some(info@),
                None => self.spec_get_registry(id) is None,
            }),
    {
        match self.find_registry(id) {
            Some(k) => {
                let entry = &self.registries[k];
                Some(entry.1.clone_info())
            },
            None => None,
        }
    }

    /// Whether a registry with this id has been created.
    pub fn registry_exists(&self, id: RegistryId) -> (r: bool)
        ensures
            r == self.has_registry(id),
    {
        proof {
            lemma_assoc_get_some_iff_has(self.registries_seq(), id);
        }
        match self.find_registry(id) {
            Some(_) => true,
            None => false,
        }
    }

    /// Commits a document root under an anchor id. The most recent
    /// commitment for an id is the one that `get_document_root` resolves.
    pub fn set_anchor(&mut self, anchor_id: Vec<u8>, doc_root: Vec<u8>)
        ensures
            final(self).nonce() == old(self).nonce(),
            final(self).registries_seq() == old(self).registries_seq(),
            final(self).members() == old(self).members(),
            final(self).anchor_root(anchor_id@) == Some(doc_root@),
            forall|k: Seq<u8>|
                k != anchor_id@ ==> final(self).anchor_root(k) == old(self).anchor_root(k),
            old(self).wf() ==> final(self).wf(),
    {
        let ghost key = anchor_id@;
        let ghost root = doc_root@;
        self.anchors.insert(0, (anchor_id, doc_root));
        proof {
            let pre = *old(self);
            let post = *self;
            assert(post.anchors_seq().len() == pre.anchors_seq().len() + 1);
            assert(post.anchors_seq()[0] == (key, root));
            assert(post.anchors_seq().drop_first() =~= pre.anchors_seq());
            assert(post.anchor_root(key) == Some(root));
            assert forall|k: Seq<u8>| k != key implies post.anchor_root(k) == pre.anchor_root(
                k,
            ) by {
                assert(post.anchors_seq()[0].0 != k);
            }
            if pre.wf() {
                assert(post.wf()) by {
                    assert(post.registries_seq() == pre.registries_seq());
                    assert(post.members() == pre.members());
                    assert(post.nonce() == pre.nonce());
                }
            }
        }
    }

    /// Whether the asset was minted under the registry.
    pub fn is_member(&self, registry_id: RegistryId, asset_id: AssetId) -> (r: bool)
        ensures
            r == self.spec_is_member(registry_id, asset_id),
    {
        let mut i: usize = 0;
        while i < self.nft_lists.len()
            invariant
                i <= self.nft_lists@.len(),
                forall|j: int| 0 <= j < i ==> self.members()[j] != (registry_id, asset_id),
            decreases self.nft_lists@.len() - i,
        {
            let entry = &self.nft_lists[i];
            if entry.0 == registry_id && entry.1 == asset_id {
                assert(self.members()[i as int] == (registry_id, asset_id));
                return true;
            }
            i = i + 1;
        }
        proof {
            if self.spec_is_member(registry_id, asset_id) {
                let j = choose|j: int|
                    0 <= j < self.members().len() && self.members()[j] == (
                registry_id,
                asset_id,
                );
            }
        }
        false
    }

    /// Resolves an anchor id to its committed document root, or fails
    /// with `DocumentNotAnchored` when none is on record.
    pub fn get_document_root(&self, anchor_id: &Vec<u8>) -> (r: Result<Vec<u8>, Error>)
        ensures
            (match r {
                Ok(root) => self.anchor_root(anchor_id@) == Some(root@),
                Err(e) => e == Error::DocumentNotAnchored && self.anchor_root(anchor_id@) is None,
            }),
    {
        let mut i: usize = 0;
        while i < self.anchors.len()
            invariant
                i <= self.anchors@.len(),
                forall|j: int| 0 <= j < i ==> (#[trigger] self.anchors_seq()[j]).0 != anchor_id@,
            decreases self.anchors@.len() - i,
        {
            let entry = &self.anchors[i];
            if bytes_eq(&entry.0, anchor_id) {
                proof {
                    lemma_assoc_get_first_match(self.anchors_seq(), anchor_id@, i as int);
                }
                return Ok(clone_bytes(&entry.1));
            }
            i = i + 1;
        }
        proof {
            assert(!assoc_has(self.anchors_seq(), anchor_id@)) by {
                if assoc_has(self.anchors_seq(), anchor_id@) {
                    let k = choose|k: int|
                        0 <= k < self.anchors_seq().len() && (#[trigger] self.anchors_seq()[k]).0
                            == anchor_id@;
                }
            }
            lemma_assoc_get_some_iff_has(self.anchors_seq(), anchor_id@);
        }
        Err(Error::DocumentNotAnchored)
    }
}

/// Whether every field's leaf hash — the hash of `field ++ value` — is
/// carried by its proof to the document root.
pub open spec fn proofs_valid(
    fields: Seq<Seq<u8>>,
    values: Seq<Seq<u8>>,
    proofs: Seq<Seq<ProofNodeV>>,
    root: Seq<u8>,
) -> bool {
    forall|i: int|
        0 <= i < fields.len() ==> #[trigger] compute_root(
            hash_of(fields[i] + values[i]),
            proofs[i],
        ) == root
}

/// Every asset the membership set records was issued by the ledger.
pub open spec fn linked<L: AssetLedger>(reg: Module, ledger: L) -> bool {
    forall|i: int|
        0 <= i < reg.members().len() ==> ledger.assets().dom().contains(
            (#[trigger] reg.members()[i]).1,
        )
}

/// What one `mint` call returns and changes, case by case and
/// short-circuiting on the first failure: an unknown registry, an arity
/// mismatch among fields, values and proofs, an unanchored document, and
/// a failing proof each reject the call with their error and change
/// nothing; otherwise the ledger decides, and on issuance the fresh asset
/// id is returned, recorded in the ledger, and appended to the
/// membership set.
pub open spec fn mint_result_spec(
    pre: Module,
    pre_assets: Map<AssetId, (AccountId, AssetInfo)>,
    post: Module,
    post_assets: Map<AssetId, (AccountId, AssetInfo)>,
    owner: AccountId,
    info: AssetInfo,
    m: MintInfoV,
    r: Result<AssetId, Error>,
) -> bool {
    let rid = info.registry_id;
    match pre.spec_get_registry(rid) {
        None => r == Err::<AssetId, Error>(Error::RegistryDoesNotExist) && post.members()
            == pre.members() && post_assets == pre_assets,
        Some(reg) => if !(reg.fields.len() == m.values.len() && reg.fields.len()
        == m.proofs.len()) {
            r == Err::<AssetId, Error>(Error::InvalidMintingValues) && post.members()
                == pre.members() && post_assets == pre_assets
        } else {
            match pre.anchor_root(m.anchor_id) {
                None => r == Err::<AssetId, Error>(Error::DocumentNotAnchored) && post.members()
                    == pre.members() && post_assets == pre_assets,
                Some(root) => if !proofs_valid(reg.fields, m.values, m.proofs, root) {
                    r == Err::<AssetId, Error>(Error::InvalidProof) && post.members()
                        == pre.members() && post_assets == pre_assets
                } else {
                    match r {
                        Ok(id) => !pre_assets.dom().contains(id) && post_assets
                            == pre_assets.insert(id, (owner, info)) && post.members()
                            == pre.members().push((rid, id)),
                        Err(e) => e is Ledger && post.members() == pre.members() && post_assets
                            == pre_assets,
                    }
                },
            }
        },
    }
}

impl Module {
    /// The mint gate: validates the request's shape against the
    /// registry's schema, recomputes each field's leaf hash, verifies it
    /// against the anchored document root, and only then delegates
    /// issuance to the ledger and records the new asset's registry
    /// membership. All-or-nothing: any single failing proof rejects the
    /// whole mint, and no state changes on any failure.
    #[verifier::loop_isolation(false)]
    pub fn mint<L: AssetLedger>(
        &mut self,
        ledger: &mut L,
        owner_account: AccountId,
        commodity_info: AssetInfo,
        mint_info: MintInfo,
    ) -> (r: Result<AssetId, Error>)
        requires
            old(self).wf(),
            linked(*old(self), *old(ledger)),
        ensures
            final(self).wf(),
            linked(*final(self), *final(ledger)),
            final(self).nonce() == old(self).nonce(),
            final(self).registries_seq() == old(self).registries_seq(),
            final(self).anchors_seq() == old(self).anchors_seq(),
            mint_result_spec(
                *old(self),
                old(ledger).assets(),
                *final(self),
                final(ledger).assets(),
                owner_account,
                commodity_info,
                mint_info@,
                r,
            ),
    {
        let registry_id = commodity_info.registry_id();

        // Registry existence
        let k = match self.find_registry(registry_id) {
            Some(k) => k,
            None => {
                return Err(Error::RegistryDoesNotExist);
            },
        };

        // Schema arity: fields, values and proofs must line up
        let fields_len = self.registries[k].1.fields.len();
        if !(fields_len == mint_info.values.len() && fields_len == mint_info.proofs.len()) {
            return Err(Error::InvalidMintingValues);
        }

        // Anchor resolution
        let doc_root = match self.get_document_root(&mint_info.anchor_id) {
            Ok(root) => root,
            Err(e) => {
                return Err(e);
            },
        };

        // Per-field proof verification
        let ghost reg = self.registries@[k as int].1@;
        let ghost fields_s = reg.fields;
        let ghost values_s = mint_info.values.deep_view();
        let ghost proofs_s = mint_info.proofs.deep_view();
        let ghost root_s = doc_root@;
        let mut i: usize = 0;
        while i < fields_len
            invariant
                i <= fields_len,
                k < self.registries@.len(),
                reg == self.registries@[k as int].1@,
                fields_s == reg.fields,
                fields_len == fields_s.len(),
                values_s == mint_info.values.deep_view(),
                proofs_s == mint_info.proofs.deep_view(),
                values_s.len() == fields_len,
                proofs_s.len() == fields_len,
                root_s == doc_root@,
                forall|j: int|
                    0 <= j < i ==> #[trigger] compute_root(
                        hash_of(fields_s[j] + values_s[j]),
                        proofs_s[j],
                    ) == root_s,
            decreases fields_len - i,
        {
            let entry = &self.registries[k];
            let field = clone_bytes(&entry.1.fields[i]);
            let value = clone_bytes(&mint_info.values[i]);
            proof {
                lemma_bytes_deep_view(entry.1.fields@[i as int]);
                lemma_bytes_deep_view(mint_info.values@[i as int]);
                assert(field@ == fields_s[i as int]);
                assert(value@ == values_s[i as int]);
            }
            let leaf = leaf_hash(field, value);
            if !verify(&leaf, &mint_info.proofs[i], &doc_root) {
                proof {
                    assert(compute_root(
                        hash_of(fields_s[i as int] + values_s[i as int]),
                        proofs_s[i as int],
                    ) != root_s);
                    assert(!proofs_valid(fields_s, values_s, proofs_s, root_s));
                }
                return Err(Error::InvalidProof);
            }
            i = i + 1;
        }
        proof {
            assert(proofs_valid(fields_s, values_s, proofs_s, root_s));
        }

        // Issuance, delegated to the ledger
        let commodity_id = match ledger.issue(owner_account, commodity_info) {
            Ok(id) => id,
            Err(e) => {
                return Err(Error::Ledger(e));
            },
        };

        // Membership recording
        self.nft_lists.push((registry_id, commodity_id));
        proof {
            let pre = *old(self);
            let post = *self;
            assert(post.members() == pre.members().push((registry_id, commodity_id)));
            assert forall|a: int, b: int| 0 <= a < b < post.members().len() implies (
            #[trigger] post.members()[a]).1 != (#[trigger] post.members()[b]).1 by {
                if b == post.members().len() - 1 {
                    assert(post.members()[a] == pre.members()[a]);
                    assert(old(ledger).assets().dom().contains(pre.members()[a].1));
                } else {
                    assert(pre.members()[a].1 != pre.members()[b].1);
                }
            }
            assert forall|a: int| 0 <= a < post.members().len() implies ledger.assets(
            ).dom().contains((#[trigger] post.members()[a]).1) by {
                if a < pre.members().len() {
                    assert(old(ledger).assets().dom().contains(pre.members()[a].1));
                }
            }
        }
        Ok(commodity_id)
    }
}

/// How one `create_registry` call carries a state to the next: on
/// success the returned id is the old nonce, the nonce advances by one,
/// and the metadata is appended to the registry table under the new id;
/// on failure (only `NonceOverflow`, exactly when the nonce is at its
/// maximum) nothing changes. Anchors and membership are never touched.
pub open spec fn create_transition(
    pre: Module,
    info: RegistryInfoV,
    post: Module,
    r: Result<RegistryId, Error>,
) -> bool {
    match r {
        Ok(id) => pre.nonce() < u128::MAX && id == pre.nonce() && post.nonce() == pre.nonce() + 1
            && post.registries_seq() == pre.registries_seq().push((id, info))
            && post.anchors_seq() == pre.anchors_seq() && post.members() == pre.members(),
        Err(e) => e == Error::NonceOverflow && pre.nonce() == u128::MAX && post == pre,
    }
}

/// Uniqueness of registry ids: across any two successful creations, with
/// any operations between them that do not lower the nonce — none does:
/// `mint` and `set_anchor` keep it, `create_registry` raises it — the
/// later id is strictly greater, so the ids returned by any sequence of
/// `create_registry` calls are pairwise distinct and strictly increasing.
pub proof fn lemma_create_ids_strictly_increase(
    s0: Module,
    info1: RegistryInfoV,
    s1: Module,
    id1: RegistryId,
    s2: Module,
    info2: RegistryInfoV,
    s3: Module,
    id2: RegistryId,
)
    requires
        create_transition(s0, info1, s1, Ok(id1)),
        s1.nonce() <= s2.nonce(),
        create_transition(s2, info2, s3, Ok(id2)),
    ensures
        id1 < id2,
{
}

/// Lookup after creation: the id handed back by a successful
/// `create_registry` resolves to exactly the metadata that was stored.
pub proof fn lemma_lookup_after_create(
    s0: Module,
    info: RegistryInfoV,
    s1: Module,
    id: RegistryId,
)
    requires
        s0.wf(),
        create_transition(s0, info, s1, Ok(id)),
    ensures
        s1.spec_get_registry(id) == Some(info),
{
    assert(!assoc_has(s0.registries_seq(), id)) by {
        if assoc_has(s0.registries_seq(), id) {
            let k = choose|k: int|
                0 <= k < s0.registries_seq().len() && (#[trigger] s0.registries_seq()[k]).0 == id;
            assert(s0.registries_seq()[k].0 < s0.nonce());
        }
    }
    lemma_assoc_get_push(s0.registries_seq(), (id, info), id);
}

/// Idempotent lookup: a later creation never changes what an existing
/// registry id resolves to; together with `mint` and `set_anchor`
/// leaving the registry table unchanged (their contracts say so), every
/// `get_registry(id)` call after creation returns the same metadata.
pub proof fn lemma_lookup_stable_under_create(
    s0: Module,
    info: RegistryInfoV,
    s1: Module,
    r: Result<RegistryId, Error>,
    id: RegistryId,
)
    requires
        s0.has_registry(id),
        create_transition(s0, info, s1, r),
    ensures
        s1.spec_get_registry(id) == s0.spec_get_registry(id),
{
    match r {
        Ok(new_id) => {
            lemma_assoc_get_push(s0.registries_seq(), (new_id, info), id);
        },
        Err(_) => {},
    }
}

/// Membership consistency: a well-formed state records an asset id under
/// at most one registry.
pub proof fn lemma_membership_exclusive(s: Module, rid: RegistryId, aid: AssetId)
    requires
        s.wf(),
        s.spec_is_member(rid, aid),
    ensures
        forall|other: RegistryId| other != rid ==> !s.spec_is_member(other, aid),
{
    assert forall|other: RegistryId| other != rid implies !s.spec_is_member(other, aid) by {
        if s.spec_is_member(other, aid) {
            let i = choose|i: int|
                0 <= i < s.members().len() && #[trigger] s.members()[i] == (rid, aid);
            let j = choose|j: int|
                0 <= j < s.members().len() && #[trigger] s.members()[j] == (other, aid);
            if i < j {
                assert(s.members()[i].1 != s.members()[j].1);
            } else {
                assert(s.members()[j].1 != s.members()[i].1);
            }
        }
    }
}

/// After a successful mint — its contract appends `(rid, aid)` to the
/// membership set and preserves well-formedness — the minted asset is a
/// member of the registry it was minted under, and of no other.
pub proof fn lemma_mint_membership(pre: Module, post: Module, rid: RegistryId, aid: AssetId)
    requires
        post.wf(),
        post.members() == pre.members().push((rid, aid)),
    ensures
        post.spec_is_member(rid, aid),
        forall|other: RegistryId| other != rid ==> !post.spec_is_member(other, aid),
{
    assert(post.members()[post.members().len() - 1] == (rid, aid));
    lemma_membership_exclusive(post, rid, aid);
}

} // verus!
