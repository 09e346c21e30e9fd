//! The asset ledger interface, and a simple in-memory ledger.
//!
//! The mint gate delegates final issuance to a ledger: any implementor of
//! `AssetLedger` may stand behind it, as long as issuance hands back a
//! fresh asset id and records the asset under it. `SimpleLedger` is a
//! counter-based implementation with a fixed supply cap.

use vstd::prelude::*;

use crate::types::{AccountId, AssetId, AssetInfo, LedgerError};

verus! {

/// A pluggable asset ledger: allocates asset identifiers and performs the
/// actual issuance bookkeeping. The identifier generation scheme is the
/// ledger's own choice; the registry core only relies on the contract
/// below.
pub trait AssetLedger: Sized {
    /// The assets the ledger has issued: each issued id, with the owner
    /// and asset data recorded under it.
    spec fn assets(&self) -> Map<AssetId, (AccountId, AssetInfo)>;

    /// Issues a new asset for `owner`. On success the returned id is
    /// fresh — never handed out before — and the asset is recorded under
    /// it; on failure the ledger is unchanged.
    fn issue(&mut self, owner: AccountId, info: AssetInfo) -> (r: Result<AssetId, LedgerError>)
        ensures
            (match r {
                Ok(id) => !old(self).assets().dom().contains(id) && final(self).assets() == old(
                    self,
                ).assets().insert(id, (owner, info)),
                Err(_) => final(self).assets() == old(self).assets(),
            }),
    ;
}

/// An in-memory ledger that allocates sequential asset ids, up to a fixed
/// supply cap.
pub struct SimpleLedger {
    entries: Vec<(AccountId, AssetInfo)>,
    cap: u128,
}

impl SimpleLedger {
    /// How many assets the ledger has issued.
    pub closed spec fn issued_count(self) -> nat {
        self.entries@.len()
    }

    /// The supply cap the ledger was created with.
    pub closed spec fn capacity(self) -> u128 {
        self.cap
    }

    /// Creates an empty ledger that will issue at most `cap` assets.
    pub fn new(cap: u128) -> (r: SimpleLedger)
        ensures
            r.assets() == Map::<AssetId, (AccountId, AssetInfo)>::empty(),
            r.issued_count() == 0,
            r.capacity() == cap,
    {
        let r = SimpleLedger { entries: Vec::new(), cap };
        proof {
            assert(r.assets() =~= Map::<AssetId, (AccountId, AssetInfo)>::empty());
        }
        r
    }
}

impl AssetLedger for SimpleLedger {
    closed spec fn assets(&self) -> Map<AssetId, (AccountId, AssetInfo)> {
        Map::new(
            |id: AssetId| id < self.entries@.len(),
            |id: AssetId| self.entries@[id as int],
        )
    }

    fn issue(&mut self, owner: AccountId, info: AssetInfo) -> (r: Result<AssetId, LedgerError>)
        ensures
            r is Err <==> old(self).issued_count() >= old(self).capacity(),
    {
        if self.entries.len() as u128 >= self.cap {
            return Err(LedgerError::SupplyExhausted);
        }
        let id = self.entries.len() as u128;
        self.entries.push((owner, info));
        proof {
            assert(self.assets() =~= old(self).assets().insert(id, (owner, info)));
        }
        Ok(id)
    }
}

} // verus!
