//! The inventory catalog contract: asset tokens, their license offers,
//! the catalog-wide license tiers, and the paginated enumeration
//! endpoints over them.

use vstd::prelude::*;

use crate::license::LicenseError;
use crate::license::spec_page_len;
use crate::policy::check_inventory_state;
use crate::policy::list_available;
use crate::policy::spec_available;
use crate::policy::spec_no_duplicate_ids;
use crate::strmap::StrMap;
use crate::types::AccountId;
use crate::types::AssetLicense;
use crate::types::AssetLicenses;
use crate::types::AssetToken;
use crate::types::AssetTokenId;
use crate::types::AssetTokenMetadata;
use crate::types::InventoryContractMetadata;
use crate::types::InventoryLicense;
use crate::types::JsonAssetToken;
use crate::types::LicenseToken;
use crate::types::RemoteError;
use crate::types::TokenMetadata;

verus! {

/// An asset token as returned from simple view calls.
pub struct JsonToken {
    pub token_id: AssetTokenId,
    pub owner_id: AccountId,
    pub metadata: TokenMetadata,
}

/// A token/owner pair as returned from license view calls.
pub struct JsonTokenLicense {
    pub token_id: AssetTokenId,
    pub owner_id: AccountId,
}

/// The catalog metadata together with the asset count and the owner.
pub struct ExtendedInventoryMetadata {
    pub metadata: InventoryContractMetadata,
    pub asset_count: u64,
    pub owner_id: AccountId,
}

/// The inventory catalog contract.
pub struct InventoryContract {
    pub owner_id: AccountId,
    pub metadata: InventoryContractMetadata,
    pub tokens_by_id: StrMap<AssetToken>,
    pub token_metadata_by_id: StrMap<AssetTokenMetadata>,
    pub token_licenses_by_id: StrMap<AssetLicenses>,
    pub tokens_per_owner: StrMap<Vec<AssetTokenId>>,
}

/// The composed view the enumeration hands out for a stored asset token.
pub open spec fn spec_json_asset(c: InventoryContract, key: Seq<char>, j: JsonAssetToken) -> bool {
    &&& c.tokens_by_id@.contains_key(key)
    &&& j.token_id@ == key
    &&& j.owner_id == c.tokens_by_id@[key].owner_id
    &&& j.minter_id == c.tokens_by_id@[key].minter_id
    &&& j.metadata == c.token_metadata_by_id@[key]
    &&& (c.token_licenses_by_id@.contains_key(key) ==> j.licenses is Some && j.licenses->0@
        == c.token_licenses_by_id@[key]@)
    &&& (!c.token_licenses_by_id@.contains_key(key) ==> j.licenses is None)
    &&& j.available_licenses is None
}

/// Whether an owner's index already names this identifier.
pub open spec fn spec_ids_contain(ids: Seq<AssetTokenId>, id: Seq<char>) -> bool {
    exists|k: int| 0 <= k < ids.len() && (#[trigger] ids[k])@ == id
}

/// Whether the index vector already names this identifier.
fn contains_id(v: &Vec<AssetTokenId>, id: &AssetTokenId) -> (r: bool)
    ensures
        r == spec_ids_contain(v@, id@),
{
    let n = v.len();
    let mut i: usize = 0;
    while i < n
        invariant
            0 <= i <= n,
            n == v@.len(),
            forall|k: int| 0 <= k < i ==> (#[trigger] v@[k])@ != id@,
        decreases n - i,
    {
        if v[i] == *id {
            return true;
        }
        i = i + 1;
    }
    false
}

impl InventoryContract {
    /// The catalog's invariant: the maps are well formed, every asset
    /// token has metadata (and conversely), and the per-owner index is a
    /// set that only names minted tokens belonging to that owner.
    pub open spec fn wf(&self) -> bool {
        &&& self.tokens_by_id.wf()
        &&& self.token_metadata_by_id.wf()
        &&& self.token_licenses_by_id.wf()
        &&& self.tokens_per_owner.wf()
        &&& self.token_metadata_by_id@.dom() == self.tokens_by_id@.dom()
        &&& forall|o: Seq<char>, i: int|
            self.tokens_per_owner@.contains_key(o) && 0 <= i < self.tokens_per_owner@[o]@.len()
                ==> self.tokens_by_id@.contains_key((#[trigger] self.tokens_per_owner@[o]@[i])@)
        &&& forall|o: Seq<char>, i: int, j: int|
            self.tokens_per_owner@.contains_key(o) && 0 <= i < j < self.tokens_per_owner@[o]@.len()
                ==> (#[trigger] self.tokens_per_owner@[o]@[i])@ != (
            #[trigger] self.tokens_per_owner@[o]@[j])@
        &&& forall|o: Seq<char>, i: int|
            self.tokens_per_owner@.contains_key(o) && 0 <= i < self.tokens_per_owner@[o]@.len()
                ==> self.tokens_by_id@[(#[trigger] self.tokens_per_owner@[o]@[i])@].owner_id@ == o
    }

    /// A fresh catalog with the given metadata and no assets.
    pub fn new(owner_id: AccountId, metadata: InventoryContractMetadata) -> (r: InventoryContract)
        ensures
            r.wf(),
            r.owner_id == owner_id,
            r.metadata == metadata,
            r.tokens_by_id@ == Map::<Seq<char>, AssetToken>::empty(),
            r.token_metadata_by_id@ == Map::<Seq<char>, AssetTokenMetadata>::empty(),
            r.token_licenses_by_id@ == Map::<Seq<char>, AssetLicenses>::empty(),
            r.tokens_per_owner@ == Map::<Seq<char>, Vec<AssetTokenId>>::empty(),
    {
        let r = InventoryContract {
            owner_id,
            metadata,
            tokens_by_id: StrMap::new(),
            token_metadata_by_id: StrMap::new(),
            token_licenses_by_id: StrMap::new(),
            tokens_per_owner: StrMap::new(),
        };
        proof {
            assert(r.token_metadata_by_id@.dom() =~= r.tokens_by_id@.dom());
        }
        r
    }

    /// How many asset tokens the catalog holds.
    pub fn assets_total_supply(&self) -> (r: u128)
        requires
            self.wf(),
        ensures
            r == self.token_metadata_by_id.kvs().len(),
    {
        self.token_metadata_by_id.len() as u128
    }

    /// Adds a token to its owner's index.  The index is a set: adding an
    /// identifier it already names changes nothing.
    pub fn internal_add_token_to_owner(&mut self, account_id: &AccountId, token_id: &AssetTokenId)
        requires
            old(self).wf(),
            old(self).tokens_by_id@.contains_key(token_id@),
            old(self).tokens_by_id@[token_id@].owner_id@ == account_id@,
        ensures
            final(self).wf(),
            final(self).tokens_per_owner@.contains_key(account_id@),
            final(self).tokens_per_owner@[account_id@]@ == (if old(self).tokens_per_owner@.contains_key(account_id@) {
                if spec_ids_contain(old(self).tokens_per_owner@[account_id@]@, token_id@) {
                    old(self).tokens_per_owner@[account_id@]@
                } else {
                    old(self).tokens_per_owner@[account_id@]@.push(*token_id)
                }
            } else {
                seq![*token_id]
            }),
            final(self).tokens_per_owner@.remove(account_id@) == old(self).tokens_per_owner@.remove(account_id@),
            final(self).tokens_by_id == old(self).tokens_by_id,
            final(self).token_metadata_by_id == old(self).token_metadata_by_id,
            final(self).token_licenses_by_id == old(self).token_licenses_by_id,
            final(self).owner_id == old(self).owner_id,
            final(self).metadata == old(self).metadata,
    {
        let mut tokens_set: Vec<AssetTokenId> = match self.tokens_per_owner.get(account_id) {
            Some(v) => {
                if contains_id(v, token_id) {
                    return ;
                }
                clone_ids(v)
            },
            None => Vec::new(),
        };
        tokens_set.push(token_id.clone());
        let ghost new_ids = tokens_set@;
        proof {
            assert forall|i: int, j: int| 0 <= i < j < new_ids.len() implies (
            #[trigger] new_ids[i])@ != (#[trigger] new_ids[j])@ by {
                if old(self).tokens_per_owner@.contains_key(account_id@) {
                    let old_ids = old(self).tokens_per_owner@[account_id@]@;
                    if j < old_ids.len() {
                        assert(old_ids[i] == new_ids[i] && old_ids[j] == new_ids[j]);
                    } else {
                        assert(new_ids[j] == *token_id);
                        assert(old_ids[i] == new_ids[i]);
                        assert(!spec_ids_contain(old_ids, token_id@));
                    }
                }
            }
            assert forall|i: int| 0 <= i < new_ids.len() implies old(self).tokens_by_id@.contains_key(
                (#[trigger] new_ids[i])@,
            ) && old(self).tokens_by_id@[new_ids[i]@].owner_id@ == account_id@ by {
                if old(self).tokens_per_owner@.contains_key(account_id@) && i < old(
                    self,
                ).tokens_per_owner@[account_id@]@.len() {
                    assert(old(self).tokens_per_owner@[account_id@]@[i] == new_ids[i]);
                } else {
                    assert(new_ids[i] == *token_id);
                }
            }
        }
        self.tokens_per_owner.insert(account_id.clone(), tokens_set);
        proof {
            assert(self.tokens_per_owner@.remove(account_id@) =~= old(self).tokens_per_owner@.remove(account_id@));
            assert forall|o: Seq<char>, i: int|
                self.tokens_per_owner@.contains_key(o) && 0 <= i
                    < self.tokens_per_owner@[o]@.len() implies self.tokens_by_id@.contains_key(
                (#[trigger] self.tokens_per_owner@[o]@[i])@,
            ) && self.tokens_by_id@[self.tokens_per_owner@[o]@[i]@].owner_id@ == o by {
                if o == account_id@ {
                    assert(self.tokens_per_owner@[o]@[i] == new_ids[i]);
                } else {
                    assert(self.tokens_per_owner@[o] == old(self).tokens_per_owner@[o]);
                    assert(old(self).tokens_per_owner@[o]@[i]
                        == self.tokens_per_owner@[o]@[i]);
                }
            }
            assert forall|o: Seq<char>, i: int, j: int|
                self.tokens_per_owner@.contains_key(o) && 0 <= i < j
                    < self.tokens_per_owner@[o]@.len() implies (
            #[trigger] self.tokens_per_owner@[o]@[i])@ != (
            #[trigger] self.tokens_per_owner@[o]@[j])@ by {
                if o == account_id@ {
                    assert(self.tokens_per_owner@[o]@[i] == new_ids[i]);
                    assert(self.tokens_per_owner@[o]@[j] == new_ids[j]);
                } else {
                    assert(self.tokens_per_owner@[o] == old(self).tokens_per_owner@[o]);
                    assert(old(self).tokens_per_owner@[o]@[i]
                        == self.tokens_per_owner@[o]@[i]);
                    assert(old(self).tokens_per_owner@[o]@[j]
                        == self.tokens_per_owner@[o]@[j]);
                }
            }
        }
    }

    /// Mints an asset token for `receiver_id` with its metadata, minter
    /// and offers, and indexes it under its owner.  Refuses an identifier
    /// that is already minted, leaving the catalog unchanged.
    pub fn asset_mint(
        &mut self,
        token_id: AssetTokenId,
        metadata: AssetTokenMetadata,
        receiver_id: AccountId,
        minter_id: Option<AccountId>,
        licenses: Option<AssetLicenses>,
    ) -> (r: Result<(), LicenseError>)
        requires
            old(self).wf(),
        ensures
            final(self).wf(),
            match r {
                Ok(_) => !old(self).tokens_by_id@.contains_key(token_id@) && final(self).tokens_by_id@.contains_key(token_id@) && {
                    let t = final(self).tokens_by_id@[token_id@];
                    &&& t.owner_id == receiver_id
                    &&& t.minter_id == minter_id
                    &&& final(self).token_metadata_by_id@ == old(self).token_metadata_by_id@.insert(token_id@, metadata)
                    &&& final(self).tokens_by_id@.dom() == old(self).tokens_by_id@.dom().insert(
                        token_id@,
                    )
                    &&& (match licenses {
                        Some(l) => final(self).token_licenses_by_id@ == old(self).token_licenses_by_id@.insert(token_id@, l),
                        None => final(self).token_licenses_by_id == old(self).token_licenses_by_id,
                    })
                },
                Err(e) => e is TokenAlreadyExists && old(self).tokens_by_id@.contains_key(token_id@)
                    && *final(self) == *old(self),
            },
    {
        if self.tokens_by_id.contains_key(&token_id) {
            return Err(LicenseError::TokenAlreadyExists);
        }
        let token = AssetToken {
            token_id: token_id.clone(),
            owner_id: receiver_id.clone(),
            minter_id,
            metadata: metadata.clone(),
            licenses: None,
        };
        self.tokens_by_id.insert(token_id.clone(), token);
        self.token_metadata_by_id.insert(token_id.clone(), metadata);
        match licenses {
            Some(l) => {
                self.token_licenses_by_id.insert(token_id.clone(), l);
            },
            None => {},
        }
        proof {
            assert(self.token_metadata_by_id@.dom() =~= self.tokens_by_id@.dom());
        }
        self.internal_add_token_to_owner(&receiver_id, &token_id);
        Ok(())
    }

    /// The composed public view of one asset token, when it exists.
    pub fn _asset_token(&self, token_id: AssetTokenId) -> (r: Option<JsonAssetToken>)
        requires
            self.wf(),
        ensures
            match r {
                Some(j) => spec_json_asset(*self, token_id@, j) && j.token_id == token_id,
                None => !self.tokens_by_id@.contains_key(token_id@),
            },
    {
        let token = match self.tokens_by_id.get(&token_id) {
            Some(t) => t,
            None => {
                return None;
            },
        };
        let metadata = match self.token_metadata_by_id.get(&token_id) {
            Some(m) => m.clone(),
            None => {
                proof {
                    assert(self.token_metadata_by_id@.dom().contains(token_id@));
                    assert(false);
                }
                AssetTokenMetadata {
                    title: None,
                    description: None,
                    media: None,
                    media_hash: None,
                    copies: None,
                    issued_at: None,
                    expires_at: None,
                    starts_at: None,
                    updated_at: None,
                    extra: None,
                    reference: None,
                    reference_hash: None,
                }
            },
        };
        let licenses = match self.token_licenses_by_id.get(&token_id) {
            Some(l) => Some(clone_offers(l)),
            None => None,
        };
        Some(
            JsonAssetToken {
                owner_id: token.owner_id.clone(),
                minter_id: crate::types::clone_opt_string(&token.minter_id),
                metadata,
                licenses,
                available_licenses: None,
                token_id,
            },
        )
    }

    /// Enumerates the asset tokens in storage order, skipping
    /// `from_index` and returning at most `limit` (fifty when absent).
    pub fn asset_tokens(&self, from_index: Option<u128>, limit: Option<u64>) -> (r: Vec<
        JsonAssetToken,
    >)
        requires
            self.wf(),
        ensures
            ({
                let kvs = self.token_metadata_by_id.kvs();
                let start: int = match from_index {
                    Some(x) => x as int,
                    None => 0,
                };
                let lim: int = match limit {
                    Some(l) => l as int,
                    None => 50,
                };
                r@.len() == spec_page_len(kvs.len() as int, start, lim) && (forall|k: int|
                    0 <= k < r@.len() ==> spec_json_asset(
                        *self,
                        kvs[start + k].0@,
                        #[trigger] r@[k],
                    ))
            }),
    {
        let start: u128 = match &from_index {
            Some(x) => *x,
            None => 0,
        };
        let lim: u64 = match &limit {
            Some(l) => *l,
            None => 50,
        };
        let n = self.token_metadata_by_id.len();
        let mut r: Vec<JsonAssetToken> = Vec::new();
        let mut i: usize = 0;
        while i < n && (r.len() as u64) < lim
            invariant
                0 <= i <= n,
                n == self.token_metadata_by_id.kvs().len(),
                self.wf(),
                ({
                    let kvs = self.token_metadata_by_id.kvs();
                    &&& i as int <= start as int + r@.len() + lim as int
                    &&& r@.len() == spec_page_len(i as int, start as int, lim as int)
                    &&& (forall|k: int|
                        0 <= k < r@.len() ==> spec_json_asset(
                            *self,
                            kvs[start as int + k].0@,
                            #[trigger] r@[k],
                        ))
                }),
            decreases n - i,
        {
            if (i as u128) >= start {
                let key = self.token_metadata_by_id.key_at(i).clone();
                proof {
                    self.token_metadata_by_id.lemma_index(i as int);
                    assert(self.tokens_by_id@.dom().contains(key@));
                }
                let j = match self._asset_token(key) {
                    Some(j) => j,
                    None => {
                        proof {
                            assert(false);
                        }
                        return r;
                    },
                };
                r.push(j);
            }
            i = i + 1;
        }
        proof {
            let kvs = self.token_metadata_by_id.kvs();
            assert(r@.len() == spec_page_len(kvs.len() as int, start as int, lim as int));
        }
        r
    }

    /// How many asset tokens an owner holds.
    pub fn asset_supply_for_owner(&self, account_id: AccountId) -> (r: u128)
        requires
            self.wf(),
        ensures
            r == (if self.tokens_per_owner@.contains_key(account_id@) {
                self.tokens_per_owner@[account_id@]@.len() as int
            } else {
                0
            }),
    {
        match self.tokens_per_owner.get(&account_id) {
            Some(v) => v.len() as u128,
            None => 0,
        }
    }

    /// Enumerates an owner's asset tokens in index order, skipping
    /// `from_index` and returning at most `limit` (fifty when absent).
    pub fn asset_tokens_for_owner(
        &self,
        account_id: AccountId,
        from_index: Option<u128>,
        limit: Option<u64>,
    ) -> (r: Vec<JsonAssetToken>)
        requires
            self.wf(),
        ensures
            ({
                let ids = if self.tokens_per_owner@.contains_key(account_id@) {
                    self.tokens_per_owner@[account_id@]@
                } else {
                    Seq::<AssetTokenId>::empty()
                };
                let start: int = match from_index {
                    Some(x) => x as int,
                    None => 0,
                };
                let lim: int = match limit {
                    Some(l) => l as int,
                    None => 50,
                };
                r@.len() == spec_page_len(ids.len() as int, start, lim) && (forall|k: int|
                    0 <= k < r@.len() ==> spec_json_asset(*self, ids[start + k]@, #[trigger] r@[k]))
                    && (forall|k: int|
                    0 <= k < r@.len() ==> (#[trigger] r@[k]).owner_id@ == account_id@)
            }),
    {
        let ids = match self.tokens_per_owner.get(&account_id) {
            Some(v) => v,
            None => {
                return Vec::new();
            },
        };
        let start: u128 = match &from_index {
            Some(x) => *x,
            None => 0,
        };
        let lim: u64 = match &limit {
            Some(l) => *l,
            None => 50,
        };
        let n = ids.len();
        let mut r: Vec<JsonAssetToken> = Vec::new();
        let mut i: usize = 0;
        while i < n && (r.len() as u64) < lim
            invariant
                0 <= i <= n,
                n == ids@.len(),
                self.wf(),
                self.tokens_per_owner@.contains_key(account_id@),
                ids@ == self.tokens_per_owner@[account_id@]@,
                i as int <= start as int + r@.len() + lim as int,
                r@.len() == spec_page_len(i as int, start as int, lim as int),
                forall|k: int|
                    0 <= k < r@.len() ==> spec_json_asset(
                        *self,
                        ids@[start as int + k]@,
                        #[trigger] r@[k],
                    ),
                forall|k: int| 0 <= k < r@.len() ==> (#[trigger] r@[k]).owner_id@ == account_id@,
            decreases n - i,
        {
            if (i as u128) >= start {
                proof {
                    assert(self.tokens_per_owner@[account_id@]@[i as int] == ids@[i as int]);
                    assert(self.tokens_by_id@[ids@[i as int]@].owner_id@ == account_id@);
                }
                let key = ids[i].clone();
                let j = match self._asset_token(key) {
                    Some(j) => j,
                    None => {
                        proof {
                            assert(false);
                        }
                        return r;
                    },
                };
                r.push(j);
            }
            i = i + 1;
        }
        r
    }
}

/// Clones a vector of token identifiers; the view is kept.
pub fn clone_ids(v: &Vec<AssetTokenId>) -> (r: Vec<AssetTokenId>)
    ensures
        r@ == v@,
{
    let mut r: Vec<AssetTokenId> = Vec::new();
    let mut i: usize = 0;
    while i < v.len()
        invariant
            i <= v.len(),
            r@ =~= v@.take(i as int),
        decreases v.len() - i,
    {
        let s = v[i].clone();
        assert(s == v@[i as int]);
        r.push(s);
        i = i + 1;
    }
    assert(r@ =~= v@);
    r
}

/// Clones a vector of license offers; the view is kept.
pub fn clone_offers(v: &Vec<AssetLicense>) -> (r: Vec<AssetLicense>)
    ensures
        r@ == v@,
{
    let mut r: Vec<AssetLicense> = Vec::new();
    let mut i: usize = 0;
    while i < v.len()
        invariant
            i <= v.len(),
            r@ =~= v@.take(i as int),
        decreases v.len() - i,
    {
        let s = v[i].clone();
        assert(s == v@[i as int]);
        r.push(s);
        i = i + 1;
    }
    assert(r@ =~= v@);
    r
}

/// Clones a vector of catalog licenses; the view is kept.
pub fn clone_tiers(v: &Vec<InventoryLicense>) -> (r: Vec<InventoryLicense>)
    ensures
        r@ == v@,
{
    let mut r: Vec<InventoryLicense> = Vec::new();
    let mut i: usize = 0;
    while i < v.len()
        invariant
            i <= v.len(),
            r@ =~= v@.take(i as int),
        decreases v.len() - i,
    {
        let s = v[i].clone();
        assert(s == v@[i as int]);
        r.push(s);
        i = i + 1;
    }
    assert(r@ =~= v@);
    r
}

} // verus!

verus! {

/// The two metadata records agree on everything but the license tiers.
pub open spec fn spec_same_meta_but_licenses(
    a: InventoryContractMetadata,
    b: InventoryContractMetadata,
) -> bool {
    &&& a.spec == b.spec
    &&& a.name == b.name
    &&& a.symbol == b.symbol
    &&& a.icon == b.icon
    &&& a.base_uri == b.base_uri
    &&& a.reference == b.reference
    &&& a.reference_hash == b.reference_hash
    &&& a.default_minter_id == b.default_minter_id
}

/// The record reports this catalog's metadata, asset count and owner.
pub open spec fn spec_extended(c: InventoryContract, r: ExtendedInventoryMetadata) -> bool {
    &&& spec_same_meta_but_licenses(r.metadata, c.metadata)
    &&& r.metadata.licenses@ == c.metadata.licenses@
    &&& r.asset_count == c.token_metadata_by_id.kvs().len()
    &&& r.owner_id == c.owner_id
}

impl InventoryContract {
    /// A copy of the stored catalog metadata.
    fn metadata_copy(&self) -> (r: InventoryContractMetadata)
        ensures
            spec_same_meta_but_licenses(r, self.metadata),
            r.licenses@ == self.metadata.licenses@,
    {
        InventoryContractMetadata {
            spec: self.metadata.spec.clone(),
            name: self.metadata.name.clone(),
            symbol: self.metadata.symbol.clone(),
            icon: crate::types::clone_opt_string(&self.metadata.icon),
            base_uri: crate::types::clone_opt_string(&self.metadata.base_uri),
            reference: crate::types::clone_opt_string(&self.metadata.reference),
            reference_hash: crate::types::clone_opt_string(&self.metadata.reference_hash),
            licenses: clone_tiers(&self.metadata.licenses),
            default_minter_id: self.metadata.default_minter_id.clone(),
        }
    }

    /// The catalog metadata together with the asset count and owner.
    pub fn inventory_metadata(&self) -> (r: ExtendedInventoryMetadata)
        requires
            self.wf(),
        ensures
            spec_extended(*self, r),
    {
        ExtendedInventoryMetadata {
            metadata: self.metadata_copy(),
            asset_count: self.token_metadata_by_id.len() as u64,
            owner_id: self.owner_id.clone(),
        }
    }

    /// Replaces the catalog metadata wholesale after validating it: a
    /// catalog with a repeated license identifier is refused with the
    /// verdict's reason and nothing changes.
    pub fn _update_inventory_metadata(&mut self, metadata: InventoryContractMetadata) -> (r: Result<
        ExtendedInventoryMetadata,
        String,
    >)
        requires
            old(self).wf(),
        ensures
            final(self).wf(),
            match r {
                Ok(e) => spec_no_duplicate_ids(metadata.licenses@) && final(self).metadata
                    == metadata && final(self).owner_id == old(self).owner_id && final(self).tokens_by_id == old(self).tokens_by_id && final(self).token_metadata_by_id == old(self).token_metadata_by_id && final(self).token_licenses_by_id == old(self).token_licenses_by_id && final(self).tokens_per_owner == old(self).tokens_per_owner
                    && spec_extended(*final(self), e),
                Err(_) => !spec_no_duplicate_ids(metadata.licenses@) && *final(self) == *old(self),
            },
    {
        let verdict = check_inventory_state(&metadata.licenses);
        if !verdict.allowed {
            let reason = match verdict.reason {
                Some(re) => re,
                None => {
                    proof {
                        assert(false);
                    }
                    String::new()
                },
            };
            return Err(reason);
        }
        self.metadata = metadata;
        Ok(self.inventory_metadata())
    }

    /// Replaces the catalog metadata on behalf of the contract owner:
    /// refused when the caller is not the owner or the new catalog
    /// repeats a license identifier; nothing changes on refusal.
    pub fn update_inventory_metadata(
        &mut self,
        metadata: InventoryContractMetadata,
        predecessor_id: AccountId,
    ) -> (r: Result<ExtendedInventoryMetadata, String>)
        requires
            old(self).wf(),
        ensures
            final(self).wf(),
            match r {
                Ok(e) => predecessor_id@ == old(self).owner_id@ && spec_no_duplicate_ids(
                    metadata.licenses@,
                ) && final(self).metadata == metadata && spec_extended(*final(self), e),
                Err(_) => *final(self) == *old(self) && (predecessor_id@ != old(self).owner_id@
                    || !spec_no_duplicate_ids(metadata.licenses@)),
            },
    {
        if !(predecessor_id == self.owner_id) {
            return Err("only the inventory owner may update the metadata".to_owned());
        }
        self._update_inventory_metadata(metadata)
    }

    /// Replaces the catalog's license tiers on behalf of the contract
    /// owner: refused when the caller is not the owner or the tiers
    /// repeat an identifier; nothing changes on refusal.
    pub fn update_inventory_licenses(
        &mut self,
        licenses: Vec<InventoryLicense>,
        predecessor_id: AccountId,
    ) -> (r: Result<ExtendedInventoryMetadata, String>)
        requires
            old(self).wf(),
        ensures
            final(self).wf(),
            match r {
                Ok(e) => predecessor_id@ == old(self).owner_id@ && spec_no_duplicate_ids(licenses@)
                    && final(self).metadata.licenses == licenses && spec_same_meta_but_licenses(
                    final(self).metadata,
                    old(self).metadata,
                ) && final(self).tokens_by_id == old(self).tokens_by_id && spec_extended(
                    *final(self),
                    e,
                ),
                Err(_) => *final(self) == *old(self) && (predecessor_id@ != old(self).owner_id@
                    || !spec_no_duplicate_ids(licenses@)),
            },
    {
        if !(predecessor_id == self.owner_id) {
            return Err("only the inventory owner may update the licenses".to_owned());
        }
        let verdict = check_inventory_state(&licenses);
        if !verdict.allowed {
            let reason = match verdict.reason {
                Some(re) => re,
                None => {
                    proof {
                        assert(false);
                    }
                    String::new()
                },
            };
            return Err(reason);
        }
        self.metadata.licenses = licenses;
        Ok(self.inventory_metadata())
    }

    /// Appends one license tier to the catalog, unconditionally.
    pub fn add_inventory_license(&mut self, license: InventoryLicense) -> (r:
        ExtendedInventoryMetadata)
        requires
            old(self).wf(),
        ensures
            final(self).wf(),
            final(self).metadata.licenses@ == old(self).metadata.licenses@.push(license),
            spec_same_meta_but_licenses(final(self).metadata, old(self).metadata),
            final(self).tokens_by_id == old(self).tokens_by_id,
            spec_extended(*final(self), r),
    {
        self.metadata.licenses.push(license);
        self.inventory_metadata()
    }

    /// The continuation of an availability query once the ledger has
    /// answered with the licenses issued on the asset: builds the full
    /// inventory against this catalog and annotates the asset with the
    /// availability of each offered license.  A failed remote read aborts
    /// with nothing changed.
    pub fn full_inventory_for_asset_callback(
        &self,
        call_result: Result<Vec<LicenseToken>, RemoteError>,
        asset: &JsonAssetToken,
    ) -> (r: Result<JsonAssetToken, RemoteError>)
        requires
            self.wf(),
        ensures
            match r {
                Ok(a) => call_result is Ok && {
                    let inv = crate::aggregate::spec_offer_licenses(
                        match asset.licenses {
                            Some(v) => v@,
                            None => Seq::<AssetLicense>::empty(),
                        },
                        self.metadata.licenses@,
                    );
                    let tokens = call_result->Ok_0;
                    &&& a.token_id == asset.token_id
                    &&& a.owner_id == asset.owner_id
                    &&& a.minter_id == asset.minter_id
                    &&& a.metadata == asset.metadata
                    &&& (match asset.licenses {
                        Some(v) => a.licenses is Some && a.licenses->0@ == v@,
                        None => a.licenses is None,
                    })
                    &&& a.available_licenses is Some
                    &&& {
                        let avail = a.available_licenses->0@;
                        avail.len() == inv.len() && (forall|i: int|
                            0 <= i < avail.len() ==> (#[trigger] avail[i]).inventory_license
                                == inv[i] && avail[i].available == spec_available(
                                tokens@,
                                inv[i].license.exclusivity,
                            ) && (avail[i].reason_not_available is Some <==> !avail[i].available))
                    }
                },
                Err(_) => call_result is Err,
            },
    {
        let tokens = match call_result {
            Ok(t) => t,
            Err(e) => {
                return Err(e);
            },
        };
        let empty_offers: Vec<AssetLicense> = Vec::new();
        let offers: &Vec<AssetLicense> = match &asset.licenses {
            Some(v) => v,
            None => &empty_offers,
        };
        let full = crate::aggregate::build_full_inventory(
            offers,
            &self.metadata.licenses,
            tokens,
        );
        let available = list_available(&full);
        Ok(
            JsonAssetToken {
                token_id: asset.token_id.clone(),
                owner_id: asset.owner_id.clone(),
                minter_id: crate::types::clone_opt_string(&asset.minter_id),
                metadata: asset.metadata.clone(),
                licenses: match &asset.licenses {
                    Some(v) => Some(clone_offers(v)),
                    None => None,
                },
                available_licenses: Some(available),
            },
        )
    }
}

/// The catalog's metadata endpoints.
pub trait InventoryMetadata {
    /// The implementing store's invariant.
    spec fn inv_wf(&self) -> bool;

    /// The catalog metadata together with the asset count and owner.
    fn inventory_metadata(&self) -> (r: ExtendedInventoryMetadata)
        requires
            self.inv_wf(),
    ;

    /// Replaces the catalog metadata wholesale, gated on ownership and
    /// catalog validity.
    fn update_inventory_metadata(
        &mut self,
        metadata: InventoryContractMetadata,
        predecessor_id: AccountId,
    ) -> (r: Result<ExtendedInventoryMetadata, String>)
        requires
            old(self).inv_wf(),
        ensures
            final(self).inv_wf(),
    ;

    /// Replaces the catalog's license tiers, gated on ownership and
    /// catalog validity.
    fn update_inventory_licenses(
        &mut self,
        licenses: Vec<InventoryLicense>,
        predecessor_id: AccountId,
    ) -> (r: Result<ExtendedInventoryMetadata, String>)
        requires
            old(self).inv_wf(),
        ensures
            final(self).inv_wf(),
    ;

    /// Appends one license tier to the catalog.
    fn add_inventory_license(&mut self, license: InventoryLicense) -> (r: ExtendedInventoryMetadata)
        requires
            old(self).inv_wf(),
        ensures
            final(self).inv_wf(),
    ;
}

impl InventoryMetadata for InventoryContract {
    open spec fn inv_wf(&self) -> bool {
        self.wf()
    }

    fn inventory_metadata(&self) -> (r: ExtendedInventoryMetadata) {
        InventoryContract::inventory_metadata(self)
    }

    fn update_inventory_metadata(
        &mut self,
        metadata: InventoryContractMetadata,
        predecessor_id: AccountId,
    ) -> (r: Result<ExtendedInventoryMetadata, String>) {
        InventoryContract::update_inventory_metadata(self, metadata, predecessor_id)
    }

    fn update_inventory_licenses(
        &mut self,
        licenses: Vec<InventoryLicense>,
        predecessor_id: AccountId,
    ) -> (r: Result<ExtendedInventoryMetadata, String>) {
        InventoryContract::update_inventory_licenses(self, licenses, predecessor_id)
    }

    fn add_inventory_license(&mut self, license: InventoryLicense) -> (r:
        ExtendedInventoryMetadata) {
        InventoryContract::add_inventory_license(self, license)
    }
}

} // verus!
