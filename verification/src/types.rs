//! Core data model: license terms, catalog and asset license records,
//! issued-license tokens and the aggregated `FullInventory` snapshot.

use vstd::prelude::*;

verus! {

/// Identifier of a minted token on the license ledger.
pub type TokenId = String;

/// Identifier of an asset in the inventory catalog.
pub type AssetId = String;

/// Account identifier, kept as a plain string.
pub type AccountId = String;

/// Identifier of an asset token on the inventory contract.
pub type AssetTokenId = String;

/// The license offers attached to one asset.
pub type AssetLicenses = Vec<AssetLicense>;

/// The catalog-wide license tiers.
pub type InventoryLicenses = Vec<InventoryLicense>;

/// The terms attached to a license tier.  `exclusivity` is the only field
/// the policy evaluator branches on; the rest are descriptive.
pub struct LicenseData {
    pub i_agree: bool,
    pub perpetuity: bool,
    pub exclusivity: bool,
    pub personal_use: bool,
    pub commercial_use: bool,
    pub limited_display_sublicensee: bool,
    pub template: Option<String>,
    pub pdf_url: Option<String>,
}

/// Mathematical image of [`LicenseData`]: strings become character
/// sequences so that specifications can talk about their contents.
pub struct LicenseDataV {
    pub i_agree: bool,
    pub perpetuity: bool,
    pub exclusivity: bool,
    pub personal_use: bool,
    pub commercial_use: bool,
    pub limited_display_sublicensee: bool,
    pub template: Option<Seq<char>>,
    pub pdf_url: Option<Seq<char>>,
}

impl View for LicenseData {
    type V = LicenseDataV;

    open spec fn view(&self) -> LicenseDataV {
        LicenseDataV {
            i_agree: self.i_agree,
            perpetuity: self.perpetuity,
            exclusivity: self.exclusivity,
            personal_use: self.personal_use,
            commercial_use: self.commercial_use,
            limited_display_sublicensee: self.limited_display_sublicensee,
            template: match self.template {
                Some(t) => Some(t@),
                None => None,
            },
            pdf_url: match self.pdf_url {
                Some(p) => Some(p@),
                None => None,
            },
        }
    }
}

impl Clone for LicenseData {
    fn clone(&self) -> (r: Self)
        ensures
            r == *self,
    {
        LicenseData {
            i_agree: self.i_agree,
            perpetuity: self.perpetuity,
            exclusivity: self.exclusivity,
            personal_use: self.personal_use,
            commercial_use: self.commercial_use,
            limited_display_sublicensee: self.limited_display_sublicensee,
            template: clone_opt_string(&self.template),
            pdf_url: clone_opt_string(&self.pdf_url),
        }
    }
}

/// A license attached to (or staged for) a minted token.  The terms are
/// carried in `metadata` in the canonical JSON form of [`LicenseData`].
pub struct TokenLicense {
    pub title: Option<String>,
    pub description: Option<String>,
    pub issuer_id: Option<AccountId>,
    pub uri: Option<String>,
    pub metadata: Option<String>,
    pub issued_at: Option<u64>,
    pub expires_at: Option<u64>,
    pub starts_at: Option<u64>,
    pub updated_at: Option<u64>,
    pub reference: Option<String>,
    pub reference_hash: Option<String>,
}

impl Clone for TokenLicense {
    fn clone(&self) -> (r: Self)
        ensures
            r == *self,
    {
        TokenLicense {
            title: clone_opt_string(&self.title),
            description: clone_opt_string(&self.description),
            issuer_id: clone_opt_string(&self.issuer_id),
            uri: clone_opt_string(&self.uri),
            metadata: clone_opt_string(&self.metadata),
            issued_at: self.issued_at,
            expires_at: self.expires_at,
            starts_at: self.starts_at,
            updated_at: self.updated_at,
            reference: clone_opt_string(&self.reference),
            reference_hash: clone_opt_string(&self.reference_hash),
        }
    }
}

/// Metadata attached to a minted token.  `extra` carries the typed
/// inventory/asset/license reference in canonical JSON form.
pub struct TokenMetadata {
    pub title: Option<String>,
    pub description: Option<String>,
    pub media: Option<String>,
    pub media_hash: Option<String>,
    pub copies: Option<u64>,
    pub issued_at: Option<u64>,
    pub expires_at: Option<u64>,
    pub starts_at: Option<u64>,
    pub updated_at: Option<u64>,
    pub extra: Option<String>,
    pub reference: Option<String>,
    pub reference_hash: Option<String>,
}

impl Clone for TokenMetadata {
    fn clone(&self) -> (r: Self)
        ensures
            r == *self,
    {
        TokenMetadata {
            title: clone_opt_string(&self.title),
            description: clone_opt_string(&self.description),
            media: clone_opt_string(&self.media),
            media_hash: clone_opt_string(&self.media_hash),
            copies: self.copies,
            issued_at: self.issued_at,
            expires_at: self.expires_at,
            starts_at: self.starts_at,
            updated_at: self.updated_at,
            extra: clone_opt_string(&self.extra),
            reference: clone_opt_string(&self.reference),
            reference_hash: clone_opt_string(&self.reference_hash),
        }
    }
}

impl TokenMetadata {
    /// An empty metadata record; every field absent.
    pub fn empty() -> (r: TokenMetadata)
        ensures
            r.title is None,
            r.description is None,
            r.media is None,
            r.media_hash is None,
            r.copies is None,
            r.issued_at is None,
            r.expires_at is None,
            r.starts_at is None,
            r.updated_at is None,
            r.extra is None,
            r.reference is None,
            r.reference_hash is None,
    {
        TokenMetadata {
            title: None,
            description: None,
            media: None,
            media_hash: None,
            copies: None,
            issued_at: None,
            expires_at: None,
            starts_at: None,
            updated_at: None,
            extra: None,
            reference: None,
            reference_hash: None,
        }
    }
}

/// The typed contents of a token's `extra` metadata field: the
/// `inventory_id/asset_id/license_id` path that joins a ledger token back
/// to its catalog entry.
pub struct TokenExtra {
    pub asset_id_path: String,
}

/// Mathematical image of [`TokenExtra`].
pub struct TokenExtraV {
    pub asset_id_path: Seq<char>,
}

impl View for TokenExtra {
    type V = TokenExtraV;

    open spec fn view(&self) -> TokenExtraV {
        TokenExtraV { asset_id_path: self.asset_id_path@ }
    }
}

impl Clone for TokenExtra {
    fn clone(&self) -> (r: Self)
        ensures
            r == *self,
    {
        TokenExtra { asset_id_path: self.asset_id_path.clone() }
    }
}

/// A minted token as stored by the ledger.
pub struct Token {
    pub token_id: TokenId,
    pub owner_id: AccountId,
    pub asset_id: AssetId,
    pub approved_account_ids: Vec<(AccountId, u64)>,
    pub next_approval_id: u64,
    pub royalty: Vec<(AccountId, u32)>,
}

/// A minted token together with its metadata and (possibly absent)
/// active license: the ledger's record that this token carries a license.
pub struct LicenseToken {
    pub token_id: TokenId,
    pub owner_id: AccountId,
    pub asset_id: AssetId,
    pub metadata: TokenMetadata,
    pub license: Option<TokenLicense>,
    pub approved_account_ids: Vec<(AccountId, u64)>,
    pub royalty: Vec<(AccountId, u32)>,
}

/// A token's license as returned from queries.
pub struct JsonTokenLicense {
    pub token_id: TokenId,
    pub owner_id: AccountId,
    pub license: TokenLicense,
}

/// A catalog license tier: identifier, display title, price and terms.
pub struct InventoryLicense {
    pub license_id: String,
    pub title: String,
    pub price: String,
    pub license: LicenseData,
}

impl Clone for InventoryLicense {
    fn clone(&self) -> (r: Self)
        ensures
            r == *self,
    {
        InventoryLicense {
            license_id: self.license_id.clone(),
            title: self.title.clone(),
            price: self.price.clone(),
            license: self.license.clone(),
        }
    }
}

/// A per-asset license offer: overrides the catalog price when `price`
/// is present.
pub struct AssetLicense {
    pub license_id: String,
    pub title: String,
    pub price: Option<String>,
}

impl Clone for AssetLicense {
    fn clone(&self) -> (r: Self)
        ensures
            r == *self,
    {
        AssetLicense {
            license_id: self.license_id.clone(),
            title: self.title.clone(),
            price: clone_opt_string(&self.price),
        }
    }
}

/// Contract-level metadata of the license ledger.
pub struct NFTContractMetadata {
    pub spec: String,
    pub name: String,
    pub symbol: String,
    pub icon: Option<String>,
    pub base_uri: Option<String>,
    pub reference: Option<String>,
    pub reference_hash: Option<String>,
}

/// Contract-level metadata of the inventory catalog, including the
/// catalog-wide license tiers.
pub struct InventoryContractMetadata {
    pub spec: String,
    pub name: String,
    pub symbol: String,
    pub icon: Option<String>,
    pub base_uri: Option<String>,
    pub reference: Option<String>,
    pub reference_hash: Option<String>,
    pub licenses: InventoryLicenses,
    pub default_minter_id: String,
}

/// Metadata attached to an asset token on the inventory contract.
pub struct AssetTokenMetadata {
    pub title: Option<String>,
    pub description: Option<String>,
    pub media: Option<String>,
    pub media_hash: Option<String>,
    pub copies: Option<u64>,
    pub issued_at: Option<u64>,
    pub expires_at: Option<u64>,
    pub starts_at: Option<u64>,
    pub updated_at: Option<u64>,
    pub extra: Option<String>,
    pub reference: Option<String>,
    pub reference_hash: Option<String>,
}

impl Clone for AssetTokenMetadata {
    fn clone(&self) -> (r: Self)
        ensures
            r == *self,
    {
        AssetTokenMetadata {
            title: clone_opt_string(&self.title),
            description: clone_opt_string(&self.description),
            media: clone_opt_string(&self.media),
            media_hash: clone_opt_string(&self.media_hash),
            copies: self.copies,
            issued_at: self.issued_at,
            expires_at: self.expires_at,
            starts_at: self.starts_at,
            updated_at: self.updated_at,
            extra: clone_opt_string(&self.extra),
            reference: clone_opt_string(&self.reference),
            reference_hash: clone_opt_string(&self.reference_hash),
        }
    }
}

/// An asset token as stored by the inventory contract.
pub struct AssetToken {
    pub token_id: AssetTokenId,
    pub owner_id: AccountId,
    pub minter_id: Option<AccountId>,
    pub metadata: AssetTokenMetadata,
    pub licenses: Option<AssetLicenses>,
}

/// An asset token as returned from queries: the stored record joined
/// with its metadata, its license offers, and the availability list when
/// it has been computed.
pub struct JsonAssetToken {
    pub token_id: AssetTokenId,
    pub owner_id: AccountId,
    pub minter_id: Option<AccountId>,
    pub metadata: AssetTokenMetadata,
    pub licenses: Option<AssetLicenses>,
    pub available_licenses: Option<Vec<InventoryLicenseAvailability>>,
}

/// A failed remote read.  It carries nothing: any remote failure aborts
/// the whole transition.
#[derive(Debug)]
pub struct RemoteError {}

/// Availability of one catalog license for an asset, as decided by the
/// policy evaluator.  `reason_not_available` is present exactly when the
/// license is unavailable.
pub struct InventoryLicenseAvailability {
    pub inventory_license: InventoryLicense,
    pub available: bool,
    pub reason_not_available: Option<String>,
}

/// The complete, reconciled view of an asset handed to the policy
/// evaluator: the catalog licenses offered for the asset (with effective
/// prices) and the licenses already issued on it.  Built fresh per
/// transition request; never persisted.
pub struct FullInventory {
    pub inventory_licenses: Vec<InventoryLicense>,
    pub issued_licenses: Vec<LicenseToken>,
}

/// Clones an optional string; the result is the same value.
pub fn clone_opt_string(s: &Option<String>) -> (r: Option<String>)
    ensures
        r == *s,
{
    match s {
        Some(v) => Some(v.clone()),
        None => None,
    }
}

/// Clones a vector of account/approval-id pairs element by element.
pub fn clone_pairs_u64(v: &Vec<(AccountId, u64)>) -> (r: Vec<(AccountId, u64)>)
    ensures
        r@ == v@,
{
    let mut r: Vec<(AccountId, u64)> = Vec::new();
    let mut i: usize = 0;
    while i < v.len()
        invariant
            i <= v.len(),
            r@ =~= v@.take(i as int),
        decreases v.len() - i,
    {
        let p = (v[i].0.clone(), v[i].1);
        assert(p == v@[i as int]);
        r.push(p);
        i = i + 1;
    }
    assert(r@ =~= v@);
    r
}

/// Clones a vector of account/royalty pairs element by element.
pub fn clone_pairs_u32(v: &Vec<(AccountId, u32)>) -> (r: Vec<(AccountId, u32)>)
    ensures
        r@ == v@,
{
    let mut r: Vec<(AccountId, u32)> = Vec::new();
    let mut i: usize = 0;
    while i < v.len()
        invariant
            i <= v.len(),
            r@ =~= v@.take(i as int),
        decreases v.len() - i,
    {
        let p = (v[i].0.clone(), v[i].1);
        assert(p == v@[i as int]);
        r.push(p);
        i = i + 1;
    }
    assert(r@ =~= v@);
    r
}

} // verus!
