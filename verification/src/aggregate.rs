//! The inventory aggregator: reconciles an asset's license offers with
//! the catalog's license tiers into the `FullInventory` snapshot the
//! policy evaluator consumes.
//!
//! For each offer, in offer order, the matching catalog license is copied
//! with the effective price: the offer's override when present, else the
//! catalog default.  Offers naming no catalog license are dropped; nothing
//! else is invented or dropped.

use vstd::prelude::*;

use crate::json::clean;
use crate::json::license_data_clean;
use crate::json::license_data_json;
use crate::json::token_extra_json;
use crate::policy::spec_license_terms;
use crate::reference::spec_asset_path_triple;
use crate::types::AssetLicense;
use crate::types::FullInventory;
use crate::types::InventoryLicense;
use crate::types::LicenseToken;
use crate::types::TokenExtraV;
use crate::types::TokenId;
use crate::types::TokenLicense;
use crate::types::TokenMetadata;

verus! {

/// The first catalog license with the given identifier.
pub open spec fn spec_find_by_id(catalog: Seq<InventoryLicense>, id: Seq<char>) -> Option<
    InventoryLicense,
>
    decreases catalog.len(),
{
    if catalog.len() == 0 {
        None
    } else if catalog[0].license_id@ == id {
        Some(catalog[0])
    } else {
        spec_find_by_id(catalog.drop_first(), id)
    }
}

/// The catalog license copy an offer produces: the offer's price when it
/// overrides, else the catalog default.
pub open spec fn spec_effective(offer: AssetLicense, cat: InventoryLicense) -> InventoryLicense {
    InventoryLicense {
        license_id: cat.license_id,
        title: cat.title,
        price: match offer.price {
            Some(p) => p,
            None => cat.price,
        },
        license: cat.license,
    }
}

/// The effective catalog licenses the offers produce, in offer order.
pub open spec fn spec_offer_licenses(
    offers: Seq<AssetLicense>,
    catalog: Seq<InventoryLicense>,
) -> Seq<InventoryLicense>
    decreases offers.len(),
{
    if offers.len() == 0 {
        Seq::empty()
    } else {
        let rest = spec_offer_licenses(offers.drop_last(), catalog);
        match spec_find_by_id(catalog, offers.last().license_id@) {
            Some(cat) => rest.push(spec_effective(offers.last(), cat)),
            None => rest,
        }
    }
}

/// Finds the first catalog license with the given identifier.
pub fn find_by_id<'a>(catalog: &'a Vec<InventoryLicense>, id: &String) -> (r: Option<
    &'a InventoryLicense,
>)
    ensures
        match r {
            Some(c) => spec_find_by_id(catalog@, id@) == Some(*c),
            None => spec_find_by_id(catalog@, id@) is None,
        },
{
    let n = catalog.len();
    let mut i: usize = 0;
    proof {
        assert(catalog@.subrange(0, n as int) =~= catalog@);
    }
    while i < n
        invariant
            0 <= i <= n,
            n == catalog@.len(),
            spec_find_by_id(catalog@, id@) == spec_find_by_id(
                catalog@.subrange(i as int, n as int),
                id@,
            ),
        decreases n - i,
    {
        let ghost rest = catalog@.subrange(i as int, n as int);
        proof {
            assert(rest[0] == catalog@[i as int]);
            assert(rest.drop_first() =~= catalog@.subrange(i + 1 as int, n as int));
        }
        if catalog[i].license_id == *id {
            return Some(&catalog[i]);
        }
        i = i + 1;
    }
    proof {
        assert(catalog@.subrange(n as int, n as int) =~= Seq::<InventoryLicense>::empty());
    }
    None
}

/// What the search finds carries the searched identifier.
pub proof fn lemma_find_by_id_id(catalog: Seq<InventoryLicense>, id: Seq<char>)
    ensures
        spec_find_by_id(catalog, id) is Some ==> spec_find_by_id(catalog, id)->0.license_id@ == id,
    decreases catalog.len(),
{
    if catalog.len() > 0 && catalog[0].license_id@ != id {
        lemma_find_by_id_id(catalog.drop_first(), id);
    }
}

/// One more offer extends the effective licenses by its copy or not.
pub proof fn lemma_offer_step(offers: Seq<AssetLicense>, catalog: Seq<InventoryLicense>, i: int)
    requires
        0 <= i < offers.len(),
    ensures
        spec_offer_licenses(offers.take(i + 1), catalog) == (match spec_find_by_id(
            catalog,
            offers[i].license_id@,
        ) {
            Some(cat) => spec_offer_licenses(offers.take(i), catalog).push(
                spec_effective(offers[i], cat),
            ),
            None => spec_offer_licenses(offers.take(i), catalog),
        }),
{
    assert(offers.take(i + 1).drop_last() =~= offers.take(i));
    assert(offers.take(i + 1).last() == offers[i]);
}

/// Builds the reconciled snapshot of an asset: the offered catalog
/// licenses with effective prices, and the licenses already issued on
/// the asset, taken verbatim.
pub fn build_full_inventory(
    offers: &Vec<AssetLicense>,
    catalog: &Vec<InventoryLicense>,
    issued: Vec<LicenseToken>,
) -> (r: FullInventory)
    ensures
        r.inventory_licenses@ == spec_offer_licenses(offers@, catalog@),
        r.issued_licenses == issued,
{
    let n = offers.len();
    let mut inventory_licenses: Vec<InventoryLicense> = Vec::new();
    let mut i: usize = 0;
    while i < n
        invariant
            0 <= i <= n,
            n == offers@.len(),
            inventory_licenses@ == spec_offer_licenses(offers@.take(i as int), catalog@),
        decreases n - i,
    {
        proof {
            lemma_offer_step(offers@, catalog@, i as int);
        }
        match find_by_id(catalog, &offers[i].license_id) {
            Some(cat) => {
                let price = match &offers[i].price {
                    Some(p) => p.clone(),
                    None => cat.price.clone(),
                };
                let eff = InventoryLicense {
                    license_id: cat.license_id.clone(),
                    title: cat.title.clone(),
                    price,
                    license: cat.license.clone(),
                };
                proof {
                    assert(eff == spec_effective(offers@[i as int], *cat));
                }
                inventory_licenses.push(eff);
            },
            None => {},
        }
        i = i + 1;
    }
    proof {
        assert(offers@.take(n as int) =~= offers@);
    }
    FullInventory { inventory_licenses, issued_licenses: issued }
}

impl LicenseToken {
    /// Reads this issued token back as a catalog license: its terms, its
    /// license title, the license identifier from the token's asset
    /// reference, and the given price (empty when none is given).
    /// Nothing is returned when the token carries no license, its terms
    /// or reference do not decode, or the license has no title.
    pub fn as_inventory_license(&self, price: Option<String>) -> (r: Option<InventoryLicense>)
        ensures
            match r {
                Some(lic) => spec_license_terms(*self) is Some && spec_asset_path_triple(
                    self.metadata,
                ) is Some && self.license->0.title is Some && lic.license@ == spec_license_terms(
                    *self,
                )->0 && lic.license_id@ == (spec_asset_path_triple(self.metadata)->0).2 && lic.title
                    == self.license->0.title->0 && (match price {
                    Some(p) => lic.price == p,
                    None => lic.price@ == Seq::<char>::empty(),
                }),
                None => !(spec_license_terms(*self) is Some && spec_asset_path_triple(self.metadata)
                    is Some && self.license->0.title is Some),
            },
    {
        let license = match &self.license {
            Some(l) => l,
            None => {
                return None;
            },
        };
        let meta = match &license.metadata {
            Some(m) => m,
            None => {
                return None;
            },
        };
        let data = match crate::json::license_data_from_json(meta.as_str()) {
            Some(d) => d,
            None => {
                return None;
            },
        };
        let title = match &license.title {
            Some(t) => t.clone(),
            None => {
                return None;
            },
        };
        let triple = match self.metadata.inventory_asset_license() {
            Some(t) => t,
            None => {
                return None;
            },
        };
        let price = match price {
            Some(p) => p,
            None => String::new(),
        };
        Some(InventoryLicense { license_id: triple.2, title, price, license: data })
    }
}

impl InventoryLicense {
    /// Builds the issued-token shape this catalog license would take on a
    /// token: terms encoded in the canonical metadata form and a
    /// placeholder asset reference carrying the license identifier.
    /// Fails with a message when the terms or the identifier hold a
    /// control character and so cannot be encoded.
    pub fn as_license_token(&self, token_id: TokenId) -> (r: Result<LicenseToken, String>)
        ensures
            match r {
                Ok(t) => license_data_clean(self.license@) && t.token_id == token_id && t.license
                    is Some && {
                    let l = t.license->0;
                    &&& l.title == Some(self.title)
                    &&& l.metadata is Some
                    &&& l.metadata->0@ == license_data_json(self.license@)
                    &&& t.metadata.title == Some(self.title)
                    &&& t.metadata.extra is Some
                    &&& t.metadata.extra->0@ == token_extra_json(
                        TokenExtraV {
                            asset_id_path: "inv"@ + seq!['/'] + "asset"@ + seq!['/']
                                + self.license_id@,
                        },
                    )
                    &&& t.owner_id@ == "alice"@
                },
                Err(_) => !(license_data_clean(self.license@) && clean(
                    "inv/asset/"@ + self.license_id@,
                )),
            },
    {
        let meta = match crate::json::license_data_to_json(&self.license) {
            Some(m) => m,
            None => {
                return Err("license terms cannot be encoded".to_owned());
            },
        };
        let extra = match crate::reference::extra_reference_for_asset_path(
            String::new(),
            "inv".to_owned(),
            "asset".to_owned(),
            self.license_id.clone(),
        ) {
            Some(e) => e,
            None => {
                proof {
                    reveal_strlit("inv");
                    reveal_strlit("asset");
                    reveal_strlit("inv/asset/");
                    assert("inv"@ + seq!['/'] + "asset"@ + seq!['/'] + self.license_id@
                        =~= "inv/asset/"@ + self.license_id@);
                }
                return Err("license identifier cannot be encoded".to_owned());
            },
        };
        let mut token_metadata = TokenMetadata::empty();
        token_metadata.title = Some(self.title.clone());
        token_metadata.extra = Some(extra);
        Ok(
            LicenseToken {
                token_id,
                owner_id: "alice".to_owned(),
                asset_id: String::new(),
                metadata: token_metadata,
                license: Some(
                    TokenLicense {
                        title: Some(self.title.clone()),
                        description: None,
                        issuer_id: None,
                        uri: None,
                        metadata: Some(meta),
                        issued_at: None,
                        expires_at: None,
                        starts_at: None,
                        updated_at: None,
                        reference: None,
                        reference_hash: None,
                    },
                ),
                approved_account_ids: Vec::new(),
                royalty: Vec::new(),
            },
        )
    }
}

} // verus!
