use nftsentry::aggregate::build_full_inventory;
use nftsentry::inventory::InventoryContract;
use nftsentry::inventory::InventoryMetadata;
use nftsentry::types::AssetLicense;
use nftsentry::types::AssetTokenMetadata;
use nftsentry::types::InventoryContractMetadata;
use nftsentry::types::InventoryLicense;
use nftsentry::types::LicenseData;
use nftsentry::types::RemoteError;

fn terms(exclusive: bool) -> LicenseData {
    LicenseData {
        i_agree: true,
        perpetuity: false,
        exclusivity: exclusive,
        personal_use: true,
        commercial_use: false,
        limited_display_sublicensee: false,
        template: None,
        pdf_url: None,
    }
}

fn tier(id: &str, price: &str, exclusive: bool) -> InventoryLicense {
    InventoryLicense {
        license_id: id.to_string(),
        title: format!("{} title", id),
        price: price.to_string(),
        license: terms(exclusive),
    }
}

fn offer(id: &str, price: Option<&str>) -> AssetLicense {
    AssetLicense {
        license_id: id.to_string(),
        title: format!("{} offer", id),
        price: price.map(|p| p.to_string()),
    }
}

fn catalog_meta(licenses: Vec<InventoryLicense>) -> InventoryContractMetadata {
    InventoryContractMetadata {
        spec: "inventory-1.0.0".to_string(),
        name: "catalog".to_string(),
        symbol: "CAT".to_string(),
        icon: None,
        base_uri: None,
        reference: None,
        reference_hash: None,
        licenses,
        default_minter_id: "minter".to_string(),
    }
}

fn asset_meta() -> AssetTokenMetadata {
    AssetTokenMetadata {
        title: Some("asset".to_string()),
        description: None,
        media: None,
        media_hash: None,
        copies: None,
        issued_at: None,
        expires_at: None,
        starts_at: None,
        updated_at: None,
        extra: None,
        reference: None,
        reference_hash: None,
    }
}

#[test]
fn price_override_takes_precedence() {
    // Catalog price "10", asset override "5": the effective price is "5";
    // without an override it stays "10".
    let offers = vec![offer("L1", Some("5"))];
    let catalog = vec![tier("L1", "10", false)];
    let full = build_full_inventory(&offers, &catalog, Vec::new());
    assert_eq!(full.inventory_licenses.len(), 1);
    assert_eq!(full.inventory_licenses[0].price, "5");

    let offers = vec![offer("L1", None)];
    let full = build_full_inventory(&offers, &catalog, Vec::new());
    assert_eq!(full.inventory_licenses[0].price, "10");
}

#[test]
fn unoffered_licenses_are_excluded() {
    let offers = vec![offer("L2", None)];
    let catalog = vec![tier("L1", "10", false), tier("L2", "7", false)];
    let full = build_full_inventory(&offers, &catalog, Vec::new());
    assert_eq!(full.inventory_licenses.len(), 1);
    assert_eq!(full.inventory_licenses[0].license_id, "L2");
    // The copy keeps the catalog title and terms.
    assert_eq!(full.inventory_licenses[0].title, "L2 title");
}

#[test]
fn offers_keep_their_order() {
    let offers = vec![offer("L2", None), offer("L1", Some("1")), offer("ghost", None)];
    let catalog = vec![tier("L1", "10", false), tier("L2", "7", false)];
    let full = build_full_inventory(&offers, &catalog, Vec::new());
    assert_eq!(full.inventory_licenses.len(), 2);
    assert_eq!(full.inventory_licenses[0].license_id, "L2");
    assert_eq!(full.inventory_licenses[1].license_id, "L1");
    assert_eq!(full.inventory_licenses[1].price, "1");
}

#[test]
fn catalog_metadata_updates() {
    let owner = "owner".to_string();
    let mut inv = InventoryContract::new(owner.clone(), catalog_meta(vec![]));

    let denied = inv.update_inventory_licenses(vec![tier("L1", "1", false)], "mallory".to_string());
    assert!(denied.is_err());

    let dup = inv.update_inventory_licenses(
        vec![tier("L1", "1", false), tier("L1", "2", false)],
        owner.clone(),
    );
    assert!(dup.is_err());

    let ok = inv.update_inventory_licenses(vec![tier("L1", "1", false)], owner.clone()).unwrap();
    assert_eq!(ok.metadata.licenses.len(), 1);

    let extended = InventoryMetadata::add_inventory_license(&mut inv, tier("L2", "2", false));
    assert_eq!(extended.metadata.licenses.len(), 2);
    assert_eq!(extended.asset_count, 0);
    assert_eq!(extended.owner_id, owner);

    let whole = inv.update_inventory_metadata(catalog_meta(vec![tier("L3", "3", true)]), owner);
    assert_eq!(whole.unwrap().metadata.licenses[0].license_id, "L3");
}

#[test]
fn asset_enumeration_and_pagination() {
    let owner = "owner".to_string();
    let mut inv = InventoryContract::new(owner.clone(), catalog_meta(vec![]));
    inv.asset_mint("a1".to_string(), asset_meta(), "alice".to_string(), None, None).unwrap();
    inv.asset_mint("a2".to_string(), asset_meta(), "alice".to_string(), None, None).unwrap();
    inv.asset_mint("a3".to_string(), asset_meta(), "bob".to_string(), None, None).unwrap();

    assert_eq!(inv.assets_total_supply(), 3);

    let all = inv.asset_tokens(None, None);
    assert_eq!(all.len(), 3);
    assert_eq!(all[0].token_id, "a1");
    assert_eq!(all[2].token_id, "a3");

    let page = inv.asset_tokens(Some(1), Some(1));
    assert_eq!(page.len(), 1);
    assert_eq!(page[0].token_id, "a2");

    assert_eq!(inv.asset_supply_for_owner("alice".to_string()), 2);
    assert_eq!(inv.asset_supply_for_owner("carol".to_string()), 0);

    let alices = inv.asset_tokens_for_owner("alice".to_string(), None, None);
    assert_eq!(alices.len(), 2);
    assert_eq!(alices[0].token_id, "a1");
    assert_eq!(alices[1].token_id, "a2");
    assert_eq!(alices[1].owner_id, "alice");

    let single = inv._asset_token("a3".to_string()).unwrap();
    assert_eq!(single.owner_id, "bob");
    assert!(single.available_licenses.is_none());
}

#[test]
fn availability_callback_annotates_asset() {
    let owner = "owner".to_string();
    let mut inv = InventoryContract::new(
        owner.clone(),
        catalog_meta(vec![tier("L1", "10", false), tier("L2", "7", false)]),
    );
    inv.asset_mint(
        "a1".to_string(),
        asset_meta(),
        "alice".to_string(),
        Some("minter".to_string()),
        Some(vec![offer("L1", Some("5"))]),
    )
    .unwrap();
    let asset = inv._asset_token("a1".to_string()).unwrap();

    let failed = inv.full_inventory_for_asset_callback(Err(RemoteError {}), &asset);
    assert!(failed.is_err());

    let annotated = inv.full_inventory_for_asset_callback(Ok(Vec::new()), &asset).unwrap();
    let avail = annotated.available_licenses.unwrap();
    assert_eq!(avail.len(), 1);
    assert_eq!(avail[0].inventory_license.license_id, "L1");
    assert_eq!(avail[0].inventory_license.price, "5");
    assert!(avail[0].available);
}

#[test]
fn owner_index_is_a_set() {
    // Re-indexing an already-indexed token changes nothing: the owner's
    // supply stays one and the asset is enumerated once.
    let owner = "owner".to_string();
    let mut inv = InventoryContract::new(owner, catalog_meta(vec![]));
    inv.asset_mint("a1".to_string(), asset_meta(), "alice".to_string(), None, None).unwrap();
    assert_eq!(inv.asset_supply_for_owner("alice".to_string()), 1);

    inv.internal_add_token_to_owner(&"alice".to_string(), &"a1".to_string());
    assert_eq!(inv.asset_supply_for_owner("alice".to_string()), 1);
    let alices = inv.asset_tokens_for_owner("alice".to_string(), None, None);
    assert_eq!(alices.len(), 1);
    assert_eq!(alices[0].token_id, "a1");
    assert_eq!(alices[0].owner_id, "alice");
}
