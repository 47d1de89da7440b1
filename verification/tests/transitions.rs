use nftsentry::deposit::refund_deposit;
use nftsentry::events::EventKind;
use nftsentry::json::license_data_from_json;
use nftsentry::json::license_data_to_json;
use nftsentry::license::Contract;
use nftsentry::license::LicenseError;
use nftsentry::orchestrator::TransitionOutcome;
use nftsentry::orchestrator::TransitionPhase;
use nftsentry::reference::extra_reference_for_asset_path;
use nftsentry::types::AssetLicense;
use nftsentry::types::AssetTokenMetadata;
use nftsentry::types::InventoryContractMetadata;
use nftsentry::types::InventoryLicense;
use nftsentry::types::JsonAssetToken;
use nftsentry::types::LicenseData;
use nftsentry::types::RemoteError;
use nftsentry::types::TokenMetadata;

fn terms(exclusive: bool) -> LicenseData {
    LicenseData {
        i_agree: true,
        perpetuity: false,
        exclusivity: exclusive,
        personal_use: true,
        commercial_use: false,
        limited_display_sublicensee: false,
        template: None,
        pdf_url: Some("https://example.test/license.pdf".to_string()),
    }
}

fn tier(id: &str, price: &str, exclusive: bool) -> InventoryLicense {
    InventoryLicense {
        license_id: id.to_string(),
        title: format!("{} title", id),
        price: price.to_string(),
        license: terms(exclusive),
    }
}

fn metadata_with_reference(inv: &str, asset: &str, lic: &str) -> TokenMetadata {
    let extra = extra_reference_for_asset_path(
        String::new(),
        inv.to_string(),
        asset.to_string(),
        lic.to_string(),
    )
    .unwrap();
    TokenMetadata {
        title: Some("token".to_string()),
        description: None,
        media: None,
        media_hash: None,
        copies: None,
        issued_at: None,
        expires_at: None,
        starts_at: None,
        updated_at: None,
        extra: Some(extra),
        reference: None,
        reference_hash: None,
    }
}

fn catalog(licenses: Vec<InventoryLicense>) -> InventoryContractMetadata {
    InventoryContractMetadata {
        spec: "inventory-1.0.0".to_string(),
        name: "catalog".to_string(),
        symbol: "CAT".to_string(),
        icon: None,
        base_uri: None,
        reference: None,
        reference_hash: None,
        licenses,
        default_minter_id: "minter".to_string(),
    }
}

fn snapshot(asset_id: &str, offers: Vec<AssetLicense>) -> JsonAssetToken {
    JsonAssetToken {
        token_id: asset_id.to_string(),
        owner_id: "asset-owner".to_string(),
        minter_id: Some("minter".to_string()),
        metadata: AssetTokenMetadata {
            title: None,
            description: None,
            media: None,
            media_hash: None,
            copies: None,
            issued_at: None,
            expires_at: None,
            starts_at: None,
            updated_at: None,
            extra: None,
            reference: None,
            reference_hash: None,
        },
        licenses: Some(offers),
        available_licenses: None,
    }
}

fn offer(id: &str, price: Option<&str>) -> AssetLicense {
    AssetLicense {
        license_id: id.to_string(),
        title: format!("{} offer", id),
        price: price.map(|p| p.to_string()),
    }
}

fn minted_contract() -> Contract {
    let mut contract = Contract::new_default_meta("owner".to_string());
    contract
        .nft_mint(
            "T".to_string(),
            "asset1".to_string(),
            metadata_with_reference("inv1", "asset1", "L0"),
            "alice".to_string(),
            None,
            None,
        )
        .unwrap();
    contract
}

#[test]
fn transition_request_opens_with_reference() {
    let contract = minted_contract();
    let req = contract
        .nft_update_license("T".to_string(), "L1".to_string(), "alice".to_string())
        .unwrap();
    assert!(matches!(req.phase, TransitionPhase::AwaitingRemote));
    assert_eq!(req.inventory_id, "inv1");
    assert_eq!(req.asset_id, "asset1");
    assert_eq!(req.new_license_id, "L1");
}

#[test]
fn transition_request_gates() {
    let contract = minted_contract();
    let missing =
        contract.nft_update_license("ghost".to_string(), "L1".to_string(), "alice".to_string());
    assert!(matches!(missing, Err(LicenseError::TokenNotFound)));

    let not_owner =
        contract.nft_update_license("T".to_string(), "L1".to_string(), "bob".to_string());
    assert!(matches!(not_owner, Err(LicenseError::Ownership)));

    let mut bare = Contract::new_default_meta("owner".to_string());
    bare.nft_mint(
        "U".to_string(),
        "asset1".to_string(),
        TokenMetadata {
            title: None,
            description: None,
            media: None,
            media_hash: None,
            copies: None,
            issued_at: None,
            expires_at: None,
            starts_at: None,
            updated_at: None,
            extra: None,
            reference: None,
            reference_hash: None,
        },
        "alice".to_string(),
        None,
        None,
    )
    .unwrap();
    let unreadable =
        bare.nft_update_license("U".to_string(), "L1".to_string(), "alice".to_string());
    assert!(matches!(unreadable, Err(LicenseError::MalformedReference)));
}

#[test]
fn committed_transition_replaces_license() {
    let mut contract = minted_contract();
    let meta = catalog(vec![tier("L1", "10", false)]);
    let asset = snapshot("asset1", vec![offer("L1", Some("5"))]);

    let outcome = contract.on_license_update(
        Ok(meta),
        Ok(asset),
        "T".to_string(),
        "alice".to_string(),
        "L1".to_string(),
        "issuer".to_string(),
        123,
    );
    let event = match outcome {
        TransitionOutcome::Committed(e) => e,
        _ => panic!("expected a committed transition"),
    };
    assert_eq!(event.standard, "license-std");
    assert_eq!(event.version, "1.0.0");
    assert!(matches!(event.event_type, EventKind::Replaced));
    assert_eq!(event.payload.owner_id, "alice");
    assert_eq!(event.payload.token_ids, vec!["T".to_string()]);

    let active = contract.nft_license("T".to_string()).unwrap();
    assert_eq!(active.license.title, Some("L1 title".to_string()));
    assert_eq!(active.license.issuer_id, Some("issuer".to_string()));
    assert_eq!(active.license.issued_at, Some(123));
    assert_eq!(active.license.starts_at, Some(123));
    let decoded = license_data_from_json(active.license.metadata.as_ref().unwrap()).unwrap();
    assert!(!decoded.exclusivity);
    assert_eq!(decoded.pdf_url, Some("https://example.test/license.pdf".to_string()));
}

#[test]
fn failed_remote_read_aborts_atomically() {
    // One of the two remote reads fails: no event, and both license
    // slots are exactly as before the call.
    let mut contract = minted_contract();
    contract
        .nft_propose_license(
            "T".to_string(),
            nftsentry::types::TokenLicense {
                title: Some("staged".to_string()),
                description: None,
                issuer_id: None,
                uri: None,
                metadata: None,
                issued_at: None,
                expires_at: None,
                starts_at: None,
                updated_at: None,
                reference: None,
                reference_hash: None,
            },
            "alice".to_string(),
        )
        .unwrap();

    let before_active = contract.nft_license("T".to_string());
    let before_staged = contract.nft_proposed_license("T".to_string()).unwrap();

    let meta = catalog(vec![tier("L1", "10", false)]);
    let outcome = contract.on_license_update(
        Ok(meta),
        Err(RemoteError {}),
        "T".to_string(),
        "alice".to_string(),
        "L1".to_string(),
        "issuer".to_string(),
        123,
    );
    assert!(matches!(outcome, TransitionOutcome::Failed));

    assert!(before_active.is_none());
    assert!(contract.nft_license("T".to_string()).is_none());
    let after_staged = contract.nft_proposed_license("T".to_string()).unwrap();
    assert_eq!(after_staged.license.title, before_staged.license.title);

    let meta = catalog(vec![tier("L1", "10", false)]);
    let asset = snapshot("asset1", vec![offer("L1", None)]);
    let outcome = contract.on_license_update(
        Err(RemoteError {}),
        Ok(asset),
        "T".to_string(),
        "alice".to_string(),
        "L1".to_string(),
        "issuer".to_string(),
        123,
    );
    assert!(matches!(outcome, TransitionOutcome::Failed));
    let _ = meta;
}

#[test]
fn unknown_or_unoffered_license_rejects() {
    let mut contract = minted_contract();
    let meta = catalog(vec![tier("L1", "10", false)]);
    let asset = snapshot("asset1", vec![offer("L1", None)]);
    let outcome = contract.on_license_update(
        Ok(meta),
        Ok(asset),
        "T".to_string(),
        "alice".to_string(),
        "L9".to_string(),
        "issuer".to_string(),
        123,
    );
    assert!(matches!(outcome, TransitionOutcome::Rejected(_)));
    assert!(contract.nft_license("T".to_string()).is_none());

    // In the catalog but not offered for this asset: rejected too.
    let meta = catalog(vec![tier("L1", "10", false), tier("L2", "7", false)]);
    let asset = snapshot("asset1", vec![offer("L1", None)]);
    let outcome = contract.on_license_update(
        Ok(meta),
        Ok(asset),
        "T".to_string(),
        "alice".to_string(),
        "L2".to_string(),
        "issuer".to_string(),
        123,
    );
    assert!(matches!(outcome, TransitionOutcome::Rejected(_)));
}

#[test]
fn exclusive_conflict_rejects_transition() {
    let mut contract = minted_contract();
    // A second token on the same asset already holds an exclusive
    // license.
    contract
        .nft_mint(
            "S".to_string(),
            "asset1".to_string(),
            metadata_with_reference("inv1", "asset1", "L1"),
            "bob".to_string(),
            Some(nftsentry::types::TokenLicense {
                title: Some("exclusive hold".to_string()),
                description: None,
                issuer_id: None,
                uri: None,
                metadata: Some(license_data_to_json(&terms(true)).unwrap()),
                issued_at: None,
                expires_at: None,
                starts_at: None,
                updated_at: None,
                reference: None,
                reference_hash: None,
            }),
            None,
        )
        .unwrap();

    let meta = catalog(vec![tier("L1", "10", false)]);
    let asset = snapshot("asset1", vec![offer("L1", None)]);
    let outcome = contract.on_license_update(
        Ok(meta),
        Ok(asset),
        "T".to_string(),
        "alice".to_string(),
        "L1".to_string(),
        "issuer".to_string(),
        123,
    );
    let reason = match outcome {
        TransitionOutcome::Rejected(re) => re,
        _ => panic!("expected a rejected transition"),
    };
    assert!(reason.len() > 0);
    assert!(contract.nft_license("T".to_string()).is_none());
}

#[test]
fn deposit_reconciliation() {
    assert_eq!(refund_deposit(10, 35, 3), Ok(5));
    assert_eq!(refund_deposit(10, 30, 3), Ok(0));
    assert!(refund_deposit(10, 29, 3).is_err());
    assert!(refund_deposit(2, u128::MAX, u128::MAX).is_err());
    assert_eq!(refund_deposit(0, 7, u128::MAX), Ok(7));
}
