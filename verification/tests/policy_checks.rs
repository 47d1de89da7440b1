use nftsentry::json::license_data_to_json;
use nftsentry::policy::check_inventory_state;
use nftsentry::policy::check_transition;
use nftsentry::policy::list_available;
use nftsentry::policy::LicenseGeneral;
use nftsentry::policy::PolicyError;
use nftsentry::types::FullInventory;
use nftsentry::types::InventoryLicense;
use nftsentry::types::LicenseData;
use nftsentry::types::LicenseToken;
use nftsentry::types::TokenLicense;
use nftsentry::types::TokenMetadata;

fn terms(exclusive: bool) -> LicenseData {
    LicenseData {
        i_agree: true,
        perpetuity: false,
        exclusivity: exclusive,
        personal_use: true,
        commercial_use: false,
        limited_display_sublicensee: false,
        template: None,
        pdf_url: None,
    }
}

fn tier(id: &str, price: &str, exclusive: bool) -> InventoryLicense {
    InventoryLicense {
        license_id: id.to_string(),
        title: format!("{} title", id),
        price: price.to_string(),
        license: terms(exclusive),
    }
}

fn empty_meta() -> TokenMetadata {
    TokenMetadata {
        title: None,
        description: None,
        media: None,
        media_hash: None,
        copies: None,
        issued_at: None,
        expires_at: None,
        starts_at: None,
        updated_at: None,
        extra: None,
        reference: None,
        reference_hash: None,
    }
}

fn issued(token_id: &str, data: Option<&LicenseData>) -> LicenseToken {
    let license = data.map(|d| TokenLicense {
        title: Some("some license".to_string()),
        description: None,
        issuer_id: None,
        uri: None,
        metadata: Some(license_data_to_json(d).unwrap()),
        issued_at: None,
        expires_at: None,
        starts_at: None,
        updated_at: None,
        reference: None,
        reference_hash: None,
    });
    LicenseToken {
        token_id: token_id.to_string(),
        owner_id: "who".to_string(),
        asset_id: "asset".to_string(),
        metadata: empty_meta(),
        license,
        approved_account_ids: Vec::new(),
        royalty: Vec::new(),
    }
}

#[test]
fn exclusive_hold_blocks_other_tokens() {
    // Token A holds exclusive L1: token B may get neither L1 nor L2.
    let inv = FullInventory {
        inventory_licenses: vec![tier("L1", "10", true), tier("L2", "7", false)],
        issued_licenses: vec![issued("A", Some(&terms(true)))],
    };
    let b = issued("B", None);

    let v1 = check_transition(&inv, &b, &tier("L1", "10", true)).unwrap();
    assert!(!v1.allowed);
    assert!(v1.reason.is_some());

    let v2 = check_transition(&inv, &b, &tier("L2", "7", false)).unwrap();
    assert!(!v2.allowed);
    assert!(v2.reason.is_some());
}

#[test]
fn exclusive_hold_does_not_block_itself() {
    // Token A may transition away from its own exclusive hold.
    let inv = FullInventory {
        inventory_licenses: vec![tier("L1", "10", true), tier("L2", "7", false)],
        issued_licenses: vec![issued("A", Some(&terms(true)))],
    };
    let a = issued("A", Some(&terms(true)));
    let v = check_transition(&inv, &a, &tier("L2", "7", false)).unwrap();
    assert!(v.allowed);
    assert!(v.reason.is_none());
}

#[test]
fn non_exclusive_blocks_only_new_exclusive() {
    let inv = FullInventory {
        inventory_licenses: vec![tier("L1", "10", false), tier("L2", "7", true)],
        issued_licenses: vec![issued("A", Some(&terms(false)))],
    };
    let b = issued("B", None);

    let non_exclusive_request = check_transition(&inv, &b, &tier("L1", "10", false)).unwrap();
    assert!(non_exclusive_request.allowed);

    let exclusive_request = check_transition(&inv, &b, &tier("L2", "7", true)).unwrap();
    assert!(!exclusive_request.allowed);
}

#[test]
fn no_offer_denies_everything() {
    // An asset offering no licenses: nothing is listed and every
    // transition request is an unknown license.
    let inv = FullInventory {
        inventory_licenses: vec![],
        issued_licenses: vec![issued("A", Some(&terms(false)))],
    };
    assert_eq!(list_available(&inv).len(), 0);
    let b = issued("B", None);
    let r = check_transition(&inv, &b, &tier("L1", "10", false));
    assert!(matches!(r, Err(PolicyError::UnknownLicense)));
}

#[test]
fn malformed_issued_terms_fail_closed() {
    let mut bad = issued("A", Some(&terms(false)));
    bad.license.as_mut().unwrap().metadata = Some("not json at all".to_string());
    let inv = FullInventory {
        inventory_licenses: vec![tier("L1", "10", false)],
        issued_licenses: vec![bad],
    };
    let b = issued("B", None);
    let r = check_transition(&inv, &b, &tier("L1", "10", false));
    assert!(matches!(r, Err(PolicyError::MalformedLicenseData)));

    // The same snapshot lists the license as unavailable rather than
    // granting over unreadable terms.
    let listed = list_available(&inv);
    assert_eq!(listed.len(), 1);
    assert!(!listed[0].available);
    assert!(listed[0].reason_not_available.is_some());
}

#[test]
fn token_without_license_blocks_nothing() {
    let inv = FullInventory {
        inventory_licenses: vec![tier("L1", "10", true)],
        issued_licenses: vec![issued("A", None)],
    };
    let listed = list_available(&inv);
    assert_eq!(listed.len(), 1);
    assert!(listed[0].available);
    assert!(listed[0].reason_not_available.is_none());
}

#[test]
fn availability_follows_catalog_order() {
    let inv = FullInventory {
        inventory_licenses: vec![tier("L1", "10", false), tier("L2", "7", true)],
        issued_licenses: vec![issued("A", Some(&terms(false)))],
    };
    let listed = list_available(&inv);
    assert_eq!(listed.len(), 2);
    assert_eq!(listed[0].inventory_license.license_id, "L1");
    assert!(listed[0].available);
    assert_eq!(listed[1].inventory_license.license_id, "L2");
    assert!(!listed[1].available);
}

#[test]
fn inventory_state_rejects_duplicate_ids() {
    let dup = vec![tier("L1", "10", false), tier("L2", "7", false), tier("L1", "9", true)];
    let v = check_inventory_state(&dup);
    assert!(!v.allowed);
    assert!(v.reason.is_some());

    let ok = vec![tier("L1", "10", false), tier("L2", "7", false)];
    let v = check_inventory_state(&ok);
    assert!(v.allowed);
    assert!(v.reason.is_none());
}

#[test]
fn license_general_flags() {
    let lic = tier("L1", "10", true);
    assert!(lic.is_exclusive());
    assert!(lic.is_personal());
    assert!(!lic.is_commercial());

    let tok = issued("A", Some(&terms(true)));
    assert!(tok.is_exclusive());
    assert!(tok.is_personal());
    assert!(!tok.is_commercial());
}
