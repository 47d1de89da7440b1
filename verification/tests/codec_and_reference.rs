use nftsentry::json::license_data_from_json;
use nftsentry::json::license_data_to_json;
use nftsentry::json::token_extra_from_json;
use nftsentry::json::token_extra_to_json;
use nftsentry::reference::extra_reference_for_asset_path;
use nftsentry::reference::split_path3;
use nftsentry::types::LicenseData;
use nftsentry::types::TokenExtra;
use nftsentry::types::TokenMetadata;

fn data() -> LicenseData {
    LicenseData {
        i_agree: true,
        perpetuity: true,
        exclusivity: false,
        personal_use: true,
        commercial_use: false,
        limited_display_sublicensee: true,
        template: Some("v1".to_string()),
        pdf_url: None,
    }
}

#[test]
fn license_data_canonical_form() {
    let json = license_data_to_json(&data()).unwrap();
    assert_eq!(
        json,
        "{\"i_agree\":true,\"perpetuity\":true,\"exclusivity\":false,\"personal_use\":true,\
         \"commercial_use\":false,\"limited_display_sublicensee\":true,\"template\":\"v1\",\
         \"pdf_url\":null}"
    );
}

#[test]
fn license_data_round_trips() {
    let d = data();
    let json = license_data_to_json(&d).unwrap();
    let back = license_data_from_json(&json).unwrap();
    assert_eq!(back.i_agree, d.i_agree);
    assert_eq!(back.perpetuity, d.perpetuity);
    assert_eq!(back.exclusivity, d.exclusivity);
    assert_eq!(back.personal_use, d.personal_use);
    assert_eq!(back.commercial_use, d.commercial_use);
    assert_eq!(back.limited_display_sublicensee, d.limited_display_sublicensee);
    assert_eq!(back.template, d.template);
    assert_eq!(back.pdf_url, d.pdf_url);
}

#[test]
fn escapes_round_trip() {
    let mut d = data();
    d.template = Some("a \"quoted\" \\ backslash".to_string());
    let json = license_data_to_json(&d).unwrap();
    let back = license_data_from_json(&json).unwrap();
    assert_eq!(back.template, d.template);
}

#[test]
fn control_characters_are_rejected() {
    let mut d = data();
    d.template = Some("line\nbreak".to_string());
    assert!(license_data_to_json(&d).is_none());
}

#[test]
fn malformed_json_is_rejected() {
    assert!(license_data_from_json("").is_none());
    assert!(license_data_from_json("{}").is_none());
    assert!(license_data_from_json("{\"i_agree\":true}").is_none());
    assert!(license_data_from_json("not json").is_none());
    // Trailing garbage after a complete record is rejected too.
    let json = license_data_to_json(&data()).unwrap();
    assert!(license_data_from_json(&format!("{} ", json)).is_none());
}

#[test]
fn token_extra_round_trips() {
    let extra = TokenExtra { asset_id_path: "inv1/asset7/lic3".to_string() };
    let json = token_extra_to_json(&extra).unwrap();
    assert_eq!(json, "{\"asset_id_path\":\"inv1/asset7/lic3\"}");
    let back = token_extra_from_json(&json).unwrap();
    assert_eq!(back.asset_id_path, "inv1/asset7/lic3");
}

#[test]
fn split_path_components() {
    let t = split_path3("inv1/asset7/lic3").unwrap();
    assert_eq!(t.0, "inv1");
    assert_eq!(t.1, "asset7");
    assert_eq!(t.2, "lic3");

    // The third component stops at the next slash.
    let t = split_path3("a/b/c/d").unwrap();
    assert_eq!((t.0.as_str(), t.1.as_str(), t.2.as_str()), ("a", "b", "c"));

    assert!(split_path3("a/b").is_none());
    assert!(split_path3("").is_none());
}

#[test]
fn reference_through_metadata() {
    let extra = extra_reference_for_asset_path(
        String::new(),
        "inv1".to_string(),
        "asset7".to_string(),
        "lic3".to_string(),
    )
    .unwrap();
    let meta = TokenMetadata {
        title: None,
        description: None,
        media: None,
        media_hash: None,
        copies: None,
        issued_at: None,
        expires_at: None,
        starts_at: None,
        updated_at: None,
        extra: Some(extra),
        reference: None,
        reference_hash: None,
    };
    let (inv, asset, lic) = meta.inventory_asset_license().unwrap();
    assert_eq!(inv, "inv1");
    assert_eq!(asset, "asset7");
    assert_eq!(lic, "lic3");
}

#[test]
fn missing_or_malformed_reference_fails_closed() {
    let mut meta = TokenMetadata {
        title: None,
        description: None,
        media: None,
        media_hash: None,
        copies: None,
        issued_at: None,
        expires_at: None,
        starts_at: None,
        updated_at: None,
        extra: None,
        reference: None,
        reference_hash: None,
    };
    assert!(meta.inventory_asset_license().is_none());
    meta.extra = Some("{\"something\":\"else\"}".to_string());
    assert!(meta.inventory_asset_license().is_none());
    meta.extra = Some("{\"asset_id_path\":\"too/short\"}".to_string());
    assert!(meta.inventory_asset_license().is_none());
}
