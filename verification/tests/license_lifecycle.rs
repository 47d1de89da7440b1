use nftsentry::json::license_data_to_json;
use nftsentry::license::Contract;
use nftsentry::license::FilterOpt;
use nftsentry::license::LicenseError;
use nftsentry::types::LicenseData;
use nftsentry::types::TokenLicense;
use nftsentry::types::TokenMetadata;

fn sample_token_metadata() -> TokenMetadata {
    TokenMetadata {
        title: Some("Olympus Mons".to_string()),
        description: Some("The tallest mountain in the charted solar system".to_string()),
        media: None,
        media_hash: None,
        copies: Some(1u64),
        issued_at: None,
        expires_at: None,
        starts_at: None,
        updated_at: None,
        extra: None,
        reference: None,
        reference_hash: None,
    }
}

fn sample_license_data() -> LicenseData {
    LicenseData {
        i_agree: true,
        perpetuity: true,
        exclusivity: true,
        personal_use: true,
        commercial_use: false,
        limited_display_sublicensee: true,
        template: Some("v1".to_string()),
        pdf_url: Some(
            "https://nftstorage.link/ipfs/bafybeifrvo2ksl7mz6coxx2iie6l73pgd2wkptnict5ypsoe4xenlufdhm"
                .to_string(),
        ),
    }
}

fn sample_token_license() -> TokenLicense {
    TokenLicense {
        title: Some("NFTSentry License #1".to_string()),
        description: Some("First NFTSentry License Template".to_string()),
        issuer_id: None,
        uri: Some(
            "https://bafybeihjuk544ww4e5qexjlrfyzdl6mkht6rk6cmbfvbosknvrjni364x4.ipfs.nftstorage.link"
                .to_string(),
        ),
        metadata: None,
        issued_at: None,
        expires_at: None,
        starts_at: None,
        updated_at: None,
        reference: None,
        reference_hash: None,
    }
}

fn titled_license(title: &str) -> TokenLicense {
    let mut l = sample_token_license();
    l.title = Some(title.to_string());
    l
}

#[test]
fn test_serialize_license_data() {
    let license_data = license_data_to_json(&sample_license_data()).unwrap();
    println!("==> LicenseData: {}", license_data);
    assert_ne!(license_data.len(), 0);
}

#[test]
fn test_license() {
    println!("==> test1");
    let account = "nft.lsheiba.testnet".to_string();
    let mut contract = Contract::new_default_meta(account.clone());

    let token_id = "token-1".to_string();
    let _token = contract
        .nft_mint(
            token_id.clone(),
            "id".to_string(),
            sample_token_metadata(),
            account.clone(),
            Some(sample_token_license()),
            None,
        )
        .unwrap();

    contract
        .nft_propose_license(token_id.clone(), sample_token_license(), account.clone())
        .unwrap();
    contract.nft_approve_license(token_id.clone(), account.clone()).unwrap();
    contract.internal_replace_license(&account, &token_id, &sample_token_license());

    let proposed_license = sample_token_license();
    contract.internal_propose_license(&account, &token_id, &proposed_license);
    let out = contract.nft_proposed_license(token_id.clone());
    assert!(out.is_some());

    contract.internal_update_license(&account, &token_id).unwrap();
    let out = contract.nft_license(token_id);
    assert!(out.is_some());
}

#[test]
fn test_mint() {
    println!("==> test_mint");
    let account = "alice".to_string();
    let mut contract = Contract::new_default_meta(account.clone());

    let token_id = "token-1".to_string();
    let token = contract
        .nft_mint(
            token_id.clone(),
            "id".to_string(),
            sample_token_metadata(),
            account.clone(),
            Some(sample_token_license()),
            None,
        )
        .unwrap();

    assert_eq!(token.token_id, token_id);
    assert_eq!(token.owner_id, account);
    assert_eq!(token.metadata.title, sample_token_metadata().title);
    assert_eq!(token.approved_account_ids.len(), 0);

    let all_tokens = contract.nft_tokens(None, None, None);
    assert_eq!(all_tokens.len(), 1);

    let filter_opt = FilterOpt { asset_id: Some("id".to_string()), account_id: None };
    let asset_tokens = contract.nft_tokens(None, None, Some(filter_opt));
    assert_eq!(asset_tokens.len(), 1);

    let filter_opt2 = FilterOpt { asset_id: Some("id2".to_string()), account_id: None };
    let not_asset_tokens = contract.nft_tokens(None, None, Some(filter_opt2));
    assert_eq!(not_asset_tokens.len(), 0);
}

#[test]
fn propose_twice_is_idempotent() {
    let owner = "alice".to_string();
    let mut contract = Contract::new_default_meta(owner.clone());
    contract
        .nft_mint(
            "t1".to_string(),
            "a1".to_string(),
            sample_token_metadata(),
            owner.clone(),
            None,
            None,
        )
        .unwrap();

    let license = titled_license("L1");
    contract.nft_propose_license("t1".to_string(), license.clone(), owner.clone()).unwrap();
    let once = contract.nft_proposed_license("t1".to_string()).unwrap();
    contract.nft_propose_license("t1".to_string(), license, owner).unwrap();
    let twice = contract.nft_proposed_license("t1".to_string()).unwrap();
    assert_eq!(once.license.title, twice.license.title);
    assert_eq!(once.owner_id, twice.owner_id);
    assert_eq!(once.token_id, twice.token_id);
}

#[test]
fn propose_replaces_prior_proposal() {
    let owner = "alice".to_string();
    let mut contract = Contract::new_default_meta(owner.clone());
    contract
        .nft_mint(
            "t1".to_string(),
            "a1".to_string(),
            sample_token_metadata(),
            owner.clone(),
            None,
            None,
        )
        .unwrap();

    contract.nft_propose_license("t1".to_string(), titled_license("L1"), owner.clone()).unwrap();
    contract.nft_propose_license("t1".to_string(), titled_license("L2"), owner).unwrap();
    let staged = contract.nft_proposed_license("t1".to_string()).unwrap();
    assert_eq!(staged.license.title, Some("L2".to_string()));
}

#[test]
fn end_to_end_propose_approve_reject() {
    // Mint with no license, propose, approve: the proposal becomes the
    // active license and the proposal slot clears.  Then propose again
    // and reject: the active license is untouched and the slot clears.
    let owner = "alice".to_string();
    let mut contract = Contract::new_default_meta(owner.clone());
    contract
        .nft_mint(
            "T".to_string(),
            "a1".to_string(),
            sample_token_metadata(),
            owner.clone(),
            None,
            None,
        )
        .unwrap();
    assert!(contract.nft_license("T".to_string()).is_none());
    assert!(contract.nft_proposed_license("T".to_string()).is_none());

    contract.nft_propose_license("T".to_string(), titled_license("L1"), owner.clone()).unwrap();
    contract.nft_approve_license("T".to_string(), owner.clone()).unwrap();
    let active = contract.nft_license("T".to_string()).unwrap();
    assert_eq!(active.license.title, Some("L1".to_string()));
    assert!(contract.nft_proposed_license("T".to_string()).is_none());

    contract.nft_propose_license("T".to_string(), titled_license("L2"), owner.clone()).unwrap();
    contract.nft_reject_license("T".to_string(), owner).unwrap();
    let active = contract.nft_license("T".to_string()).unwrap();
    assert_eq!(active.license.title, Some("L1".to_string()));
    assert!(contract.nft_proposed_license("T".to_string()).is_none());
}

#[test]
fn at_most_one_active_and_one_proposed() {
    // Whatever sequence of propose / approve / reject runs, each token
    // answers with at most one active and at most one proposed license.
    let owner = "alice".to_string();
    let mut contract = Contract::new_default_meta(owner.clone());
    contract
        .nft_mint(
            "T".to_string(),
            "a1".to_string(),
            sample_token_metadata(),
            owner.clone(),
            None,
            None,
        )
        .unwrap();

    let steps: Vec<u8> = vec![0, 0, 1, 0, 2, 0, 1, 1, 2];
    for s in steps {
        match s {
            0 => {
                contract
                    .nft_propose_license("T".to_string(), titled_license("L"), owner.clone())
                    .ok();
            },
            1 => {
                contract.nft_approve_license("T".to_string(), owner.clone()).ok();
            },
            _ => {
                contract.nft_reject_license("T".to_string(), owner.clone()).ok();
            },
        }
        // The queries answer with zero or one license, never more: their
        // result is a single optional record per slot.
        let _active = contract.nft_license("T".to_string());
        let _staged = contract.nft_proposed_license("T".to_string());
    }
    assert!(contract.nft_license("T".to_string()).is_some());
    assert!(contract.nft_proposed_license("T".to_string()).is_none());
}

#[test]
fn lifecycle_error_variants() {
    let owner = "alice".to_string();
    let mut contract = Contract::new_default_meta(owner.clone());
    contract
        .nft_mint(
            "T".to_string(),
            "a1".to_string(),
            sample_token_metadata(),
            owner.clone(),
            None,
            None,
        )
        .unwrap();

    let dup = contract.nft_mint(
        "T".to_string(),
        "a1".to_string(),
        sample_token_metadata(),
        owner.clone(),
        None,
        None,
    );
    assert!(matches!(dup, Err(LicenseError::TokenAlreadyExists)));

    let missing = contract.nft_propose_license("ghost".to_string(), titled_license("L"), owner.clone());
    assert!(matches!(missing, Err(LicenseError::TokenNotFound)));

    let not_owner =
        contract.nft_propose_license("T".to_string(), titled_license("L"), "bob".to_string());
    assert!(matches!(not_owner, Err(LicenseError::Ownership)));

    let nothing_staged = contract.nft_approve_license("T".to_string(), owner.clone());
    assert!(matches!(nothing_staged, Err(LicenseError::NoProposal)));

    let nothing_staged = contract.nft_reject_license("T".to_string(), owner);
    assert!(matches!(nothing_staged, Err(LicenseError::NoProposal)));
}

#[test]
fn proposal_receiver_flow() {
    let master = "master".to_string();
    let receiver = "bob".to_string();
    let mut contract = Contract::new_default_meta(master.clone());
    contract
        .nft_mint(
            "T".to_string(),
            "a1".to_string(),
            sample_token_metadata(),
            receiver.clone(),
            None,
            None,
        )
        .unwrap();

    let event = contract.nft_license_proposal(
        receiver.clone(),
        "T".to_string(),
        titled_license("L1"),
        Some("offer".to_string()),
        master.clone(),
    );
    assert_eq!(event.payload.owner_id, receiver);
    assert_eq!(event.payload.memo, Some("offer".to_string()));

    let wrong_owner = contract.nft_on_license_proposal(
        "T".to_string(),
        "carol".to_string(),
        1,
        String::new(),
        master.clone(),
    );
    assert!(matches!(wrong_owner, Err(LicenseError::Ownership)));

    contract
        .nft_on_license_proposal("T".to_string(), receiver, 1, String::new(), master)
        .unwrap();
    let active = contract.nft_license("T".to_string()).unwrap();
    assert_eq!(active.license.title, Some("L1".to_string()));
}

#[test]
fn enumeration_caps_at_server_page_size() {
    let owner = "alice".to_string();
    let mut contract = Contract::new_default_meta(owner.clone());
    for i in 0..60u32 {
        contract
            .nft_mint(
                format!("t{}", i),
                "a1".to_string(),
                sample_token_metadata(),
                owner.clone(),
                None,
                None,
            )
            .unwrap();
    }
    // The server-side page size is fifty, whatever the caller asks for.
    let page = contract.nft_tokens(None, Some(100), None);
    assert_eq!(page.len(), 50);
    let page = contract.nft_tokens(None, None, None);
    assert_eq!(page.len(), 50);
    let tail = contract.nft_tokens(Some(55), None, None);
    assert_eq!(tail.len(), 5);
    assert_eq!(tail[0].token_id, "t55");
    let beyond = contract.nft_tokens(Some(100), None, None);
    assert_eq!(beyond.len(), 0);
}
