//! The transition orchestrator: drives a license update through its
//! phases.
//!
//! A request starts with an ownership check and the parse of the token's
//! asset reference (`Requested`), then waits for two remote reads issued
//! concurrently against the catalog service (`AwaitingRemote`): the
//! catalog metadata and the asset snapshot.  The caller performs the
//! reads and hands both results to [`Contract::on_license_update`], which
//! joins them (`Evaluating`): if either failed the request aborts with no
//! state change and no event (`Failed`); otherwise the full inventory is
//! built, the policy evaluator decides, and the transition is either
//! committed atomically — the active license replaced, the event returned
//! for emission — or rejected with the verdict's reason and no state
//! change.  Whatever the outcome, the caller still reconciles the storage
//! deposit with [`crate::deposit::refund_deposit`].

use vstd::prelude::*;

use crate::aggregate::build_full_inventory;
use crate::aggregate::find_by_id;
use crate::aggregate::spec_find_by_id;
use crate::aggregate::spec_offer_licenses;
use crate::events::EventKind;
use crate::events::EventLog;
use crate::events::spec_event;
use crate::json::license_data_clean;
use crate::json::license_data_json;
use crate::json::license_data_to_json;
use crate::json::parse_license_data;
use crate::license::Contract;
use crate::license::FilterOpt;
use crate::license::spec_filtered;
use crate::license::spec_json_token;
use crate::policy::check_transition;
use crate::policy::PolicyError;
use crate::policy::spec_conflicting_token;
use crate::policy::spec_has_malformed;
use crate::policy::spec_known_license;
use crate::policy::spec_license_terms;
use crate::policy::spec_token_blocks;
use crate::reference::spec_asset_path_triple;
use crate::types::AccountId;
use crate::types::AssetId;
use crate::types::InventoryContractMetadata;
use crate::types::JsonAssetToken;
use crate::types::AssetLicense;
use crate::types::FullInventory;
use crate::types::LicenseToken;
use crate::types::RemoteError;
use crate::types::Token;
use crate::types::TokenId;
use crate::types::TokenLicense;
use crate::license::LicenseError;

verus! {

/// The phases a transition request passes through.  `Requested` is
/// passed through inside [`Contract::nft_update_license`] and
/// `Evaluating` inside [`Contract::on_license_update`]; a request value
/// only ever waits in `AwaitingRemote`, and the terminal phases are
/// reported as a [`TransitionOutcome`].
pub enum TransitionPhase {
    /// Submitted; the ownership gate and the asset reference are checked.
    Requested,
    /// Both remote reads are in flight; nothing local may change.
    AwaitingRemote,
    /// Both reads resolved; the policy evaluator decides.
    Evaluating,
    /// The license was replaced and the event emitted.
    Committed,
    /// The evaluator denied or could not evaluate; nothing changed.
    Rejected,
    /// A remote read failed; nothing changed.
    Failed,
}

/// A transition request that passed the ownership gate and waits for the
/// two remote reads: the catalog metadata of `inventory_id` and the asset
/// snapshot of `asset_id`.
pub struct TransitionRequest {
    pub phase: TransitionPhase,
    pub token_id: TokenId,
    pub predecessor_id: AccountId,
    pub new_license_id: String,
    pub inventory_id: String,
    pub asset_id: AssetId,
}

/// How a joined transition ended.
pub enum TransitionOutcome {
    /// The verdict allowed: the license is replaced and the event is to
    /// be emitted.
    Committed(EventLog),
    /// The verdict denied or evaluation could not proceed; the reason is
    /// surfaced to the caller.
    Rejected(String),
    /// A remote read failed.
    Failed,
}

/// Whether the active license stored under `key` blocks a grant with the
/// given exclusivity: it does when its terms are exclusive, when the new
/// grant is exclusive, or when its terms cannot be read.
pub open spec fn spec_key_license_blocks(c: Contract, key: Seq<char>, new_exclusive: bool) -> bool {
    if c.token_license_by_id@.contains_key(key) {
        match c.token_license_by_id@[key].metadata {
            Some(m) => match parse_license_data(m@) {
                Some(d) => d.exclusivity || new_exclusive,
                None => true,
            },
            None => true,
        }
    } else {
        false
    }
}

/// Whether the active license stored under `key` carries terms that
/// cannot be decoded.
pub open spec fn spec_key_license_malformed(c: Contract, key: Seq<char>) -> bool {
    c.token_license_by_id@.contains_key(key) && (match c.token_license_by_id@[key].metadata {
        Some(m) => parse_license_data(m@) is None,
        None => true,
    })
}

/// The composed view of a stored token blocks exactly when its stored
/// license does.
pub proof fn lemma_composed_blocks(
    c: Contract,
    key: Seq<char>,
    t: Token,
    j: LicenseToken,
    new_exclusive: bool,
)
    requires
        spec_json_token(c, key, t, j),
    ensures
        spec_token_blocks(j, new_exclusive) == spec_key_license_blocks(c, key, new_exclusive),
        (j.license is Some && spec_license_terms(j) is None) == spec_key_license_malformed(c, key),
{
}

/// The stored entries whose token sits on the given asset, in storage
/// order.
pub open spec fn spec_asset_entries(kvs: Seq<(String, Token)>, asset: Seq<char>) -> Seq<
    (String, Token),
>
    decreases kvs.len(),
{
    if kvs.len() == 0 {
        Seq::empty()
    } else {
        let rest = spec_asset_entries(kvs.drop_last(), asset);
        if kvs.last().1.asset_id@ == asset {
            rest.push(kvs.last())
        } else {
            rest
        }
    }
}

/// Filtering by an asset filter is filtering by the asset.
pub proof fn lemma_asset_filter_eq(kvs: Seq<(String, Token)>, f: FilterOpt, asset: Seq<char>)
    requires
        f.asset_id is Some,
        f.asset_id->0@ == asset,
        f.account_id is None,
    ensures
        spec_filtered(kvs, Some(f)) == spec_asset_entries(kvs, asset),
    decreases kvs.len(),
{
    if kvs.len() == 0 {
    } else {
        lemma_asset_filter_eq(kvs.drop_last(), f, asset);
    }
}

/// The issued-license page the aggregator reads for an asset: the tokens
/// on the asset in storage order, up to the server-side page size of
/// fifty.
pub open spec fn spec_issued_page(c: Contract, asset: Seq<char>) -> Seq<(String, Token)> {
    let entries = spec_asset_entries(c.tokens_by_id.kvs(), asset);
    entries.take(
        if entries.len() > 50 {
            50 as int
        } else {
            entries.len() as int
        },
    )
}

/// Whether, on the issued page of the asset, some token other than `cur`
/// blocks a grant with the given exclusivity.
pub open spec fn spec_page_conflict(
    c: Contract,
    asset: Seq<char>,
    cur: Seq<char>,
    new_exclusive: bool,
) -> bool {
    exists|i: int|
        0 <= i < spec_issued_page(c, asset).len() && (#[trigger] spec_issued_page(c, asset)[i].0)@
            != cur && spec_key_license_blocks(c, spec_issued_page(c, asset)[i].0@, new_exclusive)
}

/// Whether, on the issued page of the asset, some token other than `cur`
/// carries undecodable license terms.
pub open spec fn spec_page_malformed(c: Contract, asset: Seq<char>, cur: Seq<char>) -> bool {
    exists|i: int|
        0 <= i < spec_issued_page(c, asset).len() && (#[trigger] spec_issued_page(c, asset)[i].0)@
            != cur && spec_key_license_malformed(c, spec_issued_page(c, asset)[i].0@)
}

/// A composed issued page agrees with the store on conflicts and on
/// malformed terms.
pub proof fn lemma_page_bridge(c: Contract, asset: Seq<char>, issued: Seq<LicenseToken>, cur: Seq<
    char,
>, new_exclusive: bool)
    requires
        issued.len() == spec_issued_page(c, asset).len(),
        forall|k: int|
            0 <= k < issued.len() ==> spec_json_token(
                c,
                spec_issued_page(c, asset)[k].0@,
                spec_issued_page(c, asset)[k].1,
                #[trigger] issued[k],
            ),
    ensures
        spec_conflicting_token(issued, cur, new_exclusive) == spec_page_conflict(
            c,
            asset,
            cur,
            new_exclusive,
        ),
        spec_has_malformed(issued, cur) == spec_page_malformed(c, asset, cur),
{
    let page = spec_issued_page(c, asset);
    assert forall|k: int| 0 <= k < issued.len() implies (issued[k].token_id@ == page[k].0@
        && spec_token_blocks(issued[k], new_exclusive) == spec_key_license_blocks(
        c,
        page[k].0@,
        new_exclusive,
    ) && (issued[k].license is Some && spec_license_terms(issued[k]) is None)
        == spec_key_license_malformed(c, page[k].0@)) by {
        lemma_composed_blocks(c, page[k].0@, page[k].1, issued[k], new_exclusive);
    }
    if spec_conflicting_token(issued, cur, new_exclusive) {
        let i = choose|i: int|
            0 <= i < issued.len() && (#[trigger] issued[i].token_id)@ != cur && spec_token_blocks(
                issued[i],
                new_exclusive,
            );
        assert(page[i].0@ != cur && spec_key_license_blocks(c, page[i].0@, new_exclusive));
    }
    if spec_page_conflict(c, asset, cur, new_exclusive) {
        let i = choose|i: int|
            0 <= i < page.len() && (#[trigger] page[i].0)@ != cur && spec_key_license_blocks(
                c,
                page[i].0@,
                new_exclusive,
            );
        assert(issued[i].token_id@ != cur && spec_token_blocks(issued[i], new_exclusive));
    }
    if spec_has_malformed(issued, cur) {
        let i = choose|i: int|
            0 <= i < issued.len() && (#[trigger] issued[i].token_id)@ != cur && issued[i].license
                is Some && spec_license_terms(issued[i]) is None;
        assert(page[i].0@ != cur && spec_key_license_malformed(c, page[i].0@));
    }
    if spec_page_malformed(c, asset, cur) {
        let i = choose|i: int|
            0 <= i < page.len() && (#[trigger] page[i].0)@ != cur && spec_key_license_malformed(
                c,
                page[i].0@,
            );
        assert(issued[i].token_id@ != cur && issued[i].license is Some && spec_license_terms(
            issued[i],
        ) is None);
    }
}

/// Self-exclusion at the store: when every issued-page entry of the
/// asset either is the transitioning token itself or stores no active
/// license, nothing on the page conflicts with the transition and no
/// terms are malformed — so a transition whose two reads resolved and
/// whose requested license is offered and encodable is owed its commit.
pub proof fn lemma_page_self_exclusion(
    c: Contract,
    asset: Seq<char>,
    cur: Seq<char>,
    new_exclusive: bool,
)
    requires
        forall|i: int|
            0 <= i < spec_issued_page(c, asset).len() ==> ((#[trigger] spec_issued_page(
                c,
                asset,
            )[i].0)@ == cur || !c.token_license_by_id@.contains_key(
                spec_issued_page(c, asset)[i].0@,
            )),
    ensures
        !spec_page_conflict(c, asset, cur, new_exclusive),
        !spec_page_malformed(c, asset, cur),
{
}

/// How a transition can abort before the commit point.
pub enum TransitionAbort {
    /// A remote read failed: the request aborts unevaluated.
    Failed,
    /// Evaluation rejected the transition; the reason is surfaced.
    Rejected(String),
}

impl Contract {
    /// Opens a license transition: checks that the caller owns the token
    /// and that the token carries a readable asset reference, and hands
    /// back the request awaiting the two remote reads against the
    /// reference's inventory.  Nothing is mutated.
    pub fn nft_update_license(
        &self,
        token_id: TokenId,
        new_license_id: String,
        predecessor_id: AccountId,
    ) -> (r: Result<TransitionRequest, LicenseError>)
        requires
            self.wf(),
        ensures
            match r {
                Ok(req) => self.tokens_by_id@.contains_key(token_id@)
                    && self.tokens_by_id@[token_id@].owner_id@ == predecessor_id@
                    && spec_asset_path_triple(self.token_metadata_by_id@[token_id@]) is Some && {
                    let triple = spec_asset_path_triple(self.token_metadata_by_id@[token_id@])->0;
                    &&& req.phase is AwaitingRemote
                    &&& req.token_id == token_id
                    &&& req.predecessor_id == predecessor_id
                    &&& req.new_license_id == new_license_id
                    &&& req.inventory_id@ == triple.0
                    &&& req.asset_id@ == triple.1
                },
                Err(e) => match e {
                    LicenseError::TokenNotFound => !self.tokens_by_id@.contains_key(token_id@),
                    LicenseError::Ownership => self.tokens_by_id@.contains_key(token_id@)
                        && self.tokens_by_id@[token_id@].owner_id@ != predecessor_id@,
                    LicenseError::MalformedReference => self.tokens_by_id@.contains_key(token_id@)
                        && self.tokens_by_id@[token_id@].owner_id@ == predecessor_id@
                        && spec_asset_path_triple(self.token_metadata_by_id@[token_id@]) is None,
                    _ => false,
                },
            },
    {
        let token = match self.tokens_by_id.get(&token_id) {
            Some(t) => t,
            None => {
                return Err(LicenseError::TokenNotFound);
            },
        };
        if !(token.owner_id == predecessor_id) {
            return Err(LicenseError::Ownership);
        }
        let meta = match self.token_metadata_by_id.get(&token_id) {
            Some(m) => m,
            None => {
                proof {
                    assert(self.token_metadata_by_id@.dom().contains(token_id@));
                    assert(false);
                }
                return Err(LicenseError::TokenNotFound);
            },
        };
        let (inventory_id, asset_id, _license_id) = match meta.inventory_asset_license() {
            Some(t) => t,
            None => {
                return Err(LicenseError::MalformedReference);
            },
        };
        Ok(
            TransitionRequest {
                phase: TransitionPhase::AwaitingRemote,
                token_id,
                predecessor_id,
                new_license_id,
                inventory_id,
                asset_id,
            },
        )
    }

    /// Builds the reconciled snapshot for an asset from the two remote
    /// results: the offered catalog licenses with effective prices, and
    /// the (at most fifty) licenses issued on the asset on this ledger.
    pub fn get_full_inventory(
        &self,
        asset: &JsonAssetToken,
        metadata: &InventoryContractMetadata,
    ) -> (r: FullInventory)
        requires
            self.wf(),
        ensures
            r.inventory_licenses@ == spec_offer_licenses(
                match asset.licenses {
                    Some(v) => v@,
                    None => Seq::<AssetLicense>::empty(),
                },
                metadata.licenses@,
            ),
            ({
                let page = spec_issued_page(*self, asset.token_id@);
                r.issued_licenses@.len() == page.len() && (forall|k: int|
                    0 <= k < page.len() ==> spec_json_token(
                        *self,
                        page[k].0@,
                        page[k].1,
                        #[trigger] r.issued_licenses@[k],
                    ))
            }),
    {
        let empty_offers: Vec<AssetLicense> = Vec::new();
        let offers: &Vec<AssetLicense> = match &asset.licenses {
            Some(v) => v,
            None => &empty_offers,
        };
        let filter = FilterOpt { asset_id: Some(asset.token_id.clone()), account_id: None };
        let issued = self.nft_tokens(None, Some(50), Some(filter));
        proof {
            let kvs = self.tokens_by_id.kvs();
            let entries = spec_asset_entries(kvs, asset.token_id@);
            lemma_asset_filter_eq(
                kvs,
                FilterOpt { asset_id: Some(asset.token_id), account_id: None },
                asset.token_id@,
            );
            let page = spec_issued_page(*self, asset.token_id@);
            assert(issued@.len() == page.len());
            assert forall|k: int| 0 <= k < page.len() implies spec_json_token(
                *self,
                page[k].0@,
                page[k].1,
                #[trigger] issued@[k],
            ) by {
                assert(page[k] == entries[k]);
            }
        }
        build_full_inventory(offers, &metadata.licenses, issued)
    }
}

} // verus!

verus! {

impl Contract {
    /// Joins the two remote results and decides the transition, building
    /// the license record that a commit would store.  Aborts `Failed`
    /// exactly when a remote read failed; aborts `Rejected` with a reason
    /// when the token is unknown, the requested license is not in the
    /// catalog or not offered for the asset, issued license terms cannot
    /// be decoded, the verdict denies, or the new terms cannot be
    /// encoded.  Nothing is mutated.
    pub fn ensure_update_license(
        &self,
        metadata_res: Result<InventoryContractMetadata, RemoteError>,
        asset_res: Result<JsonAssetToken, RemoteError>,
        token_id: TokenId,
        new_license_id: String,
        issuer_id: AccountId,
        now_ms: u64,
    ) -> (r: Result<TokenLicense, TransitionAbort>)
        requires
            self.wf(),
        ensures
            match r {
                Ok(lic) => metadata_res is Ok && asset_res is Ok && {
                    let catalog = metadata_res->Ok_0.licenses;
                    let asset = asset_res->Ok_0;
                    &&& self.tokens_by_id@.contains_key(token_id@)
                    &&& spec_find_by_id(catalog@, new_license_id@) is Some
                    &&& {
                        let found = spec_find_by_id(catalog@, new_license_id@)->0;
                        &&& spec_known_license(
                            spec_offer_licenses(
                                match asset.licenses {
                                    Some(v) => v@,
                                    None => Seq::<AssetLicense>::empty(),
                                },
                                catalog@,
                            ),
                            new_license_id@,
                        )
                        &&& !spec_page_malformed(*self, asset.token_id@, token_id@)
                        &&& !spec_page_conflict(
                            *self,
                            asset.token_id@,
                            token_id@,
                            found.license.exclusivity,
                        )
                        &&& license_data_clean(found.license@)
                        &&& lic.title == Some(found.title)
                        &&& lic.metadata is Some
                        &&& lic.metadata->0@ == license_data_json(found.license@)
                        &&& lic.issuer_id == Some(issuer_id)
                        &&& lic.uri == found.license.pdf_url
                        &&& lic.issued_at == Some(now_ms)
                        &&& lic.starts_at == Some(now_ms)
                        &&& lic.description is None
                        &&& lic.expires_at is None
                        &&& lic.updated_at is None
                        &&& lic.reference is None
                        &&& lic.reference_hash is None
                    }
                },
                Err(a) => match a {
                    TransitionAbort::Failed => metadata_res is Err || asset_res is Err,
                    TransitionAbort::Rejected(re) => metadata_res is Ok && asset_res is Ok
                        && re@.len() > 0 && ({
                        let catalog = metadata_res->Ok_0.licenses;
                        let asset = asset_res->Ok_0;
                        let found = spec_find_by_id(catalog@, new_license_id@);
                        let known = spec_known_license(
                            spec_offer_licenses(
                                match asset.licenses {
                                    Some(v) => v@,
                                    None => Seq::<AssetLicense>::empty(),
                                },
                                catalog@,
                            ),
                            new_license_id@,
                        );
                        &&& (!self.tokens_by_id@.contains_key(token_id@) || found is None || !known
                            || spec_page_malformed(*self, asset.token_id@, token_id@)
                            || spec_page_conflict(
                            *self,
                            asset.token_id@,
                            token_id@,
                            found->0.license.exclusivity,
                        ) || !license_data_clean(found->0.license@))
                        &&& (self.tokens_by_id@.contains_key(token_id@) && found is Some && known
                            && !spec_page_malformed(*self, asset.token_id@, token_id@)
                            && spec_page_conflict(
                            *self,
                            asset.token_id@,
                            token_id@,
                            found->0.license.exclusivity,
                        ) ==> re@ == "license blocked by an exclusivity conflict on this asset"@)
                    }),
                },
            },
    {
        proof {
            reveal_strlit("no token with this identifier");
            reveal_strlit("the requested license is not in the catalog");
            reveal_strlit("the requested license is not offered for this asset");
            reveal_strlit("an issued license carries unreadable terms");
            reveal_strlit("the new license terms cannot be encoded");
            reveal_strlit("license blocked by an exclusivity conflict on this asset");
        }
        let metadata = match metadata_res {
            Ok(m) => m,
            Err(_) => {
                return Err(TransitionAbort::Failed);
            },
        };
        let asset = match asset_res {
            Ok(a) => a,
            Err(_) => {
                return Err(TransitionAbort::Failed);
            },
        };
        let token_rec = match self.tokens_by_id.get(&token_id) {
            Some(t) => t,
            None => {
                return Err(TransitionAbort::Rejected("no token with this identifier".to_owned()));
            },
        };
        let current = self.compose_token(&token_id, token_rec);
        let full_inventory = self.get_full_inventory(&asset, &metadata);
        let found = match find_by_id(&metadata.licenses, &new_license_id) {
            Some(f) => f,
            None => {
                return Err(
                    TransitionAbort::Rejected(
                        "the requested license is not in the catalog".to_owned(),
                    ),
                );
            },
        };
        proof {
            crate::aggregate::lemma_find_by_id_id(metadata.licenses@, new_license_id@);
            lemma_page_bridge(
                *self,
                asset.token_id@,
                full_inventory.issued_licenses@,
                token_id@,
                found.license.exclusivity,
            );
        }
        match check_transition(&full_inventory, &current, found) {
            Err(PolicyError::UnknownLicense) => {
                return Err(
                    TransitionAbort::Rejected(
                        "the requested license is not offered for this asset".to_owned(),
                    ),
                );
            },
            Err(PolicyError::MalformedLicenseData) => {
                return Err(
                    TransitionAbort::Rejected(
                        "an issued license carries unreadable terms".to_owned(),
                    ),
                );
            },
            Ok(v) => {
                if !v.allowed {
                    let reason = match v.reason {
                        Some(re) => re,
                        None => {
                            proof {
                                assert(false);
                            }
                            String::new()
                        },
                    };
                    return Err(TransitionAbort::Rejected(reason));
                }
            },
        }
        let meta_json = match license_data_to_json(&found.license) {
            Some(m) => m,
            None => {
                return Err(
                    TransitionAbort::Rejected("the new license terms cannot be encoded".to_owned()),
                );
            },
        };
        Ok(
            TokenLicense {
                title: Some(found.title.clone()),
                description: None,
                issuer_id: Some(issuer_id),
                uri: crate::types::clone_opt_string(&found.license.pdf_url),
                metadata: Some(meta_json),
                issued_at: Some(now_ms),
                expires_at: None,
                starts_at: Some(now_ms),
                updated_at: None,
                reference: None,
                reference_hash: None,
            },
        )
    }

    /// The continuation of a license update once both remote reads have
    /// resolved: on joint success and an allowing verdict the active
    /// license is replaced atomically and the event to emit is returned;
    /// on any failure or denial the ledger is untouched and no event
    /// exists.  The caller reconciles the storage deposit afterwards
    /// whatever the outcome.
    pub fn on_license_update(
        &mut self,
        metadata_res: Result<InventoryContractMetadata, RemoteError>,
        asset_res: Result<JsonAssetToken, RemoteError>,
        token_id: TokenId,
        predecessor_id: AccountId,
        new_license_id: String,
        issuer_id: AccountId,
        now_ms: u64,
    ) -> (outcome: TransitionOutcome)
        requires
            old(self).wf(),
        ensures
            final(self).wf(),
            match outcome {
                TransitionOutcome::Failed => (metadata_res is Err || asset_res is Err) && *final(self) == *old(self),
                TransitionOutcome::Rejected(re) => metadata_res is Ok && asset_res is Ok && *final(self) == *old(self) && re@.len() > 0 && ({
                    let catalog = metadata_res->Ok_0.licenses;
                    let asset = asset_res->Ok_0;
                    let found = spec_find_by_id(catalog@, new_license_id@);
                    let known = spec_known_license(
                        spec_offer_licenses(
                            match asset.licenses {
                                Some(v) => v@,
                                None => Seq::<AssetLicense>::empty(),
                            },
                            catalog@,
                        ),
                        new_license_id@,
                    );
                    &&& (!old(self).tokens_by_id@.contains_key(token_id@) || found is None
                        || !known || spec_page_malformed(*old(self), asset.token_id@, token_id@)
                        || spec_page_conflict(
                        *old(self),
                        asset.token_id@,
                        token_id@,
                        found->0.license.exclusivity,
                    ) || !license_data_clean(found->0.license@))
                    &&& (old(self).tokens_by_id@.contains_key(token_id@) && found is Some && known
                        && !spec_page_malformed(*old(self), asset.token_id@, token_id@)
                        && spec_page_conflict(
                        *old(self),
                        asset.token_id@,
                        token_id@,
                        found->0.license.exclusivity,
                    ) ==> re@ == "license blocked by an exclusivity conflict on this asset"@)
                }),
                TransitionOutcome::Committed(e) => metadata_res is Ok && asset_res is Ok && old(self).tokens_by_id@.contains_key(token_id@) && {
                    let catalog = metadata_res->Ok_0.licenses;
                    let asset = asset_res->Ok_0;
                    let found = spec_find_by_id(catalog@, new_license_id@);
                    &&& found is Some
                    &&& !spec_page_conflict(
                        *old(self),
                        asset.token_id@,
                        token_id@,
                        found->0.license.exclusivity,
                    )
                    &&& !spec_page_malformed(*old(self), asset.token_id@, token_id@)
                    &&& final(self).token_license_by_id@.contains_key(token_id@)
                    &&& {
                        let lic = final(self).token_license_by_id@[token_id@];
                        &&& lic.title == Some(found->0.title)
                        &&& lic.metadata is Some
                        &&& lic.metadata->0@ == license_data_json(found->0.license@)
                        &&& lic.issuer_id == Some(issuer_id)
                        &&& lic.issued_at == Some(now_ms)
                        &&& lic.starts_at == Some(now_ms)
                        &&& final(self).token_license_by_id@ == old(self).token_license_by_id@.insert(token_id@, lic)
                    }
                    &&& final(self).token_proposed_license_by_id == old(self).token_proposed_license_by_id
                    &&& Contract::same_tokens(*old(self), *final(self))
                    &&& spec_event(
                        e,
                        EventKind::Replaced,
                        old(self).tokens_by_id@[token_id@].owner_id@,
                        token_id@,
                    )
                },
            },
    {
        let lic = match self.ensure_update_license(
            metadata_res,
            asset_res,
            token_id.clone(),
            new_license_id,
            issuer_id,
            now_ms,
        ) {
            Ok(lic) => lic,
            Err(TransitionAbort::Failed) => {
                return TransitionOutcome::Failed;
            },
            Err(TransitionAbort::Rejected(reason)) => {
                return TransitionOutcome::Rejected(reason);
            },
        };
        let owner = match self.tokens_by_id.get(&token_id) {
            Some(t) => t.owner_id.clone(),
            None => {
                proof {
                    assert(false);
                }
                String::new()
            },
        };
        self.internal_replace_license(&predecessor_id, &token_id, &lic);
        TransitionOutcome::Committed(EventLog::new(EventKind::Replaced, owner, token_id, None))
    }
}

} // verus!
