//! The license state store and the license lifecycle endpoints of the
//! token ledger.
//!
//! Per token the store keeps at most one active and at most one proposed
//! license: both live in maps keyed by token id, so the bound holds by
//! construction.  Proposing replaces any staged proposal; approving moves
//! the proposal into the active slot atomically; rejecting discards the
//! proposal and never touches the active license.

use vstd::prelude::*;

use crate::events::EventKind;
use crate::events::EventLog;
use crate::events::spec_event;
use crate::strmap::StrMap;
use crate::types::AccountId;
use crate::types::AssetId;
use crate::types::JsonTokenLicense;
use crate::types::LicenseToken;
use crate::types::NFTContractMetadata;
use crate::types::Token;
use crate::types::TokenId;
use crate::types::TokenLicense;
use crate::types::TokenMetadata;

verus! {

/// Why a license operation was refused.  Every refusal leaves the store
/// untouched.
#[derive(Debug)]
pub enum LicenseError {
    /// The token does not exist on the ledger.
    TokenNotFound,
    /// A token with this identifier is already minted.
    TokenAlreadyExists,
    /// The caller is not the token's owner.
    Ownership,
    /// Approve or reject was called with nothing staged.
    NoProposal,
    /// The requested license is not offered for the asset.
    UnknownLicense,
    /// Catalog or license data could not be decoded during evaluation.
    Policy,
    /// A remote read failed; the whole transition aborts.
    Remote,
    /// The token's asset reference could not be parsed.
    MalformedReference,
    /// The attached deposit does not cover the storage used.
    StorageFunding,
}

impl LicenseError {
    /// A short human-readable description.
    pub fn message(&self) -> (r: &'static str)
        ensures
            r@.len() > 0,
    {
        let r = match self {
            LicenseError::TokenNotFound => "no token with this identifier",
            LicenseError::TokenAlreadyExists => "a token with this identifier already exists",
            LicenseError::Ownership => "only the token owner may do this",
            LicenseError::NoProposal => "no proposed license is staged for this token",
            LicenseError::UnknownLicense => "the requested license is not offered for this asset",
            LicenseError::Policy => "license data could not be decoded",
            LicenseError::Remote => "a remote read failed",
            LicenseError::MalformedReference => "the token carries no readable asset reference",
            LicenseError::StorageFunding => "the attached deposit does not cover storage",
        };
        proof {
            reveal_strlit("no token with this identifier");
            reveal_strlit("a token with this identifier already exists");
            reveal_strlit("only the token owner may do this");
            reveal_strlit("no proposed license is staged for this token");
            reveal_strlit("the requested license is not offered for this asset");
            reveal_strlit("license data could not be decoded");
            reveal_strlit("a remote read failed");
            reveal_strlit("the token carries no readable asset reference");
            reveal_strlit("the attached deposit does not cover storage");
        }
        r
    }
}

/// Filters for the token enumeration endpoint.
pub struct FilterOpt {
    pub asset_id: Option<AssetId>,
    pub account_id: Option<AccountId>,
}

/// The license-bearing token ledger.
pub struct Contract {
    pub owner_id: AccountId,
    pub metadata: NFTContractMetadata,
    pub tokens_by_id: StrMap<Token>,
    pub token_metadata_by_id: StrMap<TokenMetadata>,
    pub token_license_by_id: StrMap<TokenLicense>,
    pub token_proposed_license_by_id: StrMap<TokenLicense>,
}

impl Contract {
    /// The store's invariant: the maps are well formed, and every minted
    /// token has metadata (and conversely).
    pub open spec fn wf(&self) -> bool {
        &&& self.tokens_by_id.wf()
        &&& self.token_metadata_by_id.wf()
        &&& self.token_license_by_id.wf()
        &&& self.token_proposed_license_by_id.wf()
        &&& self.token_metadata_by_id@.dom() == self.tokens_by_id@.dom()
    }

    /// Everything but the two license maps is unchanged.
    pub open spec fn same_tokens(pre: Contract, post: Contract) -> bool {
        &&& post.owner_id == pre.owner_id
        &&& post.metadata == pre.metadata
        &&& post.tokens_by_id == pre.tokens_by_id
        &&& post.token_metadata_by_id == pre.token_metadata_by_id
    }

    /// A fresh ledger with default contract metadata and no tokens.
    pub fn new_default_meta(owner_id: AccountId) -> (r: Contract)
        ensures
            r.wf(),
            r.owner_id == owner_id,
            r.tokens_by_id@ == Map::<Seq<char>, Token>::empty(),
            r.token_metadata_by_id@ == Map::<Seq<char>, TokenMetadata>::empty(),
            r.token_license_by_id@ == Map::<Seq<char>, TokenLicense>::empty(),
            r.token_proposed_license_by_id@ == Map::<Seq<char>, TokenLicense>::empty(),
    {
        let r = Contract {
            owner_id,
            metadata: NFTContractMetadata {
                spec: "nft-1.0.0".to_owned(),
                name: "license ledger".to_owned(),
                symbol: "LICENSE".to_owned(),
                icon: None,
                base_uri: None,
                reference: None,
                reference_hash: None,
            },
            tokens_by_id: StrMap::new(),
            token_metadata_by_id: StrMap::new(),
            token_license_by_id: StrMap::new(),
            token_proposed_license_by_id: StrMap::new(),
        };
        proof {
            assert(r.token_metadata_by_id@.dom() =~= r.tokens_by_id@.dom());
        }
        r
    }

    /// Mints a token for `receiver_id`, optionally with an active and a
    /// proposed license already attached.  Refuses an identifier that is
    /// already minted, leaving the ledger unchanged.
    pub fn nft_mint(
        &mut self,
        token_id: TokenId,
        asset_id: AssetId,
        metadata: TokenMetadata,
        receiver_id: AccountId,
        license: Option<TokenLicense>,
        proposed_license: Option<TokenLicense>,
    ) -> (r: Result<LicenseToken, LicenseError>)
        requires
            old(self).wf(),
        ensures
            final(self).wf(),
            match r {
                Ok(j) => !old(self).tokens_by_id@.contains_key(token_id@) && final(self).tokens_by_id@.contains_key(token_id@) && j.token_id == token_id && j.owner_id == receiver_id && j.asset_id == asset_id && j.metadata == metadata && j.license == license && j.approved_account_ids@ == Seq::<(AccountId, u64)>::empty() && j.royalty@ == Seq::<(AccountId, u32)>::empty() && {
                    let t = final(self).tokens_by_id@[token_id@];
                    &&& t.token_id@ == token_id@
                    &&& t.owner_id == receiver_id
                    &&& t.asset_id == asset_id
                    &&& final(self).token_metadata_by_id@ == old(self).token_metadata_by_id@.insert(token_id@, metadata)
                    &&& final(self).tokens_by_id@.dom() == old(self).tokens_by_id@.dom().insert(
                        token_id@,
                    )
                    &&& final(self).token_license_by_id@ == (match license {
                        Some(l) => old(self).token_license_by_id@.insert(token_id@, l),
                        None => old(self).token_license_by_id@,
                    })
                    &&& final(self).token_proposed_license_by_id@ == (match proposed_license {
                        Some(l) => old(self).token_proposed_license_by_id@.insert(token_id@, l),
                        None => old(self).token_proposed_license_by_id@,
                    })
                    &&& final(self).owner_id == old(self).owner_id
                },
                Err(e) => e is TokenAlreadyExists && old(self).tokens_by_id@.contains_key(token_id@)
                    && *final(self) == *old(self),
            },
    {
        if self.tokens_by_id.contains_key(&token_id) {
            return Err(LicenseError::TokenAlreadyExists);
        }
        let token = Token {
            token_id: token_id.clone(),
            owner_id: receiver_id.clone(),
            asset_id: asset_id.clone(),
            approved_account_ids: Vec::new(),
            next_approval_id: 0,
            royalty: Vec::new(),
        };
        let json = LicenseToken {
            token_id: token_id.clone(),
            owner_id: receiver_id,
            asset_id,
            metadata: metadata.clone(),
            license: match &license {
                Some(l) => Some(l.clone()),
                None => None,
            },
            approved_account_ids: Vec::new(),
            royalty: Vec::new(),
        };
        self.tokens_by_id.insert(token_id.clone(), token);
        self.token_metadata_by_id.insert(token_id.clone(), metadata);
        match license {
            Some(l) => {
                self.token_license_by_id.insert(token_id.clone(), l);
            },
            None => {},
        }
        match proposed_license {
            Some(l) => {
                self.token_proposed_license_by_id.insert(token_id.clone(), l);
            },
            None => {},
        }
        proof {
            assert(self.token_metadata_by_id@.dom() =~= self.tokens_by_id@.dom());
        }
        Ok(json)
    }

    /// Stages a license proposal for the token, unconditionally replacing
    /// any prior proposal.  The caller must already have checked that the
    /// ownership gate holds; this store-level operation does not.
    pub fn internal_propose_license(
        &mut self,
        account_id: &AccountId,
        token_id: &TokenId,
        proposed_license: &TokenLicense,
    )
        requires
            old(self).wf(),
        ensures
            final(self).wf(),
            final(self).token_proposed_license_by_id@ == old(self).token_proposed_license_by_id@.insert(token_id@, *proposed_license),
            final(self).token_license_by_id == old(self).token_license_by_id,
            Contract::same_tokens(*old(self), *final(self)),
    {
        let _ = account_id;
        self.token_proposed_license_by_id.insert(token_id.clone(), proposed_license.clone());
    }

    /// Promotes the staged proposal to the active license, clearing the
    /// proposal slot; fails, changing nothing, when nothing is staged.
    /// The ownership gate is the caller's.
    pub fn internal_update_license(&mut self, account_id: &AccountId, token_id: &TokenId) -> (r:
        Result<(), LicenseError>)
        requires
            old(self).wf(),
        ensures
            final(self).wf(),
            match r {
                Ok(_) => old(self).token_proposed_license_by_id@.contains_key(token_id@) && final(self).token_proposed_license_by_id@ == old(self).token_proposed_license_by_id@.remove(
                    token_id@,
                ) && final(self).token_license_by_id@ == old(self).token_license_by_id@.insert(
                    token_id@,
                    old(self).token_proposed_license_by_id@[token_id@],
                ) && Contract::same_tokens(*old(self), *final(self)),
                Err(e) => e is NoProposal && !old(self).token_proposed_license_by_id@.contains_key(
                    token_id@,
                ) && *final(self) == *old(self),
            },
    {
        let _ = account_id;
        match self.token_proposed_license_by_id.take(token_id) {
            Some(proposed) => {
                self.token_license_by_id.insert(token_id.clone(), proposed);
                Ok(())
            },
            None => Err(LicenseError::NoProposal),
        }
    }

    /// Discards the staged proposal, leaving the active license as it
    /// was; fails, changing nothing, when nothing is staged.  The
    /// ownership gate is the caller's.
    pub fn internal_reject_license(&mut self, account_id: &AccountId, token_id: &TokenId) -> (r:
        Result<(), LicenseError>)
        requires
            old(self).wf(),
        ensures
            final(self).wf(),
            match r {
                Ok(_) => old(self).token_proposed_license_by_id@.contains_key(token_id@) && final(self).token_proposed_license_by_id@ == old(self).token_proposed_license_by_id@.remove(
                    token_id@,
                ) && final(self).token_license_by_id == old(self).token_license_by_id
                    && Contract::same_tokens(*old(self), *final(self)),
                Err(e) => e is NoProposal && !old(self).token_proposed_license_by_id@.contains_key(
                    token_id@,
                ) && *final(self) == *old(self),
            },
    {
        let _ = account_id;
        match self.token_proposed_license_by_id.take(token_id) {
            Some(_proposed) => Ok(()),
            None => Err(LicenseError::NoProposal),
        }
    }

    /// Overwrites the active license unconditionally; used once a
    /// transition has been validated remotely.  The ownership gate is the
    /// caller's.
    pub fn internal_replace_license(
        &mut self,
        account_id: &AccountId,
        token_id: &TokenId,
        license: &TokenLicense,
    )
        requires
            old(self).wf(),
        ensures
            final(self).wf(),
            final(self).token_license_by_id@ == old(self).token_license_by_id@.insert(
                token_id@,
                *license,
            ),
            final(self).token_proposed_license_by_id == old(self).token_proposed_license_by_id,
            Contract::same_tokens(*old(self), *final(self)),
    {
        let _ = account_id;
        self.token_license_by_id.insert(token_id.clone(), license.clone());
    }

    /// The token's active license, when the token exists and carries one.
    pub fn nft_license(&self, token_id: TokenId) -> (r: Option<JsonTokenLicense>)
        requires
            self.wf(),
        ensures
            match r {
                Some(j) => self.tokens_by_id@.contains_key(token_id@)
                    && self.token_license_by_id@.contains_key(token_id@) && j.token_id == token_id
                    && j.owner_id == self.tokens_by_id@[token_id@].owner_id && j.license
                    == self.token_license_by_id@[token_id@],
                None => !(self.tokens_by_id@.contains_key(token_id@)
                    && self.token_license_by_id@.contains_key(token_id@)),
            },
    {
        let token = match self.tokens_by_id.get(&token_id) {
            Some(t) => t,
            None => {
                return None;
            },
        };
        let license = match self.token_license_by_id.get(&token_id) {
            Some(l) => l,
            None => {
                return None;
            },
        };
        Some(
            JsonTokenLicense {
                owner_id: token.owner_id.clone(),
                license: license.clone(),
                token_id,
            },
        )
    }

    /// The token's proposed license, when the token exists and one is
    /// staged.
    pub fn nft_proposed_license(&self, token_id: TokenId) -> (r: Option<JsonTokenLicense>)
        requires
            self.wf(),
        ensures
            match r {
                Some(j) => self.tokens_by_id@.contains_key(token_id@)
                    && self.token_proposed_license_by_id@.contains_key(token_id@) && j.token_id
                    == token_id && j.owner_id == self.tokens_by_id@[token_id@].owner_id && j.license
                    == self.token_proposed_license_by_id@[token_id@],
                None => !(self.tokens_by_id@.contains_key(token_id@)
                    && self.token_proposed_license_by_id@.contains_key(token_id@)),
            },
    {
        let token = match self.tokens_by_id.get(&token_id) {
            Some(t) => t,
            None => {
                return None;
            },
        };
        let license = match self.token_proposed_license_by_id.get(&token_id) {
            Some(l) => l,
            None => {
                return None;
            },
        };
        Some(
            JsonTokenLicense {
                owner_id: token.owner_id.clone(),
                license: license.clone(),
                token_id,
            },
        )
    }
}

} // verus!

verus! {

impl Contract {
    /// Stages a license proposal for an existing token.  The caller must
    /// be the token's owner; on success the returned event reports the
    /// proposal.  Any refusal leaves the ledger unchanged.
    pub fn nft_propose_license(
        &mut self,
        token_id: TokenId,
        proposed_license: TokenLicense,
        predecessor_id: AccountId,
    ) -> (r: Result<EventLog, LicenseError>)
        requires
            old(self).wf(),
        ensures
            final(self).wf(),
            match r {
                Ok(e) => old(self).tokens_by_id@.contains_key(token_id@) && old(self).tokens_by_id@[token_id@].owner_id@ == predecessor_id@ && final(self).token_proposed_license_by_id@ == old(self).token_proposed_license_by_id@.insert(token_id@, proposed_license) && final(self).token_license_by_id == old(self).token_license_by_id && Contract::same_tokens(
                    *old(self),
                    *final(self),
                ) && spec_event(e, EventKind::Proposed, predecessor_id@, token_id@),
                Err(e) => *final(self) == *old(self) && match e {
                    LicenseError::TokenNotFound => !old(self).tokens_by_id@.contains_key(token_id@),
                    LicenseError::Ownership => old(self).tokens_by_id@.contains_key(token_id@)
                        && old(self).tokens_by_id@[token_id@].owner_id@ != predecessor_id@,
                    _ => false,
                },
            },
    {
        let owner = match self.tokens_by_id.get(&token_id) {
            Some(t) => t.owner_id.clone(),
            None => {
                return Err(LicenseError::TokenNotFound);
            },
        };
        if !(owner == predecessor_id) {
            return Err(LicenseError::Ownership);
        }
        self.internal_propose_license(&predecessor_id, &token_id, &proposed_license);
        Ok(EventLog::new(EventKind::Proposed, owner, token_id, None))
    }

    /// Approves the staged proposal of an existing token, promoting it to
    /// the active license.  The caller must be the token's owner.  Any
    /// refusal leaves the ledger unchanged.
    pub fn nft_approve_license(&mut self, token_id: TokenId, predecessor_id: AccountId) -> (r:
        Result<EventLog, LicenseError>)
        requires
            old(self).wf(),
        ensures
            final(self).wf(),
            match r {
                Ok(e) => old(self).tokens_by_id@.contains_key(token_id@) && old(self).tokens_by_id@[token_id@].owner_id@ == predecessor_id@ && old(self).token_proposed_license_by_id@.contains_key(token_id@) && final(self).token_proposed_license_by_id@ == old(self).token_proposed_license_by_id@.remove(
                    token_id@,
                ) && final(self).token_license_by_id@ == old(self).token_license_by_id@.insert(
                    token_id@,
                    old(self).token_proposed_license_by_id@[token_id@],
                ) && Contract::same_tokens(*old(self), *final(self)) && spec_event(
                    e,
                    EventKind::Approved,
                    predecessor_id@,
                    token_id@,
                ),
                Err(e) => *final(self) == *old(self) && match e {
                    LicenseError::TokenNotFound => !old(self).tokens_by_id@.contains_key(token_id@),
                    LicenseError::Ownership => old(self).tokens_by_id@.contains_key(token_id@)
                        && old(self).tokens_by_id@[token_id@].owner_id@ != predecessor_id@,
                    LicenseError::NoProposal => old(self).tokens_by_id@.contains_key(token_id@)
                        && old(self).tokens_by_id@[token_id@].owner_id@ == predecessor_id@ && !old(self).token_proposed_license_by_id@.contains_key(token_id@),
                    _ => false,
                },
            },
    {
        let owner = match self.tokens_by_id.get(&token_id) {
            Some(t) => t.owner_id.clone(),
            None => {
                return Err(LicenseError::TokenNotFound);
            },
        };
        if !(owner == predecessor_id) {
            return Err(LicenseError::Ownership);
        }
        match self.internal_update_license(&predecessor_id, &token_id) {
            Ok(_) => Ok(EventLog::new(EventKind::Approved, owner, token_id, None)),
            Err(e) => Err(e),
        }
    }

    /// Rejects the staged proposal of an existing token, leaving its
    /// active license untouched.  The caller must be the token's owner.
    /// Any refusal leaves the ledger unchanged.
    pub fn nft_reject_license(&mut self, token_id: TokenId, predecessor_id: AccountId) -> (r:
        Result<EventLog, LicenseError>)
        requires
            old(self).wf(),
        ensures
            final(self).wf(),
            match r {
                Ok(e) => old(self).tokens_by_id@.contains_key(token_id@) && old(self).tokens_by_id@[token_id@].owner_id@ == predecessor_id@ && old(self).token_proposed_license_by_id@.contains_key(token_id@) && final(self).token_proposed_license_by_id@ == old(self).token_proposed_license_by_id@.remove(
                    token_id@,
                ) && final(self).token_license_by_id == old(self).token_license_by_id
                    && Contract::same_tokens(*old(self), *final(self)) && spec_event(
                    e,
                    EventKind::Rejected,
                    predecessor_id@,
                    token_id@,
                ),
                Err(e) => *final(self) == *old(self) && match e {
                    LicenseError::TokenNotFound => !old(self).tokens_by_id@.contains_key(token_id@),
                    LicenseError::Ownership => old(self).tokens_by_id@.contains_key(token_id@)
                        && old(self).tokens_by_id@[token_id@].owner_id@ != predecessor_id@,
                    LicenseError::NoProposal => old(self).tokens_by_id@.contains_key(token_id@)
                        && old(self).tokens_by_id@[token_id@].owner_id@ == predecessor_id@ && !old(self).token_proposed_license_by_id@.contains_key(token_id@),
                    _ => false,
                },
            },
    {
        let owner = match self.tokens_by_id.get(&token_id) {
            Some(t) => t.owner_id.clone(),
            None => {
                return Err(LicenseError::TokenNotFound);
            },
        };
        if !(owner == predecessor_id) {
            return Err(LicenseError::Ownership);
        }
        match self.internal_reject_license(&predecessor_id, &token_id) {
            Ok(_) => Ok(EventLog::new(EventKind::Rejected, owner, token_id, None)),
            Err(e) => Err(e),
        }
    }
}

/// Idempotence: staging the same proposal twice leaves the same staged
/// state as staging it once.
pub proof fn lemma_propose_idempotent(
    c0: Contract,
    c1: Contract,
    c2: Contract,
    token_id: TokenId,
    lic: TokenLicense,
)
    requires
        c1.token_proposed_license_by_id@ == c0.token_proposed_license_by_id@.insert(
            token_id@,
            lic,
        ),
        c2.token_proposed_license_by_id@ == c1.token_proposed_license_by_id@.insert(
            token_id@,
            lic,
        ),
    ensures
        c2.token_proposed_license_by_id@ == c1.token_proposed_license_by_id@,
{
    assert(c0.token_proposed_license_by_id@.insert(token_id@, lic).insert(token_id@, lic)
        =~= c0.token_proposed_license_by_id@.insert(token_id@, lic));
}

/// State invariant: in a well-formed store each token id is bound by at
/// most one entry in the active-license map and at most one in the
/// proposed-license map, so a token never carries two active or two
/// proposed licenses, after any sequence of operations (each operation
/// ensures well-formedness again).
pub proof fn lemma_single_license_binding(c: Contract, token_id: TokenId)
    requires
        c.wf(),
    ensures
        forall|i: int, j: int|
            0 <= i < c.token_license_by_id.kvs().len() && 0 <= j
                < c.token_license_by_id.kvs().len() && (#[trigger] c.token_license_by_id.kvs()[i].0)@
                == token_id@ && (#[trigger] c.token_license_by_id.kvs()[j].0)@ == token_id@ ==> i
                == j,
        forall|i: int, j: int|
            0 <= i < c.token_proposed_license_by_id.kvs().len() && 0 <= j
                < c.token_proposed_license_by_id.kvs().len() && (
            #[trigger] c.token_proposed_license_by_id.kvs()[i].0)@ == token_id@ && (
            #[trigger] c.token_proposed_license_by_id.kvs()[j].0)@ == token_id@ ==> i == j,
{
}

} // verus!

verus! {

/// Whether a stored token passes the enumeration filter.
pub open spec fn spec_filter_match(f: Option<FilterOpt>, t: Token) -> bool {
    match f {
        None => true,
        Some(f) => (match f.asset_id {
            Some(a) => t.asset_id@ == a@,
            None => true,
        }) && (match f.account_id {
            Some(a) => t.owner_id@ == a@,
            None => true,
        }),
    }
}

/// The stored entries passing the filter, in storage order.
pub open spec fn spec_filtered(kvs: Seq<(String, Token)>, f: Option<FilterOpt>) -> Seq<
    (String, Token),
>
    decreases kvs.len(),
{
    if kvs.len() == 0 {
        Seq::empty()
    } else {
        let rest = spec_filtered(kvs.drop_last(), f);
        if spec_filter_match(f, kvs.last().1) {
            rest.push(kvs.last())
        } else {
            rest
        }
    }
}

/// Filtering one more entry extends the filtered sequence by it or not.
pub proof fn lemma_filtered_step(kvs: Seq<(String, Token)>, f: Option<FilterOpt>, i: int)
    requires
        0 <= i < kvs.len(),
    ensures
        spec_filtered(kvs.take(i + 1), f) == (if spec_filter_match(f, kvs[i].1) {
            spec_filtered(kvs.take(i), f).push(kvs[i])
        } else {
            spec_filtered(kvs.take(i), f)
        }),
{
    assert(kvs.take(i + 1).drop_last() =~= kvs.take(i));
    assert(kvs.take(i + 1).last() == kvs[i]);
}

/// The composed view the enumeration hands out for a stored token.
pub open spec fn spec_json_token(c: Contract, key: Seq<char>, t: Token, j: LicenseToken) -> bool {
    &&& j.token_id@ == key
    &&& j.owner_id == t.owner_id
    &&& j.asset_id == t.asset_id
    &&& j.metadata == c.token_metadata_by_id@[key]
    &&& j.license == (if c.token_license_by_id@.contains_key(key) {
        Some(c.token_license_by_id@[key])
    } else {
        Option::<TokenLicense>::None
    })
    &&& j.approved_account_ids@ == t.approved_account_ids@
    &&& j.royalty@ == t.royalty@
}

/// The number of entries a page holds out of `flen` filtered entries,
/// starting at `start` with page size `lim`.
pub open spec fn spec_page_len(flen: int, start: int, lim: int) -> int {
    let lo = if start > flen {
        flen
    } else {
        start
    };
    let hi = if lo + lim > flen {
        flen
    } else {
        lo + lim
    };
    hi - lo
}

impl Contract {
    /// Whether a stored token passes the filter.
    fn filter_matches(f: &Option<FilterOpt>, t: &Token) -> (r: bool)
        ensures
            r == spec_filter_match(*f, *t),
    {
        match f {
            None => true,
            Some(f) => {
                let asset_ok = match &f.asset_id {
                    Some(a) => t.asset_id == *a,
                    None => true,
                };
                let account_ok = match &f.account_id {
                    Some(a) => t.owner_id == *a,
                    None => true,
                };
                asset_ok && account_ok
            },
        }
    }

    /// Composes the public view of one stored token.
    pub(crate) fn compose_token(&self, key: &String, t: &Token) -> (j: LicenseToken)
        requires
            self.wf(),
            self.tokens_by_id@.contains_key(key@),
        ensures
            spec_json_token(*self, key@, *t, j),
    {
        let metadata = match self.token_metadata_by_id.get(key) {
            Some(m) => m.clone(),
            None => {
                proof {
                    assert(self.token_metadata_by_id@.dom().contains(key@));
                    assert(false);
                }
                TokenMetadata::empty()
            },
        };
        let license = match self.token_license_by_id.get(key) {
            Some(l) => Some(l.clone()),
            None => None,
        };
        LicenseToken {
            token_id: key.clone(),
            owner_id: t.owner_id.clone(),
            asset_id: t.asset_id.clone(),
            metadata,
            license,
            approved_account_ids: crate::types::clone_pairs_u64(&t.approved_account_ids),
            royalty: crate::types::clone_pairs_u32(&t.royalty),
        }
    }

    /// Enumerates the minted tokens in storage order, keeping those that
    /// pass the filter, skipping `from_index` of them and returning at
    /// most `limit` (capped at the server-side page size of fifty).
    pub fn nft_tokens(
        &self,
        from_index: Option<u128>,
        limit: Option<u64>,
        filter: Option<FilterOpt>,
    ) -> (r: Vec<LicenseToken>)
        requires
            self.wf(),
        ensures
            ({
                let filtered = spec_filtered(self.tokens_by_id.kvs(), filter);
                let start: int = match from_index {
                    Some(x) => x as int,
                    None => 0,
                };
                let lim: int = match limit {
                    Some(l) => if l > 50 {
                        50 as int
                    } else {
                        l as int
                    },
                    None => 50,
                };
                r@.len() == spec_page_len(filtered.len() as int, start, lim) && (forall|k: int|
                    0 <= k < r@.len() ==> spec_json_token(
                        *self,
                        filtered[start + k].0@,
                        filtered[start + k].1,
                        #[trigger] r@[k],
                    ))
            }),
    {
        let ghost kvs = self.tokens_by_id.kvs();
        let start: u128 = match &from_index {
            Some(x) => *x,
            None => 0,
        };
        let lim: u64 = match &limit {
            Some(l) => if *l > 50 {
                50
            } else {
                *l
            },
            None => 50,
        };
        let n = self.tokens_by_id.len();
        let mut r: Vec<LicenseToken> = Vec::new();
        let mut skipped: u128 = 0;
        let mut i: usize = 0;
        while i < n
            invariant
                0 <= i <= n,
                n == kvs.len(),
                kvs == self.tokens_by_id.kvs(),
                self.wf(),
                ({
                    let fi = spec_filtered(kvs.take(i as int), filter);
                    &&& skipped as int == (if fi.len() > start as int {
                        start as int
                    } else {
                        fi.len() as int
                    })
                    &&& r@.len() == spec_page_len(fi.len() as int, start as int, lim as int)
                    &&& (forall|k: int|
                        0 <= k < r@.len() ==> spec_json_token(
                            *self,
                            fi[start as int + k].0@,
                            fi[start as int + k].1,
                            #[trigger] r@[k],
                        ))
                }),
            decreases n - i,
        {
            let key = self.tokens_by_id.key_at(i);
            let tok = self.tokens_by_id.val_at(i);
            proof {
                lemma_filtered_step(kvs, filter, i as int);
                self.tokens_by_id.lemma_index(i as int);
            }
            if Contract::filter_matches(&filter, tok) {
                if skipped < start {
                    skipped = skipped + 1;
                } else if (r.len() as u64) < lim {
                    let j = self.compose_token(key, tok);
                    proof {
                        let fi1 = spec_filtered(kvs.take(i + 1 as int), filter);
                        assert(fi1[start as int + r@.len() as int] == kvs[i as int]);
                    }
                    r.push(j);
                }
            }
            i = i + 1;
        }
        proof {
            assert(kvs.take(n as int) =~= kvs);
        }
        r
    }
}

} // verus!

verus! {

impl Contract {
    /// Stages a license proposal on behalf of an authorized proposer for
    /// `receiver_id`'s token, unconditionally replacing any prior
    /// proposal, and reports the proposal as an event addressed to the
    /// receiver.
    pub fn nft_license_proposal(
        &mut self,
        receiver_id: AccountId,
        token_id: TokenId,
        proposed_license: TokenLicense,
        memo: Option<String>,
        predecessor_id: AccountId,
    ) -> (r: EventLog)
        requires
            old(self).wf(),
        ensures
            final(self).wf(),
            final(self).token_proposed_license_by_id@ == old(self).token_proposed_license_by_id@.insert(token_id@, proposed_license),
            final(self).token_license_by_id == old(self).token_license_by_id,
            Contract::same_tokens(*old(self), *final(self)),
            spec_event(r, EventKind::Proposed, receiver_id@, token_id@),
            r.payload.memo == memo,
    {
        self.internal_propose_license(&predecessor_id, &token_id, &proposed_license);
        EventLog::new(EventKind::Proposed, receiver_id, token_id, memo)
    }

    /// Approves the staged proposal of `owner_id`'s token on the
    /// receiver's behalf: the named owner must hold the token and a
    /// proposal must be staged; any refusal leaves the ledger unchanged.
    pub fn nft_on_license_proposal(
        &mut self,
        token_id: TokenId,
        owner_id: AccountId,
        license_id: u64,
        msg: String,
        predecessor_id: AccountId,
    ) -> (r: Result<EventLog, LicenseError>)
        requires
            old(self).wf(),
        ensures
            final(self).wf(),
            match r {
                Ok(e) => old(self).tokens_by_id@.contains_key(token_id@) && old(self).tokens_by_id@[token_id@].owner_id@ == owner_id@ && old(self).token_proposed_license_by_id@.contains_key(token_id@) && final(self).token_proposed_license_by_id@ == old(self).token_proposed_license_by_id@.remove(
                    token_id@,
                ) && final(self).token_license_by_id@ == old(self).token_license_by_id@.insert(
                    token_id@,
                    old(self).token_proposed_license_by_id@[token_id@],
                ) && Contract::same_tokens(*old(self), *final(self)) && spec_event(
                    e,
                    EventKind::Approved,
                    owner_id@,
                    token_id@,
                ),
                Err(e) => *final(self) == *old(self) && match e {
                    LicenseError::TokenNotFound => !old(self).tokens_by_id@.contains_key(token_id@),
                    LicenseError::Ownership => old(self).tokens_by_id@.contains_key(token_id@)
                        && old(self).tokens_by_id@[token_id@].owner_id@ != owner_id@,
                    LicenseError::NoProposal => old(self).tokens_by_id@.contains_key(token_id@)
                        && old(self).tokens_by_id@[token_id@].owner_id@ == owner_id@ && !old(self).token_proposed_license_by_id@.contains_key(token_id@),
                    _ => false,
                },
            },
    {
        let _ = license_id;
        let _ = msg;
        let holder = match self.tokens_by_id.get(&token_id) {
            Some(t) => t.owner_id.clone(),
            None => {
                return Err(LicenseError::TokenNotFound);
            },
        };
        if !(holder == owner_id) {
            return Err(LicenseError::Ownership);
        }
        match self.internal_update_license(&predecessor_id, &token_id) {
            Ok(_) => Ok(EventLog::new(EventKind::Approved, owner_id, token_id, None)),
            Err(e) => Err(e),
        }
    }
}

/// License granting through a proposal process: the proposer stages a
/// license for a receiver's token, who may then query it.
pub trait NonFungibleTokenLicenseCore {
    /// The implementing ledger's invariant.
    spec fn core_wf(&self) -> bool;

    /// Stages a license proposal for the receiver's token.
    fn nft_license_proposal(
        &mut self,
        receiver_id: AccountId,
        token_id: TokenId,
        proposed_license: TokenLicense,
        memo: Option<String>,
        predecessor_id: AccountId,
    ) -> (r: EventLog)
        requires
            old(self).core_wf(),
        ensures
            final(self).core_wf(),
    ;

    /// The token's active license.
    fn nft_license(&self, token_id: TokenId) -> (r: Option<JsonTokenLicense>)
        requires
            self.core_wf(),
    ;

    /// The token's proposed license.
    fn nft_proposed_license(&self, token_id: TokenId) -> (r: Option<JsonTokenLicense>)
        requires
            self.core_wf(),
    ;
}

/// The receiving side of a license proposal: asked to approve the
/// proposal staged for one of its tokens.
pub trait NonFungibleTokenLicenseProposalReceiver {
    /// The implementing ledger's invariant.
    spec fn recv_wf(&self) -> bool;

    /// Approves the proposal staged for the named owner's token.
    fn nft_on_license_proposal(
        &mut self,
        token_id: TokenId,
        owner_id: AccountId,
        license_id: u64,
        msg: String,
        predecessor_id: AccountId,
    ) -> (r: Result<EventLog, LicenseError>)
        requires
            old(self).recv_wf(),
        ensures
            final(self).recv_wf(),
    ;
}

impl NonFungibleTokenLicenseCore for Contract {
    open spec fn core_wf(&self) -> bool {
        self.wf()
    }

    fn nft_license_proposal(
        &mut self,
        receiver_id: AccountId,
        token_id: TokenId,
        proposed_license: TokenLicense,
        memo: Option<String>,
        predecessor_id: AccountId,
    ) -> (r: EventLog) {
        Contract::nft_license_proposal(
            self,
            receiver_id,
            token_id,
            proposed_license,
            memo,
            predecessor_id,
        )
    }

    fn nft_license(&self, token_id: TokenId) -> (r: Option<JsonTokenLicense>) {
        Contract::nft_license(self, token_id)
    }

    fn nft_proposed_license(&self, token_id: TokenId) -> (r: Option<JsonTokenLicense>) {
        Contract::nft_proposed_license(self, token_id)
    }
}

impl NonFungibleTokenLicenseProposalReceiver for Contract {
    open spec fn recv_wf(&self) -> bool {
        self.wf()
    }

    fn nft_on_license_proposal(
        &mut self,
        token_id: TokenId,
        owner_id: AccountId,
        license_id: u64,
        msg: String,
        predecessor_id: AccountId,
    ) -> (r: Result<EventLog, LicenseError>) {
        Contract::nft_on_license_proposal(
            self,
            token_id,
            owner_id,
            license_id,
            msg,
            predecessor_id,
        )
    }
}

} // verus!
