//! Events emitted at the end of a successful license operation, consumed
//! by off-chain indexers.

use vstd::prelude::*;

use crate::types::AccountId;
use crate::types::TokenId;

verus! {

/// What happened to the token's license.
#[derive(Clone, Copy, PartialEq, Eq, Debug)]
pub enum EventKind {
    Proposed,
    Approved,
    Rejected,
    Replaced,
}

/// Who the event concerns.
pub struct EventPayload {
    pub owner_id: AccountId,
    pub token_ids: Vec<TokenId>,
    pub memo: Option<String>,
}

/// A tagged event record.
pub struct EventLog {
    pub standard: String,
    pub version: String,
    pub event_type: EventKind,
    pub payload: EventPayload,
}

/// An event of the given kind about one token of one owner, under this
/// library's event standard and version.
pub open spec fn spec_event(e: EventLog, k: EventKind, owner: Seq<char>, token: Seq<char>) -> bool {
    e.standard@ == "license-std"@ && e.version@ == "1.0.0"@ && e.event_type == k
        && e.payload.owner_id@ == owner && e.payload.token_ids@.len() == 1
        && e.payload.token_ids@[0]@ == token
}

impl EventLog {
    /// A fresh event about one token.
    pub fn new(event_type: EventKind, owner_id: AccountId, token_id: TokenId, memo: Option<String>)
        -> (r: EventLog)
        ensures
            spec_event(r, event_type, owner_id@, token_id@),
            r.payload.memo == memo,
    {
        let mut token_ids: Vec<TokenId> = Vec::new();
        token_ids.push(token_id);
        EventLog {
            standard: "license-std".to_owned(),
            version: "1.0.0".to_owned(),
            event_type,
            payload: EventPayload { owner_id, token_ids, memo },
        }
    }
}

} // verus!
