//! The policy evaluator: pure decisions over a [`FullInventory`] snapshot.
//!
//! Exclusivity is the one cross-license constraint: an issued exclusive
//! license blocks every further grant on the asset, and a non-exclusive
//! issued license blocks only a new exclusive request.  An issued license
//! whose terms cannot be decoded blocks everything (the evaluator fails
//! closed on malformed data).

use vstd::prelude::*;

use crate::json::license_data_from_json;
use crate::json::parse_license_data;
use crate::types::FullInventory;
use crate::types::InventoryLicense;
use crate::types::InventoryLicenseAvailability;
use crate::types::LicenseDataV;
use crate::types::LicenseToken;

verus! {

/// Why a policy check could not be carried out; distinct from a denial,
/// which is a normal [`Verdict`].
#[derive(Debug)]
pub enum PolicyError {
    /// The requested license is not offered for this asset.
    UnknownLicense,
    /// An issued license carries terms that cannot be decoded.
    MalformedLicenseData,
}

/// The outcome of a policy check: a reason is present exactly when the
/// check denies.
pub struct Verdict {
    pub allowed: bool,
    pub reason: Option<String>,
}

/// The decoded terms of the license a token carries, when it carries one
/// and the terms decode.
pub open spec fn spec_license_terms(t: LicenseToken) -> Option<LicenseDataV> {
    match t.license {
        Some(l) => match l.metadata {
            Some(m) => parse_license_data(m@),
            None => None,
        },
        None => None,
    }
}

/// Whether an issued token blocks granting a license with exclusivity
/// `new_exclusive` on the same asset.  A token without a license blocks
/// nothing; one whose terms cannot be read blocks everything.
pub open spec fn spec_token_blocks(t: LicenseToken, new_exclusive: bool) -> bool {
    match spec_license_terms(t) {
        Some(d) => d.exclusivity || new_exclusive,
        None => t.license is Some,
    }
}

/// Whether a license with exclusivity `new_exclusive` can still be
/// granted given the licenses already issued on the asset.
pub open spec fn spec_available(issued: Seq<LicenseToken>, new_exclusive: bool) -> bool {
    forall|i: int| 0 <= i < issued.len() ==> !spec_token_blocks(#[trigger] issued[i], new_exclusive)
}

/// Whether the catalog slice offers a license with this identifier.
pub open spec fn spec_known_license(catalog: Seq<InventoryLicense>, id: Seq<char>) -> bool {
    exists|i: int| 0 <= i < catalog.len() && (#[trigger] catalog[i].license_id)@ == id
}

/// Whether some issued token other than `cur` blocks a license with
/// exclusivity `new_exclusive`.
pub open spec fn spec_conflicting_token(
    issued: Seq<LicenseToken>,
    cur: Seq<char>,
    new_exclusive: bool,
) -> bool {
    exists|i: int|
        0 <= i < issued.len() && (#[trigger] issued[i].token_id)@ != cur && spec_token_blocks(
            issued[i],
            new_exclusive,
        )
}

/// Whether some issued token other than `cur` carries a license whose
/// terms cannot be decoded.
pub open spec fn spec_has_malformed(issued: Seq<LicenseToken>, cur: Seq<char>) -> bool {
    exists|i: int|
        0 <= i < issued.len() && (#[trigger] issued[i].token_id)@ != cur && issued[i].license
            is Some && spec_license_terms(issued[i]) is None
}

/// No two catalog entries share a license identifier.
pub open spec fn spec_no_duplicate_ids(catalog: Seq<InventoryLicense>) -> bool {
    forall|i: int, j: int|
        0 <= i < j < catalog.len() ==> (#[trigger] catalog[i].license_id)@ != (
        #[trigger] catalog[j].license_id)@
}

/// Whether this issued token blocks a grant with the given exclusivity.
fn token_blocks(t: &LicenseToken, new_exclusive: bool) -> (r: bool)
    ensures
        r == spec_token_blocks(*t, new_exclusive),
{
    match &t.license {
        None => false,
        Some(l) => match &l.metadata {
            None => true,
            Some(m) => match license_data_from_json(m.as_str()) {
                Some(d) => d.exclusivity || new_exclusive,
                None => true,
            },
        },
    }
}

/// Whether a license with the given exclusivity can still be granted.
fn available_for(issued: &Vec<LicenseToken>, new_exclusive: bool) -> (r: bool)
    ensures
        r == spec_available(issued@, new_exclusive),
{
    let n = issued.len();
    let mut i: usize = 0;
    while i < n
        invariant
            0 <= i <= n,
            n == issued@.len(),
            forall|j: int| 0 <= j < i ==> !spec_token_blocks(#[trigger] issued@[j], new_exclusive),
        decreases n - i,
    {
        if token_blocks(&issued[i], new_exclusive) {
            return false;
        }
        i = i + 1;
    }
    true
}

/// Decides, for every catalog license offered on the asset, whether it
/// can still be granted.  The result follows the catalog order, and a
/// reason accompanies exactly the unavailable entries.
pub fn list_available(inventory: &FullInventory) -> (r: Vec<InventoryLicenseAvailability>)
    ensures
        r@.len() == inventory.inventory_licenses@.len(),
        forall|i: int|
            0 <= i < r@.len() ==> {
                let lic = inventory.inventory_licenses@[i];
                let a = #[trigger] r@[i];
                a.inventory_license == lic && a.available == spec_available(
                    inventory.issued_licenses@,
                    lic.license.exclusivity,
                ) && (a.reason_not_available is Some <==> !a.available)
            },
{
    let n = inventory.inventory_licenses.len();
    let mut r: Vec<InventoryLicenseAvailability> = Vec::new();
    let mut i: usize = 0;
    while i < n
        invariant
            0 <= i <= n,
            n == inventory.inventory_licenses@.len(),
            r@.len() == i,
            forall|j: int|
                0 <= j < i ==> {
                    let lic = inventory.inventory_licenses@[j];
                    let a = #[trigger] r@[j];
                    a.inventory_license == lic && a.available == spec_available(
                        inventory.issued_licenses@,
                        lic.license.exclusivity,
                    ) && (a.reason_not_available is Some <==> !a.available)
                },
        decreases n - i,
    {
        let lic = &inventory.inventory_licenses[i];
        let ok = available_for(&inventory.issued_licenses, lic.license.exclusivity);
        let reason: Option<String> = if ok {
            None
        } else {
            Some("license blocked by an exclusivity conflict on this asset".to_owned())
        };
        r.push(
            InventoryLicenseAvailability {
                inventory_license: lic.clone(),
                available: ok,
                reason_not_available: reason,
            },
        );
        i = i + 1;
    }
    r
}

/// Whether the catalog slice offers a license with this identifier.
fn known_license(catalog: &Vec<InventoryLicense>, id: &String) -> (r: bool)
    ensures
        r == spec_known_license(catalog@, id@),
{
    let n = catalog.len();
    let mut i: usize = 0;
    while i < n
        invariant
            0 <= i <= n,
            n == catalog@.len(),
            forall|j: int| 0 <= j < i ==> (#[trigger] catalog@[j].license_id)@ != id@,
        decreases n - i,
    {
        if catalog[i].license_id == *id {
            return true;
        }
        i = i + 1;
    }
    false
}

/// Whether some issued token other than `cur` carries undecodable terms.
fn find_malformed(issued: &Vec<LicenseToken>, cur: &String) -> (r: bool)
    ensures
        r == spec_has_malformed(issued@, cur@),
{
    let n = issued.len();
    let mut i: usize = 0;
    while i < n
        invariant
            0 <= i <= n,
            n == issued@.len(),
            forall|j: int|
                0 <= j < i ==> !((#[trigger] issued@[j].token_id)@ != cur@ && issued@[j].license
                    is Some && spec_license_terms(issued@[j]) is None),
        decreases n - i,
    {
        let t = &issued[i];
        if !(t.token_id == *cur) {
            match &t.license {
                Some(l) => {
                    let undecodable = match &l.metadata {
                        None => true,
                        Some(m) => license_data_from_json(m.as_str()).is_none(),
                    };
                    if undecodable {
                        return true;
                    }
                },
                None => {},
            }
        }
        i = i + 1;
    }
    false
}

/// Whether some issued token other than `cur` conflicts with a grant of
/// the given exclusivity.
fn find_conflict(issued: &Vec<LicenseToken>, cur: &String, new_exclusive: bool) -> (r: bool)
    ensures
        r == spec_conflicting_token(issued@, cur@, new_exclusive),
{
    let n = issued.len();
    let mut i: usize = 0;
    while i < n
        invariant
            0 <= i <= n,
            n == issued@.len(),
            forall|j: int|
                0 <= j < i ==> !((#[trigger] issued@[j].token_id)@ != cur@ && spec_token_blocks(
                    issued@[j],
                    new_exclusive,
                )),
        decreases n - i,
    {
        let t = &issued[i];
        if !(t.token_id == *cur) && token_blocks(t, new_exclusive) {
            return true;
        }
        i = i + 1;
    }
    false
}

/// Validates a proposed license transition against the asset's inventory.
///
/// The requested license must be offered for the asset (else
/// `UnknownLicense`), and no issued license other than the current
/// token's may carry undecodable terms (else `MalformedLicenseData`).
/// The verdict then allows the transition exactly when no issued license
/// on another token conflicts with the request; the current token's own
/// license never blocks its own transition.
pub fn check_transition(
    inventory: &FullInventory,
    current_token: &LicenseToken,
    new_license: &InventoryLicense,
) -> (r: Result<Verdict, PolicyError>)
    ensures
        match r {
            Ok(v) => spec_known_license(inventory.inventory_licenses@, new_license.license_id@)
                && !spec_has_malformed(inventory.issued_licenses@, current_token.token_id@)
                && v.allowed == !spec_conflicting_token(
                inventory.issued_licenses@,
                current_token.token_id@,
                new_license.license.exclusivity,
            ) && (v.reason is Some <==> !v.allowed) && (!v.allowed ==> v.reason->0@
                == "license blocked by an exclusivity conflict on this asset"@),
            Err(e) => match e {
                PolicyError::UnknownLicense => !spec_known_license(
                    inventory.inventory_licenses@,
                    new_license.license_id@,
                ),
                PolicyError::MalformedLicenseData => spec_known_license(
                    inventory.inventory_licenses@,
                    new_license.license_id@,
                ) && spec_has_malformed(inventory.issued_licenses@, current_token.token_id@),
            },
        },
{
    if !known_license(&inventory.inventory_licenses, &new_license.license_id) {
        return Err(PolicyError::UnknownLicense);
    }
    if find_malformed(&inventory.issued_licenses, &current_token.token_id) {
        return Err(PolicyError::MalformedLicenseData);
    }
    let conflict = find_conflict(
        &inventory.issued_licenses,
        &current_token.token_id,
        new_license.license.exclusivity,
    );
    if conflict {
        Ok(
            Verdict {
                allowed: false,
                reason: Some(
                    "license blocked by an exclusivity conflict on this asset".to_owned(),
                ),
            },
        )
    } else {
        Ok(Verdict { allowed: true, reason: None })
    }
}

/// Validates a whole catalog before it replaces the stored metadata: the
/// verdict allows the update exactly when no license identifier repeats.
pub fn check_inventory_state(licenses: &Vec<InventoryLicense>) -> (r: Verdict)
    ensures
        r.allowed == spec_no_duplicate_ids(licenses@),
        r.reason is Some <==> !r.allowed,
{
    let n = licenses.len();
    let mut i: usize = 0;
    while i < n
        invariant
            0 <= i <= n,
            n == licenses@.len(),
            forall|a: int, b: int|
                0 <= a < b < n && a < i ==> (#[trigger] licenses@[a].license_id)@ != (
                #[trigger] licenses@[b].license_id)@,
        decreases n - i,
    {
        let mut j: usize = i + 1;
        while j < n
            invariant
                0 <= i < j <= n,
                n == licenses@.len(),
                forall|b: int|
                    i < b < j ==> (#[trigger] licenses@[b].license_id)@
                        != licenses@[i as int].license_id@,
            decreases n - j,
        {
            if licenses[i].license_id == licenses[j].license_id {
                return Verdict {
                    allowed: false,
                    reason: Some("duplicate license identifier in the catalog".to_owned()),
                };
            }
            j = j + 1;
        }
        i = i + 1;
    }
    Verdict { allowed: true, reason: None }
}

/// Exclusivity: an issued exclusive license held by another token makes
/// every transition request for this asset conflict, whatever license is
/// requested.
pub proof fn lemma_exclusivity_blocks(
    issued: Seq<LicenseToken>,
    cur: Seq<char>,
    new_exclusive: bool,
    i: int,
)
    requires
        0 <= i < issued.len(),
        issued[i].token_id@ != cur,
        spec_license_terms(issued[i]) is Some,
        spec_license_terms(issued[i])->0.exclusivity,
    ensures
        spec_conflicting_token(issued, cur, new_exclusive),
{
    assert(spec_token_blocks(issued[i], new_exclusive));
}

/// Self-exclusion: when every issued license on the asset belongs to the
/// transitioning token itself (other tokens, if any, carry none), nothing
/// conflicts, so the verdict allows the transition away from the token's
/// own (possibly exclusive) hold.
pub proof fn lemma_exclusivity_self(issued: Seq<LicenseToken>, cur: Seq<char>, new_exclusive: bool)
    requires
        forall|i: int|
            0 <= i < issued.len() ==> (#[trigger] issued[i].token_id)@ == cur || issued[i].license
                is None,
    ensures
        !spec_conflicting_token(issued, cur, new_exclusive),
        !spec_has_malformed(issued, cur),
{
    assert forall|i: int|
        0 <= i < issued.len() && (#[trigger] issued[i].token_id)@ != cur implies !spec_token_blocks(
        issued[i],
        new_exclusive,
    ) && !(issued[i].license is Some && spec_license_terms(issued[i]) is None) by {
        assert(issued[i].license is None);
    }
}

/// No offer, no grant: an asset whose inventory offers no licenses knows
/// no license identifier, so every transition request ends in
/// `UnknownLicense`.
pub proof fn lemma_no_offer_denies(catalog: Seq<InventoryLicense>, id: Seq<char>)
    requires
        catalog.len() == 0,
    ensures
        !spec_known_license(catalog, id),
{
}

} // verus!

verus! {

/// Common view over license-bearing records: the term flags the policy
/// evaluator and its callers branch on.
pub trait LicenseGeneral {
    /// Whether the record carries terms that can be read at all.
    spec fn terms_readable(&self) -> bool;

    /// The exclusivity flag of the terms.
    spec fn spec_is_exclusive(&self) -> bool;

    /// The personal-use flag of the terms.
    spec fn spec_is_personal(&self) -> bool;

    /// Whether the license is exclusive.
    fn is_exclusive(&self) -> (r: bool)
        requires
            self.terms_readable(),
        ensures
            r == self.spec_is_exclusive(),
    ;

    /// Whether the license is for personal use.
    fn is_personal(&self) -> (r: bool)
        requires
            self.terms_readable(),
        ensures
            r == self.spec_is_personal(),
    ;

    /// Whether the license is for commercial use.
    fn is_commercial(&self) -> (r: bool)
        requires
            self.terms_readable(),
        ensures
            r == !self.spec_is_personal(),
    ;
}

impl LicenseGeneral for InventoryLicense {
    open spec fn terms_readable(&self) -> bool {
        true
    }

    open spec fn spec_is_exclusive(&self) -> bool {
        self.license.exclusivity
    }

    open spec fn spec_is_personal(&self) -> bool {
        self.license.personal_use
    }

    fn is_exclusive(&self) -> (r: bool) {
        self.license.exclusivity
    }

    fn is_personal(&self) -> (r: bool) {
        self.license.personal_use
    }

    fn is_commercial(&self) -> (r: bool) {
        !self.license.personal_use
    }
}

impl LicenseGeneral for LicenseToken {
    open spec fn terms_readable(&self) -> bool {
        spec_license_terms(*self) is Some
    }

    open spec fn spec_is_exclusive(&self) -> bool {
        spec_license_terms(*self)->0.exclusivity
    }

    open spec fn spec_is_personal(&self) -> bool {
        spec_license_terms(*self)->0.personal_use
    }

    fn is_exclusive(&self) -> (r: bool) {
        let l = self.license.as_ref().unwrap();
        let m = l.metadata.as_ref().unwrap();
        match license_data_from_json(m.as_str()) {
            Some(d) => d.exclusivity,
            None => {
                proof {
                    assert(false);
                }
                false
            },
        }
    }

    fn is_personal(&self) -> (r: bool) {
        let l = self.license.as_ref().unwrap();
        let m = l.metadata.as_ref().unwrap();
        match license_data_from_json(m.as_str()) {
            Some(d) => d.personal_use,
            None => {
                proof {
                    assert(false);
                }
                false
            },
        }
    }

    fn is_commercial(&self) -> (r: bool) {
        let l = self.license.as_ref().unwrap();
        let m = l.metadata.as_ref().unwrap();
        match license_data_from_json(m.as_str()) {
            Some(d) => !d.personal_use,
            None => {
                proof {
                    assert(false);
                }
                false
            },
        }
    }
}

} // verus!

verus! {

/// Determinism of availability: the verdict depends only on which issued
/// licenses exist, not on the order the ledger enumerates them in.
pub proof fn lemma_available_order_independent(
    a: Seq<LicenseToken>,
    b: Seq<LicenseToken>,
    new_exclusive: bool,
)
    requires
        forall|t: LicenseToken| a.contains(t) <==> b.contains(t),
    ensures
        spec_available(a, new_exclusive) == spec_available(b, new_exclusive),
{
    if spec_available(a, new_exclusive) {
        assert forall|i: int| 0 <= i < b.len() implies !spec_token_blocks(
            #[trigger] b[i],
            new_exclusive,
        ) by {
            assert(b.contains(b[i]));
            assert(a.contains(b[i]));
            let j = choose|j: int| 0 <= j < a.len() && a[j] == b[i];
            assert(!spec_token_blocks(a[j], new_exclusive));
        }
    }
    if spec_available(b, new_exclusive) {
        assert forall|i: int| 0 <= i < a.len() implies !spec_token_blocks(
            #[trigger] a[i],
            new_exclusive,
        ) by {
            assert(a.contains(a[i]));
            assert(b.contains(a[i]));
            let j = choose|j: int| 0 <= j < b.len() && b[j] == a[i];
            assert(!spec_token_blocks(b[j], new_exclusive));
        }
    }
}

/// Determinism of transition conflicts: the verdict depends only on
/// which issued licenses exist, not on their enumeration order.
pub proof fn lemma_conflict_order_independent(
    a: Seq<LicenseToken>,
    b: Seq<LicenseToken>,
    cur: Seq<char>,
    new_exclusive: bool,
)
    requires
        forall|t: LicenseToken| a.contains(t) <==> b.contains(t),
    ensures
        spec_conflicting_token(a, cur, new_exclusive) == spec_conflicting_token(
            b,
            cur,
            new_exclusive,
        ),
{
    if spec_conflicting_token(a, cur, new_exclusive) {
        let i = choose|i: int|
            0 <= i < a.len() && (#[trigger] a[i].token_id)@ != cur && spec_token_blocks(
                a[i],
                new_exclusive,
            );
        assert(a.contains(a[i]));
        assert(b.contains(a[i]));
        let j = choose|j: int| 0 <= j < b.len() && b[j] == a[i];
        assert(b[j].token_id@ != cur && spec_token_blocks(b[j], new_exclusive));
    }
    if spec_conflicting_token(b, cur, new_exclusive) {
        let i = choose|i: int|
            0 <= i < b.len() && (#[trigger] b[i].token_id)@ != cur && spec_token_blocks(
                b[i],
                new_exclusive,
            );
        assert(b.contains(b[i]));
        assert(a.contains(b[i]));
        let j = choose|j: int| 0 <= j < a.len() && a[j] == b[i];
        assert(a[j].token_id@ != cur && spec_token_blocks(a[j], new_exclusive));
    }
}

} // verus!
