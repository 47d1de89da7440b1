//! Licensing of tokenized digital assets.
//!
//! The crate is organised around three cooperating pieces: a license state
//! store that keeps at most one active and at most one proposed license per
//! token, a policy evaluator that decides whether a license transition is
//! legal for an asset (exclusivity being the one cross-license constraint),
//! and an inventory aggregator that reconciles per-asset license offers with
//! the catalog's license tiers into the `FullInventory` snapshot the policy
//! evaluator consumes.  A transition orchestrator drives the two remote
//! reads, joins their results and commits or rejects the staged transition
//! atomically.

pub mod aggregate;
pub mod deposit;
pub mod events;
pub mod inventory;
pub mod json;
pub mod license;
pub mod orchestrator;
pub mod policy;
pub mod reference;
pub mod strmap;
pub mod types;
