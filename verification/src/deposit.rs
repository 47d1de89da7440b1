//! Storage-cost reconciliation: every mutating operation measures the
//! storage it used and the caller must have pre-funded it; the excess is
//! refunded and a shortfall aborts the whole call.

use vstd::prelude::*;

verus! {

/// Computes the refund owed after an operation used `storage_used` bytes
/// of storage at `byte_cost` per byte with `attached_deposit` attached.
/// Fails exactly when the attached deposit does not cover the cost.
pub fn refund_deposit(storage_used: u64, attached_deposit: u128, byte_cost: u128) -> (r: Result<
    u128,
    (),
>)
    ensures
        match r {
            Ok(refund) => byte_cost * storage_used <= attached_deposit && refund
                == attached_deposit - byte_cost * storage_used,
            Err(_) => byte_cost * storage_used > attached_deposit,
        },
{
    match byte_cost.checked_mul(storage_used as u128) {
        Some(required) => {
            if required <= attached_deposit {
                Ok(attached_deposit - required)
            } else {
                Err(())
            }
        },
        None => {
            proof {
                assert(byte_cost * storage_used > u128::MAX >= attached_deposit);
            }
            Err(())
        },
    }
}

} // verus!
