//! Constants and the admin check shared by the contracts.
use vstd::prelude::*;

use crate::address::Address;

verus! {

/// Ledger TTL threshold for persistent storage entries: 518,400 ledgers,
/// about 30 days at 5 seconds per ledger.
pub const TTL_THRESHOLD: u32 = 518_400;
/// Ledger TTL target for persistent storage entries.
pub const TTL_TARGET: u32 = 518_400;
/// Default ledger TTL for instance storage (about 30 days).
pub const DEFAULT_TTL_LEDGERS: u32 = 518_400;
/// Timelock delay of admin operations: 48 hours in seconds.
pub const TIMELOCK_DELAY_SECS: u64 = 172_800;
/// Default decay interval: 30 days in seconds.
pub const DEFAULT_DECAY_INTERVAL_SECS: u64 = 2_592_000;

/// Errors of the shared helpers, which each contract maps to its own error.
#[derive(Clone, Copy, Debug, PartialEq, Eq, Structural)]
pub enum SharedContractError {
    UnauthorizedAdmin,
}

/// The admin check: `Ok` exactly when `admin` is `stored_admin`. (The host
/// checks `admin`'s signature before this is consulted.)
pub fn require_admin(admin: &Address, stored_admin: &Address) -> (r: Result<(), SharedContractError>)
    ensures
        r is Ok <==> *admin == *stored_admin,
        r is Err ==> r == Err::<(), SharedContractError>(SharedContractError::UnauthorizedAdmin),
{
    if !admin.same(stored_admin) {
        return Err(SharedContractError::UnauthorizedAdmin);
    }
    Ok(())
}

} // verus!
