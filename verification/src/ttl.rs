//! The persistence-horizon policy applied on every successful write.
//!
//! Each stored record carries a host-managed expiration horizon, measured in
//! the host's time units. The registry never shortens it: whenever the
//! remaining horizon has fallen under a fixed low-water mark, a write extends
//! it to a long-lived target of about one year.

use vstd::prelude::*;

verus! {

/// Remaining horizon under which a write must renew the record.
pub const TTL_LOW_WATER_MARK: u32 = 100;

/// Horizon a renewal extends the record to: about one year of host time
/// units, at five seconds each.
pub const TTL_RENEWAL_TARGET: u32 = 31536000;

/// The horizon a record is left with after a successful write, given the
/// horizon it had before: renewed to the target when it had fallen under the
/// low-water mark, untouched otherwise. It is never shortened.
pub fn horizon_after_write(remaining: u32) -> (r: u32)
    ensures
        r >= remaining,
        remaining < TTL_LOW_WATER_MARK ==> r == TTL_RENEWAL_TARGET,
        remaining >= TTL_LOW_WATER_MARK ==> r == remaining,
{
    if remaining < TTL_LOW_WATER_MARK {
        TTL_RENEWAL_TARGET
    } else {
        remaining
    }
}

} // verus!
