//! Notifications that successful mutations hand to the host for delivery.

use vstd::prelude::*;

verus! {

/// Which mutation succeeded.
#[derive(Clone, Copy, Debug, PartialEq, Eq, Structural)]
pub enum EventTag {
    /// A first claim created the owner's record.
    Claimed,
    /// A change overwrote the owner's record.
    Changed,
}

/// A notification emitted after a successful mutation.
///
/// The registry only produces the value; delivering it to observers is the
/// host's business. A refused mutation produces none.
pub struct Notification {
    /// Which mutation succeeded.
    pub tag: EventTag,
    /// The owner whose record was written.
    pub owner: u64,
    /// The username that was written.
    pub username: String,
}

} // verus!
