use vstd::prelude::*;

verus! {

/// Age, in minutes, that a payment must exceed to count as expired by the clock.
pub const EXPIRY_MINUTES: i64 = 30;

/// Age, in blocks, beyond which a payment counts as expired.
pub const EXPIRY_BLOCKS: u64 = 15;

/// The stored state of a payment. Expiry is not a state: it is derived from the
/// creation time and height (see `XMRPayment::is_expired`).
#[derive(Clone, Copy, Debug, PartialEq, Eq)]
pub enum PaymentStatus {
    Pending,
    Received,
    Confirmed,
}

/// One tracked payment. Amounts are in piconero (1e-12 XMR).
#[derive(Clone, Debug, PartialEq, Eq)]
pub struct XMRPayment {
    /// Creation time, in seconds since the Unix epoch.
    pub created_timestamp: i64,
    /// Chain height at creation.
    pub created_block_height: u64,
    pub status: PaymentStatus,
    /// Received amount in piconero.
    pub amount_received: u64,
    /// Confirmed amount in piconero.
    pub amount_confirmed: u64,
    /// Requested amount in piconero.
    pub amount_requested: u64,
    /// Opaque caller data, never read by the tracker.
    pub info: Option<Vec<u8>>,
}

/// The expiry rule: older than `EXPIRY_MINUTES` by the clock, or older than
/// `EXPIRY_BLOCKS` by the chain. A clock or a height behind the creation never
/// expires a payment on its own.
pub open spec fn expired(created_timestamp: i64, created_height: u64, now: i64, height: u64) -> bool {
    now - created_timestamp > EXPIRY_MINUTES * 60 || height - created_height > EXPIRY_BLOCKS
}

/// The status that amounts give: confirmed funds first, then received funds.
pub open spec fn status_for(received: u64, confirmed: u64, requested: u64) -> PaymentStatus {
    if confirmed >= requested {
        PaymentStatus::Confirmed
    } else if received >= requested {
        PaymentStatus::Received
    } else {
        PaymentStatus::Pending
    }
}

/// The record that a new allocation stores.
pub open spec fn fresh_payment(
    amount_requested: u64,
    info: Option<Vec<u8>>,
    now: i64,
    height: u64,
) -> XMRPayment {
    XMRPayment {
        created_timestamp: now,
        created_block_height: height,
        status: PaymentStatus::Pending,
        amount_received: 0,
        amount_confirmed: 0,
        amount_requested,
        info,
    }
}

/// The status of a payment for given received and confirmed totals.
pub fn derive_status(received: u64, confirmed: u64, requested: u64) -> (r: PaymentStatus)
    ensures
        r == status_for(received, confirmed, requested),
{
    if confirmed >= requested {
        PaymentStatus::Confirmed
    } else if received >= requested {
        PaymentStatus::Received
    } else {
        PaymentStatus::Pending
    }
}

/// Relies on chrono::Utc::now and DateTime::timestamp: the current time in seconds
/// since the Unix epoch. Nothing is known of the value.
#[verifier::external_body]
pub(crate) fn unix_time_now() -> (r: i64) {
    chrono::Utc::now().timestamp()
}

impl XMRPayment {
    /// Whether the payment has expired at time `now` and chain height `current_block_height`.
    pub open spec fn spec_is_expired(&self, now: i64, current_block_height: u64) -> bool {
        expired(self.created_timestamp, self.created_block_height, now, current_block_height)
    }

    /// A payment expires once its age exceeds thirty minutes (1800 seconds), or
    /// once the chain has grown by more than fifteen blocks since its creation;
    /// whichever comes first.
    pub fn is_expired(&self, now: i64, current_block_height: u64) -> (r: bool)
        ensures
            r == self.spec_is_expired(now, current_block_height),
    {
        let age: i128 = now as i128 - self.created_timestamp as i128;
        if age > EXPIRY_MINUTES as i128 * 60 {
            return true;
        }
        current_block_height > self.created_block_height && current_block_height
            - self.created_block_height > EXPIRY_BLOCKS
    }
}

} // verus!
