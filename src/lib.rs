//! Payment tracking for an integrated-address wallet: identifiers, a ledger of
//! pending payments, a poll queue and the reconciliation of observed transfers.

pub mod client;
pub mod payment;
pub mod payment_id;
pub mod reconcile;

pub use client::XMRClient;
pub use payment::{PaymentStatus, XMRPayment};
pub use payment_id::PaymentId;
