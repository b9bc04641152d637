//! Coordination core for people at risk: identities and keys, hybrid message
//! encryption, the web of trust, assistance records and mailbox delivery.
//!
//! Every function in this crate is verified against its contract. Calls into
//! other crates are confined to the small wrappers of [`trusted`], whose
//! contracts are assumed.

use vstd::prelude::*;

pub mod trusted;
pub mod error;
pub mod types;
pub mod text;
pub mod wire;
pub mod crypto;
pub mod trust;
pub mod bridge;
pub mod storage;
pub mod veilid_client;
pub mod veilid_manager;
pub mod identity;
pub mod messaging;
pub mod assistance;

pub use error::Error;
pub use types::{
    CoarseTimestamp, EmergencyId, Fingerprint, IntelReportId, MessageId, PersonId, Region,
    SafeHouseId, SecureBytes, TransportId, TrustLevel, Urgency,
};

verus! {

/// Version of this library.
pub const VERSION: &'static str = "0.1.0";

/// Application identifier announced to the overlay network.
pub const APP_ID: &'static str = "underground-railroad";

} // verus!
