//! Assistance: emergency requests, shelters, transport and intelligence
//! reports.

pub mod emergency;
pub mod intelligence;
pub mod safe_house;
pub mod transportation;

pub use emergency::{EmergencyNeed, EmergencyRequest, EmergencyResponse, EmergencyStatus};
pub use intelligence::{DangerLevel, IntelligenceCategory, IntelligenceReport};
pub use safe_house::{Accommodation, SafeHouse, SafeHouseCapability, SafeHouseStatus};
pub use transportation::{TransportOffer, TransportRequest, TransportStatus};
