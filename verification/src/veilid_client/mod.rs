//! The client of the overlay network: its lifecycle, its configuration,
//! records of the distributed hash table, private routes, and the mailbox
//! protocol that runs over them.

pub mod client;
pub mod config;
pub mod dht;
pub mod messaging;
pub mod routes;

pub use client::{VeilidClient, VeilidState};
pub use config::VeilidConfig;
pub use dht::{DHTKey, DHTRecord};
pub use routes::{PrivateRoute, RouteId};
