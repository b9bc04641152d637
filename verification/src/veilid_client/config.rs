//! The configuration of the overlay node.

use vstd::prelude::*;

verus! {

/// How the node uses the network.
#[derive(Clone, Debug)]
pub struct NetworkConfig {
    /// Route through Tor.
    pub use_tor: bool,
    /// Route through I2P.
    pub use_i2p: bool,
    /// Open ports by UPnP.
    pub enable_upnp: bool,
    /// The most peers to connect to.
    pub max_peers: u32,
    /// Take part in the distributed hash table.
    pub enable_dht: bool,
}

/// How the node protects privacy.
#[derive(Clone, Debug)]
pub struct PrivacyConfig {
    /// Route privately by default.
    pub default_routing_private: bool,
    /// The fewest relays of a private route.
    pub min_relay_count: u8,
    /// The most relays of a private route.
    pub max_relay_count: u8,
    /// Send dummy messages against traffic analysis.
    pub enable_cover_traffic: bool,
}

/// The configuration of the overlay node.
#[derive(Clone, Debug)]
pub struct VeilidConfig {
    /// Where the node keeps its data.
    pub storage_path: String,
    /// Relay for others.
    pub enable_relay: bool,
    /// How the node uses the network.
    pub network: NetworkConfig,
    /// How the node protects privacy.
    pub privacy: PrivacyConfig,
}

/// Where the node keeps its data unless told otherwise.
pub const DEFAULT_STORAGE_PATH: &'static str = ".veilid";

impl VeilidConfig {
    /// The private configuration: routing over the overlay alone, relaying
    /// for others, three to five relays on private routes, cover traffic.
    pub fn default_private(storage_path: String) -> (config: Self)
        ensures
            config == (VeilidConfig {
                storage_path,
                enable_relay: true,
                network: NetworkConfig {
                    use_tor: false,
                    use_i2p: false,
                    enable_upnp: false,
                    max_peers: 16,
                    enable_dht: true,
                },
                privacy: PrivacyConfig {
                    default_routing_private: true,
                    min_relay_count: 3,
                    max_relay_count: 5,
                    enable_cover_traffic: true,
                },
            }),
    {
        VeilidConfig {
            storage_path,
            enable_relay: true,
            network: NetworkConfig {
                use_tor: false,
                use_i2p: false,
                enable_upnp: false,
                max_peers: 16,
                enable_dht: true,
            },
            privacy: PrivacyConfig {
                default_routing_private: true,
                min_relay_count: 3,
                max_relay_count: 5,
                enable_cover_traffic: true,
            },
        }
    }

    /// A configuration for tests: fast rather than private.
    pub fn for_testing(storage_path: String) -> (config: Self)
        ensures
            config == (VeilidConfig {
                storage_path,
                enable_relay: false,
                network: NetworkConfig {
                    use_tor: false,
                    use_i2p: false,
                    enable_upnp: false,
                    max_peers: 8,
                    enable_dht: true,
                },
                privacy: PrivacyConfig {
                    default_routing_private: false,
                    min_relay_count: 1,
                    max_relay_count: 2,
                    enable_cover_traffic: false,
                },
            }),
    {
        VeilidConfig {
            storage_path,
            enable_relay: false,
            network: NetworkConfig {
                use_tor: false,
                use_i2p: false,
                enable_upnp: false,
                max_peers: 8,
                enable_dht: true,
            },
            privacy: PrivacyConfig {
                default_routing_private: false,
                min_relay_count: 1,
                max_relay_count: 2,
                enable_cover_traffic: false,
            },
        }
    }

    /// The configuration of greatest privacy: the private configuration,
    /// routed through Tor and I2P as well.
    pub fn maximum_privacy(storage_path: String) -> (config: Self)
        ensures
            config.storage_path == storage_path,
            config.enable_relay,
            config.network.use_tor,
            config.network.use_i2p,
            !config.network.enable_upnp,
            config.network.max_peers == 16,
            config.network.enable_dht,
            config.privacy.default_routing_private,
            config.privacy.min_relay_count == 3,
            config.privacy.max_relay_count == 5,
            config.privacy.enable_cover_traffic,
    {
        let mut config = Self::default_private(storage_path);
        config.network.use_tor = true;
        config.network.use_i2p = true;
        config
    }
}

impl Default for VeilidConfig {
    /// The configuration of greatest privacy, with its data under `.veilid`.
    fn default() -> (config: Self)
        ensures
            config.storage_path@ == DEFAULT_STORAGE_PATH@,
            config.enable_relay,
            config.network.use_tor,
            config.network.use_i2p,
            !config.network.enable_upnp,
            config.privacy.default_routing_private,
            config.privacy.enable_cover_traffic,
    {
        Self::maximum_privacy(DEFAULT_STORAGE_PATH.to_owned())
    }
}

} // verus!
