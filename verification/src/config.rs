use vstd::prelude::*;

verus! {

/// The network port a server listens on when no configuration says otherwise.
pub const DEFAULT_PORT: u16 = 59003;

/// Network settings as read from a configuration file, each one optional.
pub struct PartialConfigNetwork {
    pub port: Option<u16>,
}

/// A configuration as read from a file: every section may be missing.
pub struct PartialConfig {
    pub network: Option<PartialConfigNetwork>,
}

/// Complete network settings.
pub struct ConfigNetwork {
    pub port: u16,
}

/// A complete server configuration.
pub struct Config {
    pub network: ConfigNetwork,
}

/// The port that a partial network section resolves to.
pub open spec fn resolved_network_port(partial: PartialConfigNetwork) -> u16 {
    match partial.port {
        Some(port) => port,
        None => DEFAULT_PORT,
    }
}

/// The port that a partial configuration resolves to.
pub open spec fn resolved_port(partial: PartialConfig) -> u16 {
    match partial.network {
        Some(network) => resolved_network_port(network),
        None => DEFAULT_PORT,
    }
}

/// The configuration used where no file provides one.
pub fn default_config() -> (config: Config)
    ensures
        config.network.port == DEFAULT_PORT,
{
    Config { network: ConfigNetwork { port: DEFAULT_PORT } }
}

impl Config {
    /// Completes a partial configuration, taking every missing value from
    /// the default configuration.
    pub fn from_partial(partial: &PartialConfig) -> (config: Config)
        ensures
            config.network.port == resolved_port(*partial),
    {
        let default = default_config();
        Config {
            network: match &partial.network {
                Some(partial_network) => ConfigNetwork::from_partial(partial_network),
                None => default.network,
            },
        }
    }
}

impl ConfigNetwork {
    /// Completes a partial network section, taking a missing port from the
    /// default configuration.
    pub fn from_partial(partial: &PartialConfigNetwork) -> (network: ConfigNetwork)
        ensures
            network.port == resolved_network_port(*partial),
    {
        let default = default_config();
        ConfigNetwork { port: partial.port.unwrap_or(default.network.port) }
    }
}

} // verus!
