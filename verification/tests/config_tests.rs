use veloren_server::config::{
    default_config, Config, ConfigNetwork, PartialConfig, PartialConfigNetwork, DEFAULT_PORT,
};

#[test]
fn default_config_uses_default_port() {
    assert_eq!(default_config().network.port, 59003);
    assert_eq!(DEFAULT_PORT, 59003);
}

#[test]
fn from_partial_without_network_is_default() {
    let partial = PartialConfig { network: None };
    assert_eq!(Config::from_partial(&partial).network.port, 59003);
}

#[test]
fn from_partial_without_port_is_default() {
    let partial = PartialConfig { network: Some(PartialConfigNetwork { port: None }) };
    assert_eq!(Config::from_partial(&partial).network.port, 59003);
}

#[test]
fn from_partial_keeps_given_port() {
    let partial = PartialConfig { network: Some(PartialConfigNetwork { port: Some(14004) }) };
    assert_eq!(Config::from_partial(&partial).network.port, 14004);
    let network = ConfigNetwork::from_partial(&PartialConfigNetwork { port: Some(1) });
    assert_eq!(network.port, 1);
}
