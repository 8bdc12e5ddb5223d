//! Configuration values, their defaults, and the command-line merge.
//!
//! Reading a configuration file and parsing command-line flags happen
//! outside this crate; the plain values arrive here, where the defaults and
//! the override rules are defined.

use vstd::prelude::*;

verus! {

/// Values taken from the command line; `None` where a flag was absent.
pub struct Cli {
    pub listen: Option<String>,
    pub config: Option<String>,
    pub log_format: Option<String>,
}

/// Default listen address.
pub fn default_listen() -> (r: String)
    ensures
        r@ == "0.0.0.0:9101"@,
{
    "0.0.0.0:9101".to_owned()
}

/// Default path of the metrics endpoint.
pub fn default_metrics_path() -> (r: String)
    ensures
        r@ == "/metrics"@,
{
    "/metrics".to_owned()
}

/// Default log format.
pub fn default_log_format() -> (r: String)
    ensures
        r@ == "text"@,
{
    "text".to_owned()
}

/// Collectors are enabled unless configured off.
pub fn default_true() -> (r: bool)
    ensures
        r,
{
    true
}

/// Default exclusion pattern for virtual block devices.
pub fn default_disk_exclude() -> (r: String)
    ensures
        r@ == "^(loop|ram|dm-)"@,
{
    "^(loop|ram|dm-)".to_owned()
}

/// Default exclusion pattern for loopback and virtual interfaces.
pub fn default_network_exclude() -> (r: String)
    ensures
        r@ == "^(lo|veth)"@,
{
    "^(lo|veth)".to_owned()
}

/// Server settings.
pub struct ServerConfig {
    pub listen: String,
    pub metrics_path: String,
    pub log_format: String,
}

impl Default for ServerConfig {
    fn default() -> (r: Self)
        ensures
            r.listen@ == "0.0.0.0:9101"@,
            r.metrics_path@ == "/metrics"@,
            r.log_format@ == "text"@,
    {
        ServerConfig {
            listen: default_listen(),
            metrics_path: default_metrics_path(),
            log_format: default_log_format(),
        }
    }
}

/// Exclusion pattern for the disk collector.
pub struct DiskConfig {
    pub exclude_pattern: String,
}

impl Default for DiskConfig {
    fn default() -> (r: Self)
        ensures
            r.exclude_pattern@ == "^(loop|ram|dm-)"@,
    {
        DiskConfig { exclude_pattern: default_disk_exclude() }
    }
}

/// Exclusion pattern for the network collector.
pub struct NetworkConfig {
    pub exclude_pattern: String,
}

impl Default for NetworkConfig {
    fn default() -> (r: Self)
        ensures
            r.exclude_pattern@ == "^(lo|veth)"@,
    {
        NetworkConfig { exclude_pattern: default_network_exclude() }
    }
}

/// Which collectors run, and their settings.
pub struct CollectorsConfig {
    pub cpu: bool,
    pub memory: bool,
    pub disk: bool,
    pub network: bool,
    pub disk_config: DiskConfig,
    pub network_config: NetworkConfig,
}

impl Default for CollectorsConfig {
    fn default() -> (r: Self)
        ensures
            r.cpu,
            r.memory,
            r.disk,
            r.network,
            r.disk_config.exclude_pattern@ == "^(loop|ram|dm-)"@,
            r.network_config.exclude_pattern@ == "^(lo|veth)"@,
    {
        CollectorsConfig {
            cpu: true,
            memory: true,
            disk: true,
            network: true,
            disk_config: DiskConfig::default(),
            network_config: NetworkConfig::default(),
        }
    }
}

/// The whole configuration.
pub struct Config {
    pub server: ServerConfig,
    pub collectors: CollectorsConfig,
}

impl Default for Config {
    fn default() -> (r: Self)
        ensures
            r.server.listen@ == "0.0.0.0:9101"@,
            r.server.metrics_path@ == "/metrics"@,
            r.server.log_format@ == "text"@,
            r.collectors.cpu,
            r.collectors.memory,
            r.collectors.disk,
            r.collectors.network,
            r.collectors.disk_config.exclude_pattern@ == "^(loop|ram|dm-)"@,
            r.collectors.network_config.exclude_pattern@ == "^(lo|veth)"@,
    {
        Config { server: ServerConfig::default(), collectors: CollectorsConfig::default() }
    }
}

impl Config {
    /// Apply the command-line overrides: a flag that was given replaces the
    /// configured value, an absent one leaves it; everything else is kept.
    pub fn apply_cli(self, cli: &Cli) -> (r: Config)
        ensures
            r.server.listen@ == (match cli.listen {
                Some(l) => l@,
                None => self.server.listen@,
            }),
            r.server.log_format@ == (match cli.log_format {
                Some(f) => f@,
                None => self.server.log_format@,
            }),
            r.server.metrics_path@ == self.server.metrics_path@,
            r.collectors == self.collectors,
    {
        let mut config = self;
        match &cli.listen {
            Some(l) => {
                config.server.listen = l.clone();
            },
            None => {},
        }
        match &cli.log_format {
            Some(f) => {
                config.server.log_format = f.clone();
            },
            None => {},
        }
        config
    }
}

} // verus!
