//! Configuration: server, client, security, firewall and rate-limit settings, and the
//! defaults for each platform.
//!
//! Socket addresses are held in their text form (`ip:port`); reading and writing the
//! configuration file belongs to the program around the library.
use vstd::prelude::*;

pub mod simple;

verus! {

broadcast use vstd::string::group_string_axioms;

/// The whole configuration.
#[derive(Debug, Clone)]
pub struct Config {
    pub server: ServerConfig,
    pub client: ClientConfig,
    pub security: SecurityConfig,
    pub debug: bool,
    pub platform: String,
}

/// Server settings.
#[derive(Debug, Clone)]
pub struct ServerConfig {
    pub bind_addr: String,
    pub allowed_clients: Vec<String>,
    pub firewall: FirewallConfig,
    pub rate_limit: RateLimitConfig,
}

/// Client settings.
#[derive(Debug, Clone)]
pub struct ClientConfig {
    pub server_addr: String,
    pub timeout_secs: u64,
    pub retry_count: u32,
}

/// Key and packet settings shared by both ends.
#[derive(Debug, Clone)]
pub struct SecurityConfig {
    pub shared_key: String,
    pub timestamp_window_secs: i64,
    pub max_packet_size: usize,
    pub key_derivation_iterations: u32,
}

/// Which firewall to drive and where its rules go.
#[derive(Debug, Clone)]
pub struct FirewallConfig {
    pub firewall_type: String,
    pub default_zone: String,
    pub forward_chain: String,
    pub input_chain: String,
    pub output_chain: String,
}

/// Request rate limits.
#[derive(Debug, Clone)]
pub struct RateLimitConfig {
    pub max_requests_per_minute: u32,
    pub burst_size: u32,
}

/// Why a configuration could not be produced.
#[derive(Debug, Clone, PartialEq, Eq)]
pub enum ConfigError {
    Invalid(String),
}

/// The firewall type when the configuration does not name one.
pub fn default_firewall_type() -> (r: String)
    ensures
        r@ == "auto"@,
{
    "auto".to_string()
}

/// The settings of [`Config::default`] other than the platform and the firewall section.
pub open spec fn default_settings(c: Config) -> bool {
    &&& c.server.bind_addr@ == "0.0.0.0:8888"@
    &&& c.server.allowed_clients@.len() == 0
    &&& c.server.rate_limit.max_requests_per_minute == 60
    &&& c.server.rate_limit.burst_size == 10
    &&& c.client.server_addr@ == "127.0.0.1:8888"@
    &&& c.client.timeout_secs == 5
    &&& c.client.retry_count == 3
    &&& c.security.shared_key@ == "change_this_default_key_1234567890"@
    &&& c.security.timestamp_window_secs == 30
    &&& c.security.max_packet_size == 4096
    &&& c.security.key_derivation_iterations == 100000
    &&& !c.debug
}

/// The firewall section holds the five given names.
pub open spec fn firewall_names(
    f: FirewallConfig,
    firewall_type: Seq<char>,
    zone: Seq<char>,
    forward: Seq<char>,
    input: Seq<char>,
    output: Seq<char>,
) -> bool {
    &&& f.firewall_type@ == firewall_type
    &&& f.default_zone@ == zone
    &&& f.forward_chain@ == forward
    &&& f.input_chain@ == input
    &&& f.output_chain@ == output
}

/// The OpenWrt defaults: platform `openwrt`, UCI zone `lan` and the `*_rule` chains.
pub open spec fn openwrt_defaults(c: Config) -> bool {
    &&& default_settings(c)
    &&& c.platform@ == "openwrt"@
    &&& firewall_names(
        c.server.firewall,
        "openwrt"@,
        "lan"@,
        "forwarding_rule"@,
        "input_rule"@,
        "output_rule"@,
    )
}

/// The Linux defaults: platform `linux`, `iptables` with zone `public`.
pub open spec fn linux_defaults(c: Config) -> bool {
    &&& default_settings(c)
    &&& c.platform@ == "linux"@
    &&& firewall_names(c.server.firewall, "iptables"@, "public"@, "FORWARD"@, "INPUT"@, "OUTPUT"@)
}

/// The Windows defaults: platform `windows`, zone `Public`.
pub open spec fn windows_defaults(c: Config) -> bool {
    &&& default_settings(c)
    &&& c.platform@ == "windows"@
    &&& firewall_names(c.server.firewall, "windows"@, "Public"@, "Forward"@, "Input"@, "Output"@)
}

/// The generic defaults: platform `unknown`, firewall type `auto`.
pub open spec fn generic_defaults(c: Config) -> bool {
    &&& default_settings(c)
    &&& c.platform@ == "unknown"@
    &&& firewall_names(c.server.firewall, "auto"@, "public"@, "FORWARD"@, "INPUT"@, "OUTPUT"@)
}

/// The configuration that `default_for_platform` gives for `platform`.
pub open spec fn platform_defaults(c: Config, platform: Seq<char>) -> bool {
    if platform == "openwrt"@ {
        openwrt_defaults(c)
    } else if platform == "linux"@ {
        linux_defaults(c)
    } else if platform == "windows"@ {
        windows_defaults(c)
    } else {
        generic_defaults(c)
    }
}

impl Default for Config {
    /// The defaults: listen on `0.0.0.0:8888`, talk to `127.0.0.1:8888`, a 30-second
    /// window, an automatic firewall type and an unknown platform.
    fn default() -> (r: Self)
        ensures
            generic_defaults(r),
    {
        Config {
            server: ServerConfig {
                bind_addr: "0.0.0.0:8888".to_string(),
                allowed_clients: Vec::new(),
                firewall: FirewallConfig {
                    firewall_type: "auto".to_string(),
                    default_zone: "public".to_string(),
                    forward_chain: "FORWARD".to_string(),
                    input_chain: "INPUT".to_string(),
                    output_chain: "OUTPUT".to_string(),
                },
                rate_limit: RateLimitConfig { max_requests_per_minute: 60, burst_size: 10 },
            },
            client: ClientConfig {
                server_addr: "127.0.0.1:8888".to_string(),
                timeout_secs: 5,
                retry_count: 3,
            },
            security: SecurityConfig {
                shared_key: "change_this_default_key_1234567890".to_string(),
                timestamp_window_secs: 30,
                max_packet_size: 4096,
                key_derivation_iterations: 100000,
            },
            debug: false,
            platform: "unknown".to_string(),
        }
    }
}

impl Config {
    /// The defaults for a platform: `openwrt`, `linux` and `windows` each name their
    /// firewall and chains; any other name gives [`Config::default`].
    pub fn default_for_platform(platform: &str) -> (r: Result<Self, ConfigError>)
        ensures
            r matches Ok(c) && platform_defaults(c, platform@),
    {
        let c = if crate::text::str_eq(platform, "openwrt") {
            Self::default_openwrt()
        } else if crate::text::str_eq(platform, "linux") {
            Self::default_linux()
        } else if crate::text::str_eq(platform, "windows") {
            Self::default_windows()
        } else {
            Self::default()
        };
        Ok(c)
    }

    /// The OpenWrt defaults.
    pub fn default_openwrt() -> (r: Self)
        ensures
            openwrt_defaults(r),
    {
        let mut config = Self::default();
        config.platform = "openwrt".to_string();
        config.server.firewall.firewall_type = "openwrt".to_string();
        config.server.firewall.default_zone = "lan".to_string();
        config.server.firewall.forward_chain = "forwarding_rule".to_string();
        config.server.firewall.input_chain = "input_rule".to_string();
        config.server.firewall.output_chain = "output_rule".to_string();
        config
    }

    /// The Linux defaults.
    pub fn default_linux() -> (r: Self)
        ensures
            linux_defaults(r),
    {
        let mut config = Self::default();
        config.platform = "linux".to_string();
        config.server.firewall.firewall_type = "iptables".to_string();
        config.server.firewall.default_zone = "public".to_string();
        config.server.firewall.forward_chain = "FORWARD".to_string();
        config.server.firewall.input_chain = "INPUT".to_string();
        config.server.firewall.output_chain = "OUTPUT".to_string();
        config
    }

    /// The Windows defaults.
    pub fn default_windows() -> (r: Self)
        ensures
            windows_defaults(r),
    {
        let mut config = Self::default();
        config.platform = "windows".to_string();
        config.server.firewall.firewall_type = "windows".to_string();
        config.server.firewall.default_zone = "Public".to_string();
        config.server.firewall.forward_chain = "Forward".to_string();
        config.server.firewall.input_chain = "Input".to_string();
        config.server.firewall.output_chain = "Output".to_string();
        config
    }
}

} // verus!
