//! The single-file configuration of the UDP server: where it listens, the shared key,
//! the client whitelist and the rate limit, and where the client sends.
use vstd::prelude::*;

verus! {

broadcast use vstd::string::group_string_axioms;

/// The whole configuration.
#[derive(Debug, Clone)]
pub struct Config {
    pub server: ServerConfig,
    pub client: ClientConfig,
    pub platform: String,
    pub debug: bool,
}

/// Server settings: listening address, shared key, whitelist (empty admits every
/// client) and requests allowed per client and minute (0 for no limit).
#[derive(Debug, Clone)]
pub struct ServerConfig {
    pub bind_addr: String,
    pub shared_key: String,
    pub allowed_ips: Vec<String>,
    pub rate_limit: u32,
}

/// Client settings: server address, shared key and reply timeout in seconds.
#[derive(Debug, Clone)]
pub struct ClientConfig {
    pub server_addr: String,
    pub shared_key: String,
    pub timeout: u64,
}

/// The platform when the configuration does not name one.
pub fn default_platform() -> (r: String)
    ensures
        r@ == "openwrt"@,
{
    "openwrt".to_string()
}

/// The rate limit when the configuration does not give one.
pub fn default_rate_limit() -> (r: u32)
    ensures
        r == 60,
{
    60
}

/// The reply timeout when the configuration does not give one.
pub fn default_timeout() -> (r: u64)
    ensures
        r == 5,
{
    5
}

/// The settings of [`Config::default`].
pub open spec fn default_settings(c: Config) -> bool {
    &&& c.server.bind_addr@ == "0.0.0.0:9999"@
    &&& c.server.shared_key@ == "change_this_shared_secret_key"@
    &&& c.server.allowed_ips@.len() == 0
    &&& c.server.rate_limit == 60
    &&& c.client.server_addr@ == "127.0.0.1:9999"@
    &&& c.client.shared_key@ == "change_this_shared_secret_key"@
    &&& c.client.timeout == 5
    &&& !c.debug
}

impl Default for Config {
    /// Listen on `0.0.0.0:9999`, send to `127.0.0.1:9999`, 60 requests a minute, OpenWrt.
    fn default() -> (r: Self)
        ensures
            default_settings(r),
            r.platform@ == "openwrt"@,
    {
        Config {
            server: ServerConfig {
                bind_addr: "0.0.0.0:9999".to_string(),
                shared_key: "change_this_shared_secret_key".to_string(),
                allowed_ips: Vec::new(),
                rate_limit: 60,
            },
            client: ClientConfig {
                server_addr: "127.0.0.1:9999".to_string(),
                shared_key: "change_this_shared_secret_key".to_string(),
                timeout: 5,
            },
            platform: "openwrt".to_string(),
            debug: false,
        }
    }
}

impl Config {
    /// The configuration that `init` writes: the defaults, for the given platform if any.
    pub fn for_platform(platform: Option<&str>) -> (r: Self)
        ensures
            default_settings(r),
            match platform {
                Some(p) => r.platform@ == p@,
                None => r.platform@ == "openwrt"@,
            },
    {
        let mut config = Config::default();
        match platform {
            Some(p) => {
                config.platform = p.to_string();
            },
            None => {},
        }
        config
    }
}

} // verus!
