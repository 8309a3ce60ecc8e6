//! The session server: its configuration, its key, and which clients it serves.
use vstd::prelude::*;
use crate::config::Config;
use crate::crypto::security::Security;
use crate::crypto::primitives::spec_sha256;
use crate::text::{str_eq, strings_view};
use vstd::utf8::encode_utf8;

verus! {

broadcast use vstd::string::group_string_axioms;

/// The session server: the configuration and the security context made from it.
pub struct Server {
    config: Config,
    security: Security,
}

impl Server {
    /// The configuration.
    pub closed spec fn settings(&self) -> Config {
        self.config
    }

    /// The security context.
    pub closed spec fn context(&self) -> Security {
        self.security
    }

    /// A server with this configuration: its key, replay window and reporting come from
    /// the security settings and the debug flag.
    pub fn new(config: Config) -> (r: Self)
        ensures
            r.settings() == config,
            r.context().key() == spec_sha256(encode_utf8(config.security.shared_key@)),
            r.context().window() == config.security.timestamp_window_secs,
            r.context().debug() == config.debug,
    {
        let security = Security::new(
            config.security.shared_key.as_str(),
            config.security.timestamp_window_secs,
            config.debug,
        );
        Server { config, security }
    }

    /// The configuration.
    pub fn config(&self) -> (r: &Config)
        ensures
            *r == self.settings(),
    {
        &self.config
    }

    /// The security context.
    pub fn security(&self) -> (r: &Security)
        ensures
            *r == self.context(),
    {
        &self.security
    }

    /// Whether the client at `addr` is served: every client when no client is listed,
    /// else the listed ones.
    pub fn is_client_allowed(&self, addr: &str) -> (r: bool)
        ensures
            r == (self.settings().server.allowed_clients@.len() == 0 || strings_view(
                self.settings().server.allowed_clients@,
            ).contains(addr@)),
    {
        let list = &self.config.server.allowed_clients;
        let ghost lv = strings_view(list@);
        if list.len() == 0 {
            return true;
        }
        let mut i: usize = 0;
        while i < list.len()
            invariant
                i <= list@.len(),
                lv == strings_view(list@),
                lv == strings_view(self.settings().server.allowed_clients@),
                forall|j: int| 0 <= j < i ==> lv[j] != addr@,
            decreases list@.len() - i,
        {
            assert(lv[i as int] == list@[i as int]@);
            if str_eq(list[i].as_str(), addr) {
                assert(lv.contains(addr@));
                return true;
            }
            i = i + 1;
        }
        false
    }
}

} // verus!
