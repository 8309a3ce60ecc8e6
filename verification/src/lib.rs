//! UDP Knock: remote firewall management over authenticated, encrypted UDP datagrams.
//!
//! The library holds the verified core: text handling, packet sealing and opening,
//! replay protection, rate limiting, configuration defaults, firewall rule bookkeeping
//! and the decisions taken by the firewall back ends and the server.
pub mod text;
pub mod firewall;
pub mod crypto;
pub mod config;
pub mod server;
pub mod error;
pub mod protocol;
pub mod cli;
pub mod client;
