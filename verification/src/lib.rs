use vstd::prelude::*;

pub mod cleanup;
pub mod command;
pub mod config;
pub mod daemon;
pub mod dns;
pub mod hostkeys;
pub mod http;
pub mod icmp;
pub mod ipaddr;
pub mod json;
pub mod keys;
pub mod ntp;
pub mod paths;
pub mod probe;
pub mod queries;
pub mod ping;
pub mod resolver;
pub mod results;
pub mod session;
pub mod ssh;
pub mod store;
pub mod telnet;
pub mod text;
pub mod tls;
pub mod traceroute;
pub mod tray;
pub mod tunnel;
pub mod types;

verus! {
}
