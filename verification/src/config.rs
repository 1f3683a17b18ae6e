//! The configuration snapshot a service is started with.

use vstd::prelude::*;
use crate::net::addr::{Endpoint, IpAddr};

verus! {

/// The options of a service.
pub struct Config {
    /// Contacts to bootstrap off, whatever else is known.
    pub hard_coded_contacts: Vec<Endpoint>,
    /// The port to accept TCP connections on. Without it there is no
    /// listener.
    pub tcp_acceptor_port: Option<u16>,
    /// The port of the LAN beacon. Without it there is no service
    /// discovery.
    pub service_discovery_port: Option<u16>,
    /// The name of the file that keeps the bootstrap cache.
    pub bootstrap_cache_name: Option<String>,
    /// The name of the network. Nodes of differently named networks do not
    /// connect.
    pub network_name: Option<String>,
    /// Whether connections over local inter-process channels are allowed.
    pub enable_ipc: bool,
    /// Where set, the only addresses that nodes are accepted from.
    pub whitelisted_node_ips: Option<Vec<IpAddr>>,
    /// Where set, the only addresses that clients are accepted from.
    pub whitelisted_client_ips: Option<Vec<IpAddr>>,
}

/// Whether an address passes a whitelist: any address passes where no list
/// is set, and the listed ones where one is.
pub open spec fn spec_passes(whitelist: Option<Seq<IpAddr>>, ip: IpAddr) -> bool {
    match whitelist {
        Some(listed) => listed.contains(ip),
        None => true,
    }
}

/// Whether `ip` is one of `listed`.
pub fn is_listed(listed: &Vec<IpAddr>, ip: IpAddr) -> (found: bool)
    ensures
        found == listed@.contains(ip),
{
    let mut i: usize = 0;
    while i < listed.len()
        invariant
            i <= listed.len(),
            forall|j: int| 0 <= j < i ==> listed@[j] != ip,
        decreases listed.len() - i,
    {
        if listed[i] == ip {
            return true;
        }
        i = i + 1;
    }
    false
}

/// Whether `ip` passes `whitelist`.
pub fn passes(whitelist: &Option<Vec<IpAddr>>, ip: IpAddr) -> (pass: bool)
    ensures
        pass == spec_passes(
            match whitelist {
                Some(listed) => Some(listed@),
                None => None,
            },
            ip,
        ),
{
    match whitelist {
        None => true,
        Some(listed) => is_listed(listed, ip),
    }
}

impl Config {
    /// The configuration with nothing set: no contacts, no listener, no
    /// beacon, no whitelist.
    pub fn new() -> (config: Config)
        ensures
            config.hard_coded_contacts@ == Seq::<Endpoint>::empty(),
            config.tcp_acceptor_port is None,
            config.service_discovery_port is None,
            config.bootstrap_cache_name is None,
            config.network_name is None,
            !config.enable_ipc,
            config.whitelisted_node_ips is None,
            config.whitelisted_client_ips is None,
    {
        Config {
            hard_coded_contacts: Vec::new(),
            tcp_acceptor_port: None,
            service_discovery_port: None,
            bootstrap_cache_name: None,
            network_name: None,
            enable_ipc: false,
            whitelisted_node_ips: None,
            whitelisted_client_ips: None,
        }
    }
}

} // verus!
