use vstd::prelude::*;

use crate::hetzner_dns::HetznerConfig;

verus! {

/// The DNS providers that records can be kept at, each with its settings.
#[derive(Clone, Debug)]
pub enum DnsProvider {
    Hetzner(HetznerConfig),
}

/// The settings of a run: where the registry is, and which provider to use.
/// The registry's address is held as the text of its URL.
#[derive(Clone, Debug)]
pub struct Config {
    pub consul_address: String,
    pub dns_provider: DnsProvider,
}

} // verus!
