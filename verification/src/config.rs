//! The configuration of the DHCP server.
use std::collections::HashMap;

use vstd::prelude::*;

use crate::dhcppkt::DhcpOption;
use crate::ipv4::Ipv4Addr;
use crate::subnet::Ipv4Subnet;

verus! {

broadcast use vstd::std_specs::hash::group_hash_axioms;

/// Options by their code. `None` stands for the absence of the option.
pub type PolicyOptions = HashMap<DhcpOption, Option<Vec<u8>>>;

/// The addresses that a policy allows to be allocated.
pub type PoolAddresses = Vec<Ipv4Addr>;

/// A rule: which requests it is for, and what it puts into the reply.
///
/// A policy without a condition of its own is for the requests that one of its subpolicies is for.
pub struct Policy {
    /// The hardware address that the request has to have.
    pub match_chaddr: Option<Vec<u8>>,
    /// The subnet that the request has to have been received on.
    pub match_subnet: Option<Ipv4Subnet>,
    /// The values that options of the request have to have.
    pub match_other: PolicyOptions,
    /// The addresses to allocate from.
    pub apply_address: Option<PoolAddresses>,
    /// The options to put into the reply.
    pub apply_other: PolicyOptions,
    /// More specific policies, of which the first that is for the request is applied too.
    pub policies: Vec<Policy>,
}

impl Default for Policy {
    /// A policy without conditions and without effect.
    fn default() -> (policy: Policy)
        ensures
            policy.match_chaddr is None,
            policy.match_subnet is None,
            policy.match_other@ == Map::<DhcpOption, Option<Vec<u8>>>::empty(),
            policy.apply_address is None,
            policy.apply_other@ == Map::<DhcpOption, Option<Vec<u8>>>::empty(),
            policy.policies@ == Seq::<Policy>::empty(),
    {
        Policy {
            match_chaddr: None,
            match_subnet: None,
            match_other: HashMap::new(),
            apply_address: None,
            apply_other: HashMap::new(),
            policies: Vec::new(),
        }
    }
}

/// The part of the configuration that is about DHCP.
pub struct DhcpConfig {
    pub policies: Vec<Policy>,
}

/// The configuration.
pub struct Config {
    pub dhcp: DhcpConfig,
}

} // verus!
