//! Which requests a policy is for, condition by condition.
use vstd::arithmetic::power2::pow2;
use vstd::prelude::*;

use crate::config::Policy;
use crate::dhcppkt::DhcpOption;
use crate::policy::{any_is_for, is_for, policy_match, PolicyMatch};
use crate::request::RequestView;
use crate::subnet::subnet_holds_what_shares_its_prefix;

verus! {

/// A policy for one hardware address is for no request from another, whatever its other
/// conditions and its subpolicies.
pub proof fn another_hardware_address_fails_the_policy(req: RequestView, policy: Policy)
    requires
        policy.match_chaddr is Some,
        req.pkt.chaddr != policy.match_chaddr->0@,
    ensures
        policy_match(req, policy) == PolicyMatch::MatchFailed,
        !is_for(req, policy),
{
}

/// A policy for one subnet is for no request that was received on an address with another prefix,
/// whatever its other conditions and its subpolicies.
pub proof fn another_subnet_fails_the_policy(req: RequestView, policy: Policy)
    requires
        policy.match_subnet is Some,
        policy.match_subnet->0.spec_prefixlen() <= 32,
        ({
            let size = pow2((32 - policy.match_subnet->0.spec_prefixlen()) as nat) as int;
            req.serverip.bits as int / size != policy.match_subnet->0.spec_addr().bits as int / size
        }),
    ensures
        policy_match(req, policy) == PolicyMatch::MatchFailed,
        !is_for(req, policy),
{
    subnet_holds_what_shares_its_prefix(policy.match_subnet->0, req.serverip);
}

/// A policy that wants an option absent is for no request that has it, and one that wants an option
/// to have a value for no request in which it has another value or is absent, whatever the other
/// conditions and the subpolicies.
pub proof fn another_option_fails_the_policy(req: RequestView, policy: Policy, c: DhcpOption)
    requires
        policy.match_other@.contains_key(c),
        match policy.match_other@[c] {
            None => req.pkt.options.contains_key(c),
            Some(v) => !req.pkt.options.contains_key(c) || req.pkt.options[c] != v@,
        },
    ensures
        policy_match(req, policy) == PolicyMatch::MatchFailed,
        !is_for(req, policy),
{
}

/// A policy with a condition is for every request that fails none of its conditions, whatever its
/// subpolicies.
pub proof fn meeting_every_condition_is_enough(req: RequestView, policy: Policy, c: DhcpOption)
    requires
        policy.match_chaddr is Some || policy.match_subnet is Some
            || policy.match_other@.contains_key(c),
        policy.match_chaddr is Some ==> req.pkt.chaddr == policy.match_chaddr->0@,
        policy.match_subnet is Some ==> policy.match_subnet->0.spec_prefixlen() <= 32 && ({
            let size = pow2((32 - policy.match_subnet->0.spec_prefixlen()) as nat) as int;
            req.serverip.bits as int / size == policy.match_subnet->0.spec_addr().bits as int / size
        }),
        forall|o: DhcpOption| #[trigger]
            policy.match_other@.contains_key(o) ==> match policy.match_other@[o] {
                None => !req.pkt.options.contains_key(o),
                Some(v) => req.pkt.options.contains_key(o) && req.pkt.options[o] == v@,
            },
    ensures
        policy_match(req, policy) == PolicyMatch::MatchSucceeded,
        is_for(req, policy),
{
    if policy.match_subnet is Some {
        subnet_holds_what_shares_its_prefix(policy.match_subnet->0, req.serverip);
    }
}

/// A policy without any condition is for the requests that one of its subpolicies is for, and no
/// others.
pub proof fn without_conditions_the_subpolicies_decide(req: RequestView, policy: Policy)
    requires
        policy.match_chaddr is None,
        policy.match_subnet is None,
        forall|o: DhcpOption| !#[trigger] policy.match_other@.contains_key(o),
    ensures
        policy_match(req, policy) == PolicyMatch::NoMatch,
        is_for(req, policy) <==> exists|i: int|
            0 <= i < policy.policies@.len() && is_for(req, #[trigger] policy.policies@[i]),
{
}

/// One of some policies is for a request exactly when one of the first ones or one of the others
/// is; a single policy counts by itself, and none counts for nothing.
pub proof fn policies_count_one_by_one(
    req: RequestView,
    policies: Seq<Policy>,
    more: Seq<Policy>,
    policy: Policy,
)
    ensures
        any_is_for(req, policies + more) == (any_is_for(req, policies) || any_is_for(req, more)),
        any_is_for(req, seq![policy]) == is_for(req, policy),
        !any_is_for(req, Seq::empty()),
{
    let all = policies + more;
    if any_is_for(req, policies) {
        let i = choose|i: int| 0 <= i < policies.len() && is_for(req, #[trigger] policies[i]);
        assert(all[i] == policies[i]);
    }
    if any_is_for(req, more) {
        let i = choose|i: int| 0 <= i < more.len() && is_for(req, #[trigger] more[i]);
        assert(all[policies.len() + i] == more[i]);
    }
    if any_is_for(req, all) {
        let i = choose|i: int| 0 <= i < all.len() && is_for(req, #[trigger] all[i]);
        if i < policies.len() {
            assert(policies[i] == all[i]);
        } else {
            assert(more[i - policies.len()] == all[i]);
        }
    }
    if is_for(req, policy) {
        assert(seq![policy][0] == policy);
    }
}

} // verus!
