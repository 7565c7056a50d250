//! What a policy puts into the reply, option by option.
use vstd::arithmetic::power2::pow2;
use vstd::prelude::*;

use crate::config::Policy;
use crate::dhcppkt::DhcpOption;
use crate::ipv4::lemma_bits_of_octets;
use crate::ipv4::Ipv4Addr;
use crate::policy::{applied, first_applied, is_for, overridden, ResponseView};
use crate::properties::{first_policy_wins, lemma_addresses_are_set_or_stay};
use crate::properties::{lemma_first_from, lemma_only_asked_for, lemma_settings_are_separate};
use crate::properties::{settings_are_never_lost, without_policy_nothing_changes};
use crate::request::RequestView;
use crate::subnet::lemma_block;
use crate::subnet::Ipv4Subnet;

verus! {

/// The four bytes spell the number, the most significant first.
pub open spec fn spells(bytes: Seq<u8>, n: int) -> bool {
    &&& bytes.len() == 4
    &&& bytes[0] * 0x100_0000 + bytes[1] * 0x1_0000 + bytes[2] * 0x100 + bytes[3] == n
}

/// The option is in the list of those that the client asks for.
pub open spec fn is_listed(req: RequestView, c: DhcpOption) -> bool {
    req.pkt.options.contains_key(55) && req.pkt.options[55].contains(c)
}

/// None of the subpolicies is for the request.
pub open spec fn stands_alone(req: RequestView, policy: Policy) -> bool {
    forall|i: int|
        0 <= i < policy.policies@.len() ==> !is_for(req, #[trigger] policy.policies@[i])
}

/// The policy at `i` is the first that is for the request.
pub open spec fn is_first(req: RequestView, policies: Seq<Policy>, i: int) -> bool {
    &&& 0 <= i < policies.len()
    &&& is_for(req, policies[i])
    &&& forall|k: int| 0 <= k < i ==> !is_for(req, #[trigger] policies[k])
}

proof fn lemma_spells(n: u32)
    ensures
        spells(crate::dhcppkt::be_bytes(n), n as int),
{
    lemma_bits_of_octets(Ipv4Addr { bits: n });
}

proof fn lemma_subnet_numbers(subnet: Ipv4Subnet)
    requires
        subnet.spec_prefixlen() <= 32,
    ensures
        ({
            let size = pow2((32 - subnet.spec_prefixlen()) as nat) as int;
            let mask = 0x1_0000_0000 - size;
            let last = subnet.spec_addr().bits as int / size * size + size - 1;
            &&& 0 <= mask <= u32::MAX
            &&& 0 <= last <= u32::MAX
            &&& spells(crate::dhcppkt::be_bytes(mask as u32), mask)
            &&& spells(crate::dhcppkt::be_bytes(last as u32), last)
        }),
{
    let size = pow2((32 - subnet.spec_prefixlen()) as nat) as int;
    let a = subnet.spec_addr().bits;
    lemma_block(a, subnet.spec_prefixlen());
    assert(a as int / size * size >= 0) by (nonlinear_arith)
        requires
            size >= 1,
            a >= 0,
    ;
    lemma_spells((0x1_0000_0000 - size) as u32);
    lemma_spells((a as int / size * size + size - 1) as u32);
}

/// An option that the client lists and the policy names is set to what the policy says, also to
/// not being sent; any other option stays set as it was.
pub proof fn policy_sets_its_options(req: RequestView, policy: Policy, r: ResponseView, c: DhcpOption)
    requires
        stands_alone(req, policy),
    ensures
        is_listed(req, c) && policy.apply_other@.contains_key(c) ==> {
            let after = applied(req, policy, r).options;
            after.contains_key(c) && match policy.apply_other@[c] {
                None => after[c] is None,
                Some(v) => after[c] == Some(v@),
            }
        },
        !(is_listed(req, c) && policy.apply_other@.contains_key(c)) && r.options.contains_key(c)
            ==> applied(req, policy, r).options.contains_key(c) && applied(
            req,
            policy,
            r,
        ).options[c] == r.options[c],
{
    without_policy_nothing_changes(req, policy.policies@, 0, overridden(req, policy, r));
}

/// An option that neither the reply nor the policy sets stays unset, but for the netmask and the
/// broadcast address of a policy with a subnet, if the client lists them. Those are the mask of the
/// prefix and the last address of the subnet, each whether or not the client lists the other.
pub proof fn policy_fills_in_its_subnet(
    req: RequestView,
    policy: Policy,
    r: ResponseView,
    c: DhcpOption,
)
    requires
        stands_alone(req, policy),
        !r.options.contains_key(c),
        !(is_listed(req, c) && policy.apply_other@.contains_key(c)),
        policy.match_subnet is Some ==> policy.match_subnet->0.spec_prefixlen() <= 32,
    ensures
        ({
            let after = applied(req, policy, r).options;
            let subnet = policy.match_subnet->0;
            let size = pow2((32 - subnet.spec_prefixlen()) as nat) as int;
            if policy.match_subnet is Some && is_listed(req, c) && c == 1 {
                after.contains_key(c) && after[c] is Some && spells(
                    after[c]->0,
                    0x1_0000_0000 - size,
                )
            } else if policy.match_subnet is Some && is_listed(req, c) && c == 28 {
                after.contains_key(c) && after[c] is Some && spells(
                    after[c]->0,
                    subnet.spec_addr().bits as int / size * size + size - 1,
                )
            } else {
                !after.contains_key(c)
            }
        }),
{
    without_policy_nothing_changes(req, policy.policies@, 0, overridden(req, policy, r));
    if policy.match_subnet is Some {
        lemma_subnet_numbers(policy.match_subnet->0);
    }
}

/// The reply so far has the option as the policy leaves it before its subpolicies: as the policy
/// says if the client lists it and the policy names it, else as it was.
pub open spec fn is_left_so(
    req: RequestView,
    policy: Policy,
    r: ResponseView,
    mid: ResponseView,
    c: DhcpOption,
) -> bool {
    if is_listed(req, c) && policy.apply_other@.contains_key(c) {
        mid.options.contains_key(c) && match policy.apply_other@[c] {
            None => mid.options[c] is None,
            Some(v) => mid.options[c] == Some(v@),
        }
    } else {
        mid.options.contains_key(c) == r.options.contains_key(c) && (r.options.contains_key(c)
            ==> mid.options[c] == r.options[c])
    }
}

/// A policy with a subpolicy for the request sets an option as the subpolicy does to the reply that
/// the policy left it. Where that leaves the option unset it stays unset, but for the netmask and
/// the broadcast address of the policy's subnet, if the client lists them.
pub proof fn subpolicy_goes_on_from_the_policy(
    req: RequestView,
    policy: Policy,
    i: int,
    r: ResponseView,
    mid: ResponseView,
    c: DhcpOption,
)
    requires
        is_first(req, policy.policies@, i),
        is_left_so(req, policy, r, mid, c),
        policy.match_subnet is Some ==> policy.match_subnet->0.spec_prefixlen() <= 32,
    ensures
        ({
            let inner = applied(req, policy.policies@[i], mid).options;
            let after = applied(req, policy, r).options;
            let subnet = policy.match_subnet->0;
            let size = pow2((32 - subnet.spec_prefixlen()) as nat) as int;
            if inner.contains_key(c) {
                after.contains_key(c) && after[c] == inner[c]
            } else if policy.match_subnet is Some && is_listed(req, c) && c == 1 {
                after.contains_key(c) && after[c] is Some && spells(
                    after[c]->0,
                    0x1_0000_0000 - size,
                )
            } else if policy.match_subnet is Some && is_listed(req, c) && c == 28 {
                after.contains_key(c) && after[c] is Some && spells(
                    after[c]->0,
                    subnet.spec_addr().bits as int / size * size + size - 1,
                )
            } else {
                !after.contains_key(c)
            }
        }),
{
    let own = overridden(req, policy, r);
    first_policy_wins(req, policy.policies@, i, own);
    lemma_first_from(req, policy.policies@, i, i, own);
    lemma_first_from(req, policy.policies@, i, i, mid);
    lemma_settings_are_separate(req, policy.policies@, i, own, mid, c);
    if policy.match_subnet is Some {
        lemma_subnet_numbers(policy.match_subnet->0);
    }
}

/// The addresses are those of the policy if it names any, else they stay; those of a subpolicy that
/// is for the request prevail. The lease bounds stay.
pub proof fn policy_sets_its_addresses(
    req: RequestView,
    policy: Policy,
    i: int,
    r: ResponseView,
    mid: ResponseView,
)
    requires
        match policy.apply_address {
            Some(addresses) => mid.address == Some(addresses@),
            None => mid.address == r.address,
        },
    ensures
        stands_alone(req, policy) ==> applied(req, policy, r).address == mid.address,
        is_first(req, policy.policies@, i) ==> applied(req, policy, r).address == applied(
            req,
            policy.policies@[i],
            mid,
        ).address,
        applied(req, policy, r).minlease == r.minlease,
        applied(req, policy, r).maxlease == r.maxlease,
{
    let own = overridden(req, policy, r);
    lemma_only_asked_for(req, policy, r, 0);
    if stands_alone(req, policy) {
        without_policy_nothing_changes(req, policy.policies@, 0, own);
    }
    if is_first(req, policy.policies@, i) {
        first_policy_wins(req, policy.policies@, i, own);
        lemma_first_from(req, policy.policies@, i, i, own);
        lemma_first_from(req, policy.policies@, i, i, mid);
        lemma_addresses_are_set_or_stay(req, policy.policies@, i, own, mid);
    }
}

/// Of some policies the first that is for the request is applied, wherever it stands; those before
/// and after it do not matter. If none is for the request, the reply stays as it is.
pub proof fn only_the_first_policy_matters(
    req: RequestView,
    policies: Seq<Policy>,
    i: int,
    r: ResponseView,
)
    ensures
        is_first(req, policies, i) ==> first_applied(req, policies, 0, r) == applied(
            req,
            policies[i],
            r,
        ),
        (forall|k: int| 0 <= k < policies.len() ==> !is_for(req, #[trigger] policies[k]))
            ==> first_applied(req, policies, 0, r) == r,
{
    if is_first(req, policies, i) {
        first_policy_wins(req, policies, i, r);
    }
    if forall|k: int| 0 <= k < policies.len() ==> !is_for(req, #[trigger] policies[k]) {
        without_policy_nothing_changes(req, policies, 0, r);
    }
}

/// A client that lists the netmask is told one, and a client that lists the broadcast address is
/// told one, whenever a policy with a subnet is applied: the option is set in the reply, whatever
/// else the client lists and whatever the subpolicies are.
pub proof fn listed_subnet_options_are_set(
    req: RequestView,
    policies: Seq<Policy>,
    i: int,
    r: ResponseView,
    c: DhcpOption,
)
    requires
        is_first(req, policies, i),
        policies[i].match_subnet is Some,
        c == 1 || c == 28,
        is_listed(req, c),
    ensures
        first_applied(req, policies, 0, r).options.contains_key(c),
{
    first_policy_wins(req, policies, i, r);
}

/// What is set in a reply is set in it after any policies.
pub proof fn policies_unset_nothing(
    req: RequestView,
    policies: Seq<Policy>,
    r: ResponseView,
    c: DhcpOption,
)
    requires
        r.options.contains_key(c),
    ensures
        first_applied(req, policies, 0, r).options.contains_key(c),
{
    settings_are_never_lost(req, policies, 0, r, c);
}

} // verus!
