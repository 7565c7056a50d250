//! Which policies a request falls under, and what they put into the reply.
use vstd::prelude::*;

use crate::config::{Policy, PoolAddresses};
use crate::dhcppkt::{be_bytes, bytes_equal, option_bytes, DhcpOption};
use crate::dhcppkt::{OPTION_BROADCAST, OPTION_NETMASK, OPTION_PARAMLIST};
use crate::ipv4::Ipv4Addr;
use crate::options::{setting, ResponseOptions, Settings};
use crate::request::{DHCPRequest, RequestView};
use crate::subnet::{block_size, Ipv4Subnet};

verus! {

broadcast use vstd::std_specs::hash::group_hash_axioms;

/// How a policy's own conditions relate to a request.
#[derive(Clone, Copy, Debug, PartialEq, Eq, Structural)]
pub enum PolicyMatch {
    /// The policy has no condition.
    NoMatch,
    /// The request does not meet a condition.
    MatchFailed,
    /// The request meets every condition, and there is one.
    MatchSucceeded,
}

/// The policy has a condition of its own.
pub open spec fn is_conditional(policy: Policy) -> bool {
    ||| policy.match_chaddr is Some
    ||| policy.match_subnet is Some
    ||| exists|c: DhcpOption| #[trigger] policy.match_other@.contains_key(c)
}

/// The request meets every condition of the policy's own.
pub open spec fn meets(req: RequestView, policy: Policy) -> bool {
    &&& policy.match_chaddr matches Some(chaddr) ==> req.pkt.chaddr == chaddr@
    &&& policy.match_subnet matches Some(subnet) ==> subnet.holds(req.serverip)
    &&& forall|c: DhcpOption| #[trigger]
        policy.match_other@.contains_key(c) ==> setting(policy.match_other@[c]) == option_bytes(
            req.pkt.options,
            c,
        )
}

/// How the policy's own conditions relate to the request.
pub open spec fn policy_match(req: RequestView, policy: Policy) -> PolicyMatch {
    if !meets(req, policy) {
        PolicyMatch::MatchFailed
    } else if is_conditional(policy) {
        PolicyMatch::MatchSucceeded
    } else {
        PolicyMatch::NoMatch
    }
}

/// The policy is for the request: it meets the policy's conditions, or there are none and one of
/// the subpolicies is for the request.
pub open spec fn is_for(req: RequestView, policy: Policy) -> bool
    decreases policy,
{
    match policy_match(req, policy) {
        PolicyMatch::MatchSucceeded => true,
        PolicyMatch::MatchFailed => false,
        PolicyMatch::NoMatch => exists|i: int|
            0 <= i < policy.policies@.len() && is_for(req, #[trigger] policy.policies@[i]),
    }
}

/// One of the policies is for the request.
pub open spec fn any_is_for(req: RequestView, policies: Seq<Policy>) -> bool {
    exists|i: int| 0 <= i < policies.len() && is_for(req, #[trigger] policies[i])
}

/// Relates a policy's own conditions to a request.
pub fn check_policy(req: &DHCPRequest, policy: &Policy) -> (outcome: PolicyMatch)
    ensures
        outcome == policy_match(req@, *policy),
{
    let mut outcome = PolicyMatch::NoMatch;
    if let Some(match_chaddr) = &policy.match_chaddr {
        outcome = PolicyMatch::MatchSucceeded;
        if !bytes_equal(&req.pkt.chaddr, match_chaddr) {
            return PolicyMatch::MatchFailed;
        }
    }
    if let Some(match_subnet) = &policy.match_subnet {
        outcome = PolicyMatch::MatchSucceeded;
        if !match_subnet.contains(req.serverip) {
            return PolicyMatch::MatchFailed;
        }
    }
    let ghost others = policy.match_other@;
    let ghost before = outcome;
    for (k, m) in it: policy.match_other.iter()
        invariant
            others == policy.match_other@,
            outcome == before || (outcome == PolicyMatch::MatchSucceeded && exists|
                c: DhcpOption,
            | #[trigger] others.contains_key(c)),
            forall|i: int|
                0 <= i < it.index() ==> outcome == PolicyMatch::MatchSucceeded && setting(
                    *(#[trigger] it.seq()[i]).1,
                ) == option_bytes(req@.pkt.options, *it.seq()[i].0),
    {
        assert(others.contains_key(*k) && others[*k] == *m);
        let matched: bool = match (m, req.pkt.options.other.get(k)) {
            // Required that option doesn't exist, option doesn't exist
            (None, None) => true,
            // Required that option doesn't exist, option exists
            (None, Some(_)) => false,
            // Required it has a value: does it have that one?
            (Some(mat), Some(opt)) => bytes_equal(mat, opt),
            // Required that option has a value, option doesn't exist
            (Some(_), None) => false,
        };
        assert(matched == (setting(*m) == option_bytes(req@.pkt.options, *k)));
        if matched {
            // If at least one thing matches, then the policy does
            outcome = PolicyMatch::MatchSucceeded;
        } else {
            // If any fail, then fail everything
            return PolicyMatch::MatchFailed;
        }
    }
    assert(meets(req@, *policy));
    assert forall|c: DhcpOption| #[trigger] others.contains_key(c) implies outcome
        == PolicyMatch::MatchSucceeded by {}
    outcome
}

/// Whether one of the policies is for a request.
pub fn check_policies(req: &DHCPRequest, policies: &[Policy]) -> (r: bool)
    ensures
        r == any_is_for(req@, policies@),
    decreases policies@,
{
    let mut i: usize = 0;
    while i < policies.len()
        invariant
            i <= policies@.len(),
            forall|k: int| 0 <= k < i ==> !is_for(req@, #[trigger] policies@[k]),
        decreases policies@.len() - i,
    {
        let policy = &policies[i];
        match check_policy(req, policy) {
            PolicyMatch::MatchSucceeded => {
                assert(is_for(req@, policies@[i as int]));
                return true;
            },
            PolicyMatch::MatchFailed => {},
            PolicyMatch::NoMatch => {
                if check_policies(req, policy.policies.as_slice()) {
                    assert(is_for(req@, policies@[i as int]));
                    return true;
                }
            },
        }
        i = i + 1;
    }
    false
}

/// A reply while it is being put together.
pub struct Response {
    pub options: ResponseOptions,
    /// The addresses to allocate from.
    pub address: Option<PoolAddresses>,
    /// The shortest lease time in seconds.
    pub minlease: Option<u64>,
    /// The longest lease time in seconds.
    pub maxlease: Option<u64>,
}

/// The meaning of a `Response`.
pub struct ResponseView {
    pub options: Settings,
    pub address: Option<Seq<Ipv4Addr>>,
    pub minlease: Option<u64>,
    pub maxlease: Option<u64>,
}

impl View for Response {
    type V = ResponseView;

    open spec fn view(&self) -> ResponseView {
        ResponseView {
            options: self.options@,
            address: match self.address {
                Some(addresses) => Some(addresses@),
                None => None,
            },
            minlease: self.minlease,
            maxlease: self.maxlease,
        }
    }
}

impl Default for Response {
    /// A reply in which nothing is set.
    fn default() -> (response: Response)
        ensures
            response@ == (ResponseView {
                options: Settings::empty(),
                address: None,
                minlease: None,
                maxlease: None,
            }),
    {
        Response { options: ResponseOptions::default(), address: None, minlease: None, maxlease: None }
    }
}

/// The client asked for the option.
pub open spec fn asked_for(req: RequestView, option: DhcpOption) -> bool {
    option_bytes(req.pkt.options, OPTION_PARAMLIST) matches Some(list) && list.contains(option)
}

/// The policy sets the option in its replies to the client.
pub open spec fn sets(req: RequestView, policy: Policy, option: DhcpOption) -> bool {
    policy.apply_other@.contains_key(option) && asked_for(req, option)
}

/// The settings after those of the policy's own have replaced them.
pub open spec fn overlaid(req: RequestView, policy: Policy, settings: Settings) -> Settings {
    Map::new(
        |c: DhcpOption| settings.contains_key(c) || sets(req, policy, c),
        |c: DhcpOption|
            if sets(req, policy, c) {
                setting(policy.apply_other@[c])
            } else {
                settings[c]
            },
    )
}

/// The settings with one more, if the client asked for the option and it is not set.
pub open spec fn defaulted(
    req: RequestView,
    settings: Settings,
    option: DhcpOption,
    bytes: Seq<u8>,
) -> Settings {
    if asked_for(req, option) && !settings.contains_key(option) {
        settings.insert(option, Some(bytes))
    } else {
        settings
    }
}

/// The settings with the netmask and the broadcast address of the subnet where they are not set.
pub open spec fn with_subnet(
    req: RequestView,
    settings: Settings,
    subnet: Option<Ipv4Subnet>,
) -> Settings {
    match subnet {
        None => settings,
        Some(subnet) => {
            let size = block_size(subnet.spec_prefixlen());
            let mask = (0x1_0000_0000 - size) as u32;
            let last = (subnet.first() + size - 1) as u32;
            defaulted(
                req,
                defaulted(req, settings, OPTION_NETMASK, be_bytes(mask)),
                OPTION_BROADCAST,
                be_bytes(last),
            )
        },
    }
}

/// The reply after the policy's own part, before that of its subpolicies.
pub open spec fn overridden(req: RequestView, policy: Policy, r: ResponseView) -> ResponseView {
    ResponseView {
        options: overlaid(req, policy, r.options),
        address: match policy.apply_address {
            Some(addresses) => Some(addresses@),
            None => r.address,
        },
        ..r
    }
}

/// The reply after a policy that is for the request was applied: its own part, then that of
/// its subpolicies, then what its subnet implies.
pub open spec fn applied(req: RequestView, policy: Policy, r: ResponseView) -> ResponseView
    decreases policy, 0int,
{
    let inner = first_applied(
        req,
        policy.policies@,
        0,
        overridden(req, policy, r),
    );
    ResponseView { options: with_subnet(req, inner.options, policy.match_subnet), ..inner }
}

/// The reply after the first of the policies from `from` on that is for the request was applied.
pub open spec fn first_applied(
    req: RequestView,
    policies: Seq<Policy>,
    from: int,
    r: ResponseView,
) -> ResponseView
    decreases policies, policies.len() - from,
{
    if from < 0 || from >= policies.len() {
        r
    } else if is_for(req, policies[from]) {
        applied(req, policies[from], r)
    } else {
        first_applied(req, policies, from + 1, r)
    }
}

/// Whether a list of option codes has an option.
fn list_has(list: &Vec<u8>, option: DhcpOption) -> (r: bool)
    ensures
        r == list@.contains(option),
{
    let mut i: usize = 0;
    while i < list.len()
        invariant
            i <= list@.len(),
            forall|k: int| 0 <= k < i ==> list@[k] != option,
        decreases list@.len() - i,
    {
        if list[i] == option {
            return true;
        }
        i = i + 1;
    }
    false
}

/// Puts the options of a policy into the reply, as far as the client asked for them.
fn apply_options(req: &DHCPRequest, policy: &Policy, pl: &Vec<u8>, options: &mut ResponseOptions)
    requires
        forall|c: DhcpOption| #[trigger] pl@.contains(c) == asked_for(req@, c),
    ensures
        final(options)@ == overlaid(req@, *policy, old(options)@),
{
    let ghost base = options@;
    let ghost others = policy.apply_other@;
    for (k, v) in it: policy.apply_other.iter()
        invariant
            others == policy.apply_other@,
            forall|c: DhcpOption| #[trigger] pl@.contains(c) == asked_for(req@, c),
            forall|i: int|
                0 <= i < it.index() && asked_for(req@, *(#[trigger] it.seq()[i]).0)
                    ==> options@.contains_key(*it.seq()[i].0) && options@[*it.seq()[i].0]
                    == setting(others[*it.seq()[i].0]),
            forall|c: DhcpOption|
                !sets(req@, *policy, c) ==> (#[trigger] options@.contains_key(c)
                    == base.contains_key(c) && (base.contains_key(c) ==> options@[c] == base[c])),
    {
        assert(others.contains_key(*k) && others[*k] == *v);
        if list_has(pl, *k) {
            options.mutate_option(k, v.as_ref());
        }
    }
    assert forall|c: DhcpOption| sets(req@, *policy, c) implies #[trigger] options@.contains_key(c)
        && options@[c] == setting(others[c]) by {
        assert(others.contains_key(c));
    }
    assert(options@ =~= overlaid(req@, *policy, base));
}

/// Applies a policy to the reply, if it is for the request.
pub fn apply_policy(req: &DHCPRequest, policy: &Policy, response: &mut Response) -> (r: bool)
    ensures
        r == is_for(req@, *policy),
        final(response)@ == if is_for(req@, *policy) {
            applied(req@, *policy, old(response)@)
        } else {
            old(response)@
        },
    decreases *policy, 0int,
{
    let policymatch = check_policy(req, policy);
    if policymatch == PolicyMatch::MatchFailed {
        return false;
    }
    if policymatch == PolicyMatch::NoMatch && !check_policies(req, policy.policies.as_slice()) {
        return false;
    }
    assert(is_for(req@, *policy));
    if let Some(address) = &policy.apply_address {
        let copy = address.clone();
        assert(copy@ =~= address@);
        response.address = Some(copy);
    }
    let pl: Vec<u8> = match req.pkt.options.get_option(&OPTION_PARAMLIST) {
        Some(list) => list,
        None => Vec::new(),
    };
    apply_options(req, policy, &pl, &mut response.options);
    assert(response@ == overridden(req@, *policy, old(response)@));

    // And check to see if a subpolicy also matches
    apply_policies(req, policy.policies.as_slice(), response);

    // Automatically apply some defaults
    if let Some(subnet) = &policy.match_subnet {
        if list_has(&pl, OPTION_NETMASK) {
            response.options.mutate_option_default(&OPTION_NETMASK, &subnet.netmask());
        }
        if list_has(&pl, OPTION_BROADCAST) {
            response.options.mutate_option_default(&OPTION_BROADCAST, &subnet.broadcast());
        }
    }
    true
}

/// Applies the first of the policies that is for the request to the reply.
pub fn apply_policies(req: &DHCPRequest, policies: &[Policy], response: &mut Response) -> (r: bool)
    ensures
        r == any_is_for(req@, policies@),
        final(response)@ == first_applied(req@, policies@, 0, old(response)@),
    decreases policies@, policies@.len(),
{
    let mut i: usize = 0;
    while i < policies.len()
        invariant
            i <= policies@.len(),
            forall|k: int| 0 <= k < i ==> !is_for(req@, #[trigger] policies@[k]),
            response@ == old(response)@,
            first_applied(req@, policies@, 0, old(response)@) == first_applied(
                req@,
                policies@,
                i as int,
                old(response)@,
            ),
        decreases policies@.len() - i,
    {
        if apply_policy(req, &policies[i], response) {
            return true;
        }
        i = i + 1;
    }
    false
}

} // verus!
