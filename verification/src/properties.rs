//! Properties of policies and of the replies they lead to.
use vstd::prelude::*;

use crate::allocation::{record_of, DEFAULT_MAX_LEASE, DEFAULT_MIN_LEASE};
use crate::allocation::{ActionView, AllocationView, EventView, PhaseView};
use crate::clock::low_half;
use crate::config::Policy;
use crate::dhcppkt::{be_bytes, message_type, option_address, option_bytes};
use crate::dhcppkt::{DhcpOption, MessageType, PacketView, ParseError};
use crate::dhcppkt::{DHCPACK, DHCPDISCOVER, DHCPOFFER, DHCPREQUEST};
use crate::dhcppkt::{OPTION_LEASETIME, OPTION_MSGTYPE, OPTION_SERVERID};
use crate::guarantees::{address_in_use_is_not_given_away, allocation_gives_what_is_due, is_run};
use crate::handler::{completed, configured, handled, initial_response};
use crate::handler::{other_server, replying_server, reply_packet, DhcpErrorView, Exchange};
use crate::handler::PendingView;
use crate::ipv4::Ipv4Addr;
use crate::leases::{bound, in_use, LeaseTable};
use crate::options::{sent, Settings};
use crate::policy::{any_is_for, applied, asked_for, first_applied, is_for, meets};
use crate::policy::{overridden, policy_match, sets, with_subnet, PolicyMatch};
use crate::policy::ResponseView;
use crate::pool::{ErrorView, Lease};
use crate::request::RequestView;
use crate::selection::{PoolMap, Request};
use crate::service::learned;

verus! {

/// A policy whose conditions the request does not meet is not for it, whatever its subpolicies;
/// one whose conditions it meets is for it, whatever its subpolicies; one without conditions is
/// for it exactly when a subpolicy is.
pub proof fn conditions_come_before_subpolicies(req: RequestView, policy: Policy)
    ensures
        is_for(req, policy) == match policy_match(req, policy) {
            PolicyMatch::MatchFailed => false,
            PolicyMatch::MatchSucceeded => true,
            PolicyMatch::NoMatch => any_is_for(req, policy.policies@),
        },
        !meets(req, policy) ==> !is_for(req, policy),
{
}

/// If none of the policies is for the request, the reply stays as it is.
pub proof fn without_policy_nothing_changes(
    req: RequestView,
    policies: Seq<Policy>,
    from: int,
    r: ResponseView,
)
    requires
        0 <= from,
        !any_is_for(req, policies),
    ensures
        first_applied(req, policies, from, r) == r,
    decreases policies.len() - from,
{
    if from < policies.len() {
        assert(!is_for(req, policies[from]));
        without_policy_nothing_changes(req, policies, from + 1, r);
    }
}

pub(crate) proof fn lemma_first_from(
    req: RequestView,
    policies: Seq<Policy>,
    from: int,
    i: int,
    r: ResponseView,
)
    requires
        0 <= from <= i < policies.len(),
        is_for(req, policies[i]),
        forall|k: int| from <= k < i ==> !is_for(req, #[trigger] policies[k]),
    ensures
        first_applied(req, policies, from, r) == applied(req, policies[i], r),
    decreases i - from,
{
    if from < i {
        lemma_first_from(req, policies, from + 1, i, r);
    }
}

/// The first policy that is for the request is applied, and no other.
pub proof fn first_policy_wins(req: RequestView, policies: Seq<Policy>, i: int, r: ResponseView)
    requires
        0 <= i < policies.len(),
        is_for(req, policies[i]),
        forall|k: int| 0 <= k < i ==> !is_for(req, #[trigger] policies[k]),
    ensures
        first_applied(req, policies, 0, r) == applied(req, policies[i], r),
{
    lemma_first_from(req, policies, 0, i, r);
}

/// Nothing changes in a setting.
pub open spec fn same_setting(a: Settings, b: Settings, option: DhcpOption) -> bool {
    a.contains_key(option) == b.contains_key(option) && (a.contains_key(option) ==> a[option]
        == b[option])
}

/// Defaults are only put where nothing is set.
pub proof fn defaults_do_not_override(
    req: RequestView,
    settings: Settings,
    policy: Policy,
    option: DhcpOption,
)
    requires
        settings.contains_key(option),
    ensures
        same_setting(settings, with_subnet(req, settings, policy.match_subnet), option),
{
}

/// What a subpolicy sets prevails over what the policy itself sets, and over the defaults.
pub proof fn subpolicy_prevails(req: RequestView, policy: Policy, i: int, r: ResponseView)
    requires
        0 <= i < policy.policies@.len(),
        is_for(req, policy.policies@[i]),
        forall|k: int| 0 <= k < i ==> !is_for(req, #[trigger] policy.policies@[k]),
    ensures
        ({
            let inner = applied(req, policy.policies@[i], overridden(req, policy, r));
            let outer = applied(req, policy, r);
            &&& outer.address == inner.address
            &&& forall|c: DhcpOption| #[trigger]
                inner.options.contains_key(c) ==> same_setting(inner.options, outer.options, c)
        }),
{
    first_policy_wins(req, policy.policies@, i, overridden(req, policy, r));
}

/// Policies only touch options that the client asked for, and leave the lease bounds alone.
pub proof fn only_asked_for_options_change(
    req: RequestView,
    policies: Seq<Policy>,
    from: int,
    r: ResponseView,
    option: DhcpOption,
)
    ensures
        !asked_for(req, option) ==> same_setting(
            r.options,
            first_applied(req, policies, from, r).options,
            option,
        ),
        first_applied(req, policies, from, r).minlease == r.minlease,
        first_applied(req, policies, from, r).maxlease == r.maxlease,
    decreases policies, policies.len() - from,
{
    if 0 <= from < policies.len() {
        if is_for(req, policies[from]) {
            lemma_only_asked_for(req, policies[from], r, option);
        } else {
            only_asked_for_options_change(req, policies, from + 1, r, option);
        }
    }
}

pub(crate) proof fn lemma_only_asked_for(
    req: RequestView,
    policy: Policy,
    r: ResponseView,
    option: DhcpOption,
)
    ensures
        !asked_for(req, option) ==> same_setting(
            r.options,
            applied(req, policy, r).options,
            option,
        ),
        applied(req, policy, r).minlease == r.minlease,
        applied(req, policy, r).maxlease == r.maxlease,
    decreases policy, 0int,
{
    only_asked_for_options_change(
        req,
        policy.policies@,
        0,
        overridden(req, policy, r),
        option,
    );
}

/// An option that is set stays set, though perhaps to something else.
pub proof fn settings_are_never_lost(
    req: RequestView,
    policies: Seq<Policy>,
    from: int,
    r: ResponseView,
    option: DhcpOption,
)
    requires
        r.options.contains_key(option),
    ensures
        first_applied(req, policies, from, r).options.contains_key(option),
    decreases policies, policies.len() - from,
{
    if 0 <= from < policies.len() {
        if is_for(req, policies[from]) {
            lemma_never_lost(req, policies[from], r, option);
        } else {
            settings_are_never_lost(req, policies, from + 1, r, option);
        }
    }
}

proof fn lemma_never_lost(req: RequestView, policy: Policy, r: ResponseView, option: DhcpOption)
    requires
        r.options.contains_key(option),
    ensures
        applied(req, policy, r).options.contains_key(option),
    decreases policy, 0int,
{
    settings_are_never_lost(req, policy.policies@, 0, overridden(req, policy, r), option);
}

/// A policy that is applied sets the option.
pub open spec fn touched(req: RequestView, policies: Seq<Policy>, from: int, option: DhcpOption)
    -> bool
    decreases policies, policies.len() - from,
{
    if from < 0 || from >= policies.len() {
        false
    } else if is_for(req, policies[from]) {
        sets(req, policies[from], option) || touched(
            req,
            policies[from].policies@,
            0,
            option,
        )
    } else {
        touched(req, policies, from + 1, option)
    }
}

/// An option that is set, and that no applied policy sets, stays as it is.
pub proof fn untouched_settings_stay(
    req: RequestView,
    policies: Seq<Policy>,
    from: int,
    r: ResponseView,
    option: DhcpOption,
)
    requires
        r.options.contains_key(option),
        !touched(req, policies, from, option),
    ensures
        same_setting(r.options, first_applied(req, policies, from, r).options, option),
    decreases policies, policies.len() - from,
{
    if 0 <= from < policies.len() {
        if is_for(req, policies[from]) {
            let policy = policies[from];
            untouched_settings_stay(
                req,
                policy.policies@,
                0,
                overridden(req, policy, r),
                option,
            );
            let inner = first_applied(req, policy.policies@, 0, overridden(req, policy, r));
            assert(same_setting(r.options, overridden(req, policy, r).options, option));
            assert(same_setting(r.options, inner.options, option));
            defaults_do_not_override(req, inner.options, policy, option);
            lemma_applied_at(req, policies, from, r);
        } else {
            untouched_settings_stay(req, policies, from + 1, r, option);
        }
    }
}

/// What a policy that is for the request leads to.
proof fn lemma_applied_at(req: RequestView, policies: Seq<Policy>, from: int, r: ResponseView)
    requires
        0 <= from < policies.len(),
        is_for(req, policies[from]),
    ensures
        ({
            let policy = policies[from];
            let inner = first_applied(req, policy.policies@, 0, overridden(req, policy, r));
            let outer = first_applied(req, policies, from, r);
            outer.address == inner.address && outer.options == with_subnet(
                req,
                inner.options,
                policy.match_subnet,
            )
        }),
{
    assert(first_applied(req, policies, from, r) == applied(req, policies[from], r));
}

/// What becomes of a setting depends on that setting alone, and not even on it where an applied
/// policy sets the option.
pub(crate) proof fn lemma_settings_are_separate(
    req: RequestView,
    policies: Seq<Policy>,
    from: int,
    r: ResponseView,
    s: ResponseView,
    option: DhcpOption,
)
    requires
        touched(req, policies, from, option) || same_setting(r.options, s.options, option),
    ensures
        same_setting(
            first_applied(req, policies, from, r).options,
            first_applied(req, policies, from, s).options,
            option,
        ),
    decreases policies, policies.len() - from,
{
    if 0 <= from < policies.len() {
        if is_for(req, policies[from]) {
            let policy = policies[from];
            lemma_settings_are_separate(
                req,
                policy.policies@,
                0,
                overridden(req, policy, r),
                overridden(req, policy, s),
                option,
            );
            lemma_applied_at(req, policies, from, r);
            lemma_applied_at(req, policies, from, s);
        } else {
            lemma_settings_are_separate(req, policies, from + 1, r, s, option);
        }
    }
}

/// The addresses are those of the applied policies, or stay as they are.
pub(crate) proof fn lemma_addresses_are_set_or_stay(
    req: RequestView,
    policies: Seq<Policy>,
    from: int,
    r: ResponseView,
    s: ResponseView,
)
    ensures
        ({
            let x = first_applied(req, policies, from, r).address;
            let y = first_applied(req, policies, from, s).address;
            x == y || (x == r.address && y == s.address)
        }),
    decreases policies, policies.len() - from,
{
    if 0 <= from < policies.len() {
        if is_for(req, policies[from]) {
            let policy = policies[from];
            lemma_addresses_are_set_or_stay(
                req,
                policy.policies@,
                0,
                overridden(req, policy, r),
                overridden(req, policy, s),
            );
            lemma_applied_at(req, policies, from, r);
            lemma_applied_at(req, policies, from, s);
        } else {
            lemma_addresses_are_set_or_stay(req, policies, from + 1, r, s);
        }
    }
}

/// Applying the same policies a second time changes nothing.
pub proof fn applying_again_changes_nothing(
    req: RequestView,
    policies: Seq<Policy>,
    from: int,
    r: ResponseView,
)
    ensures
        first_applied(req, policies, from, first_applied(req, policies, from, r))
            == first_applied(req, policies, from, r),
{
    let once = first_applied(req, policies, from, r);
    let twice = first_applied(req, policies, from, once);
    assert forall|c: DhcpOption| #[trigger] same_setting(once.options, twice.options, c) by {
        if touched(req, policies, from, c) {
            lemma_settings_are_separate(req, policies, from, r, once, c);
        } else if once.options.contains_key(c) {
            untouched_settings_stay(req, policies, from, once, c);
        } else {
            if r.options.contains_key(c) {
                settings_are_never_lost(req, policies, from, r, c);
            }
            lemma_settings_are_separate(req, policies, from, r, once, c);
        }
    }
    assert forall|c: DhcpOption| #[trigger] once.options.dom().contains(c)
        == twice.options.dom().contains(c) by {
        assert(same_setting(once.options, twice.options, c));
    }
    assert forall|c: DhcpOption| #[trigger] once.options.dom().contains(c) implies once.options[c]
        == twice.options[c] by {
        assert(same_setting(once.options, twice.options, c));
    }
    assert(once.options.dom() =~= twice.options.dom());
    assert(once.options =~= twice.options);
    lemma_addresses_are_set_or_stay(req, policies, from, once, r);
    only_asked_for_options_change(req, policies, from, once, 0);
}

/// An option that is set to `None` is not sent; all others are sent as they are set.
pub proof fn suppressed_options_are_not_sent(settings: Settings, option: DhcpOption)
    ensures
        option_bytes(sent(settings), option) == if settings.contains_key(option) {
            settings[option]
        } else {
            None
        },
{
}

/// A request is answered exactly when a policy is for it and names addresses, and the address is
/// allocated; a discovery is answered whatever server it names, a request only if it names this
/// server or none.
pub proof fn answered_exactly_when_an_address_is_found(
    req: RequestView,
    serverids: Set<u32>,
    policies: Seq<Policy>,
)
    ensures
        handled(req, serverids, policies) is Ok <==> {
            &&& any_is_for(req, policies)
            &&& configured(req, policies).address is Some
            &&& message_type(req.pkt.options) matches Some(m) && (m.0 == DHCPDISCOVER || (m.0
                == DHCPREQUEST && other_server(req, serverids) is None))
        },
        forall|pending: PendingView, outcome: Result<Lease, ErrorView>| #[trigger]
            completed(req, pending, outcome) is Ok <==> outcome is Ok,
{
}

/// A packet without a message type is invalid, and one of another type than a discovery or a
/// request is refused by its type.
pub proof fn other_messages_are_refused(
    req: RequestView,
    serverids: Set<u32>,
    policies: Seq<Policy>,
)
    ensures
        message_type(req.pkt.options) is None ==> handled(req, serverids, policies) == Err::<
            PendingView,
            DhcpErrorView,
        >(DhcpErrorView::ParseError(ParseError::InvalidPacket)),
        message_type(req.pkt.options) matches Some(m) && m.0 != DHCPDISCOVER && m.0 != DHCPREQUEST
            ==> handled(req, serverids, policies) == Err::<PendingView, DhcpErrorView>(
            DhcpErrorView::UnknownMessageType(message_type(req.pkt.options).unwrap()),
        ),
{
}

/// A request for another server is refused before anything is allocated.
pub proof fn other_servers_requests_are_refused(
    req: RequestView,
    serverids: Set<u32>,
    policies: Seq<Policy>,
    si: Ipv4Addr,
)
    requires
        message_type(req.pkt.options) == Some(MessageType(DHCPREQUEST)),
        option_address(req.pkt.options, OPTION_SERVERID) == Some(si),
        !serverids.contains(si.bits),
    ensures
        handled(req, serverids, policies) == Err::<PendingView, DhcpErrorView>(
            DhcpErrorView::OtherServer(si),
        ),
{
}

/// Every allocation is for the client that sent the request, from the addresses of the policies,
/// with the default bounds on the lease time.
pub proof fn allocations_use_the_default_bounds(
    req: RequestView,
    serverids: Set<u32>,
    policies: Seq<Policy>,
    pending: PendingView,
)
    requires
        handled(req, serverids, policies) == Ok::<PendingView, DhcpErrorView>(pending),
    ensures
        pending.address.clientid == req.pkt.client_id(),
        configured(req, policies).address == Some(pending.address.addresses),
        pending.address.minlease == DEFAULT_MIN_LEASE,
        pending.address.maxlease == DEFAULT_MAX_LEASE,
{
    only_asked_for_options_change(req, policies, 0, initial_response(req), 0);
}

/// A reply carries the transaction, the flags, the relay and the hardware address of the request,
/// and the address that was allocated.
pub proof fn reply_belongs_to_the_request(
    req: RequestView,
    pending: PendingView,
    lease: Lease,
)
    ensures
        ({
            let reply = reply_packet(req, pending, lease);
            &&& reply.xid == req.pkt.xid
            &&& reply.flags == req.pkt.flags
            &&& reply.giaddr == req.pkt.giaddr
            &&& reply.chaddr == req.pkt.chaddr
            &&& reply.yiaddr == lease.ip
        }),
{
}

/// An option that is set to an address is sent as that address.
proof fn lemma_option_holds_address(settings: Settings, option: DhcpOption, addr: Ipv4Addr)
    requires
        settings.contains_key(option),
        settings[option] == Some(addr.octets()),
    ensures
        option_address(sent(settings), option) == Some(addr),
{
    crate::ipv4::lemma_bits_of_octets(addr);
}

/// A request is acknowledged as such, by the server that it names, with the time of the lease.
pub proof fn request_is_acknowledged(req: RequestView, pending: PendingView, lease: Lease)
    requires
        pending.exchange == Exchange::Acknowledge,
    ensures
        ({
            let reply = reply_packet(req, pending, lease);
            &&& message_type(reply.options) == Some(MessageType(DHCPACK))
            &&& option_address(reply.options, OPTION_SERVERID) == Some(replying_server(req))
            &&& option_bytes(reply.options, OPTION_LEASETIME) == Some(
                be_bytes(low_half(lease.expire)),
            )
            &&& reply.ciaddr == req.pkt.ciaddr
        }),
{
    let settings = crate::handler::final_settings(req, pending, lease);
    lemma_option_holds_address(settings, OPTION_SERVERID, replying_server(req));
}

/// A discovery is answered with an offer by this server, unless a policy puts another message
/// type into its replies.
pub proof fn discovery_is_answered_with_an_offer(
    req: RequestView,
    serverids: Set<u32>,
    policies: Seq<Policy>,
    pending: PendingView,
    lease: Lease,
)
    requires
        message_type(req.pkt.options) == Some(MessageType(DHCPDISCOVER)),
        handled(req, serverids, policies) == Ok::<PendingView, DhcpErrorView>(pending),
        !touched(req, policies, 0, OPTION_MSGTYPE),
    ensures
        ({
            let reply = reply_packet(req, pending, lease);
            &&& message_type(reply.options) == Some(MessageType(DHCPOFFER))
            &&& option_address(reply.options, OPTION_SERVERID) == Some(req.serverip)
            &&& reply.ciaddr.bits == 0
        }),
{
    untouched_settings_stay(req, policies, 0, initial_response(req), OPTION_MSGTYPE);
    let settings = crate::handler::final_settings(req, pending, lease);
    lemma_option_holds_address(settings, OPTION_SERVERID, req.serverip);
}

/// The same of a reply for the client, whatever led to it.
proof fn lemma_reply_tells_what_is_recorded(
    pools: PoolMap,
    table: LeaseTable,
    req: RequestView,
    pending: PendingView,
    request: Request,
    states: Seq<AllocationView>,
    events: Seq<EventView>,
    outcome: Result<Lease, ErrorView>,
    reply: PacketView,
)
    requires
        pending.address.clientid == req.pkt.client_id(),
        request.clientid == pending.address.clientid,
        is_run(pools, table, request, states, events, outcome),
        completed(req, pending, outcome) == Ok::<PacketView, DhcpErrorView>(reply),
    ensures
        in_use(table, request.pool, reply.yiaddr.text(), request.at) ==> bound(
            table,
            request.pool,
            reply.yiaddr.text(),
            req.pkt.client_id(),
        ),
        outcome matches Ok(lease) && (states.last().phase matches PhaseView::Storing(recorded, now)
            && recorded == lease && states.last().action() == ActionView::Store(
            record_of(request.pool, req.pkt.client_id(), lease, now),
        )) && lease.ip == reply.yiaddr && DEFAULT_MIN_LEASE <= lease.expire <= DEFAULT_MAX_LEASE && (
        pending.exchange == Exchange::Acknowledge ==> option_address(
            reply.options,
            OPTION_LEASETIME,
        ) == Some(Ipv4Addr { bits: lease.expire as u32 })),
{
    allocation_gives_what_is_due(pools, table, request, states, events, outcome);
    let lease = outcome->Ok_0;
    if in_use(table, request.pool, lease.ip.text(), request.at) {
        address_in_use_is_not_given_away(pools, table, request, lease);
    }
    let settings = crate::handler::final_settings(req, pending, lease);
    if pending.exchange == Exchange::Acknowledge {
        lemma_option_holds_address(
            settings,
            OPTION_LEASETIME,
            Ipv4Addr { bits: lease.expire as u32 },
        );
    }
}

/// The address that a client is told is the client's own if it was in use, and the allocation has
/// recorded it for the client. The time that an acknowledgement tells is the time of the record,
/// and lies between the bounds.
pub proof fn reply_tells_what_is_recorded(
    pools: PoolMap,
    table: LeaseTable,
    req: RequestView,
    serverids: Set<u32>,
    policies: Seq<Policy>,
    pending: PendingView,
    request: Request,
    states: Seq<AllocationView>,
    events: Seq<EventView>,
    outcome: Result<Lease, ErrorView>,
    reply: PacketView,
)
    requires
        handled(req, serverids, policies) == Ok::<PendingView, DhcpErrorView>(pending),
        request.clientid == pending.address.clientid,
        request.requested == pending.address.requested,
        is_run(pools, table, request, states, events, outcome),
        completed(req, pending, outcome) == Ok::<PacketView, DhcpErrorView>(reply),
    ensures
        in_use(table, request.pool, reply.yiaddr.text(), request.at) ==> bound(
            table,
            request.pool,
            reply.yiaddr.text(),
            req.pkt.client_id(),
        ),
        outcome matches Ok(lease) && (states.last().phase matches PhaseView::Storing(recorded, now)
            && recorded == lease && states.last().action() == ActionView::Store(
            record_of(request.pool, req.pkt.client_id(), lease, now),
        )) && lease.ip == reply.yiaddr && DEFAULT_MIN_LEASE <= lease.expire <= DEFAULT_MAX_LEASE && (
        pending.exchange == Exchange::Acknowledge ==> option_address(
            reply.options,
            OPTION_LEASETIME,
        ) == Some(Ipv4Addr { bits: lease.expire as u32 })),
{
    allocations_use_the_default_bounds(req, serverids, policies, pending);
    lemma_reply_tells_what_is_recorded(
        pools,
        table,
        req,
        pending,
        request,
        states,
        events,
        outcome,
        reply,
    );
}

/// A server knows itself by every address that its replies have claimed, and forgets none.
pub proof fn own_replies_are_recognised(
    serverids: Set<u32>,
    reply: PacketView,
    req: RequestView,
    si: Ipv4Addr,
)
    requires
        option_address(reply.options, OPTION_SERVERID) == Some(si),
    ensures
        serverids.subset_of(learned(serverids, reply.options)),
        option_address(req.pkt.options, OPTION_SERVERID) == Some(si) ==> other_server(
            req,
            learned(serverids, reply.options),
        ) is None,
{
}

} // verus!
