//! Which requests are answered, and with what, field by field and option by option.
use vstd::prelude::*;

use crate::applying::spells;
use crate::config::Policy;
use crate::dhcppkt::{message_type, option_address, option_bytes};
use crate::dhcppkt::{DhcpOption, MessageType, OptionMap, PacketView, ParseError};
use crate::handler::{completed, configured, handled, DhcpErrorView, Exchange, PendingView};
use crate::ipv4::{lemma_bits_of_octets, Ipv4Addr};
use crate::options::{sent, Settings};
use crate::policy::{first_applied, is_for, ResponseView};
use crate::pool::{ErrorView, Lease};
use crate::properties::{allocations_use_the_default_bounds, only_asked_for_options_change};
use crate::request::RequestView;
use crate::service::learned;

verus! {

/// The request has the option, and its four bytes are those of the address.
pub open spec fn holds_address(options: OptionMap, c: DhcpOption, addr: Ipv4Addr) -> bool {
    options.contains_key(c) && spells(options[c], addr.bits as int)
}

/// An address is read from an option exactly when the option has four bytes, and they are the
/// address; else none is read.
pub proof fn addresses_are_four_bytes(options: OptionMap, c: DhcpOption, addr: Ipv4Addr)
    ensures
        option_address(options, c) == Some(addr) <==> holds_address(options, c, addr),
        option_address(options, c) is None <==> !options.contains_key(c) || options[c].len() != 4,
{
}

/// The bytes of an option are read as they are.
pub proof fn bytes_are_read_as_they_are(options: OptionMap, c: DhcpOption, bytes: Seq<u8>)
    ensures
        option_bytes(options, c) == Some(bytes) <==> options.contains_key(c) && options[c] == bytes,
        option_bytes(options, c) is None <==> !options.contains_key(c),
{
}

/// The message type is the one byte of option 53; other lengths give none.
pub proof fn message_type_is_one_byte(options: OptionMap, m: u8)
    ensures
        message_type(options) == Some(MessageType(m)) <==> options.contains_key(53) && options[53]
            == seq![m],
        message_type(options) is None <==> !options.contains_key(53) || options[53].len() != 1,
{
    if options.contains_key(53) && options[53].len() == 1 {
        assert(options[53] =~= seq![options[53][0]]);
        if options[53][0] == m {
            assert(options[53] =~= seq![m]);
        }
    }
}

/// A client is known by option 61 if it sends it, whatever its hardware address; else by its
/// hardware address.
pub proof fn clients_are_known_by_their_identifier(pkt: PacketView)
    ensures
        pkt.options.contains_key(61) ==> pkt.client_id() == pkt.options[61],
        !pkt.options.contains_key(61) ==> pkt.client_id() == pkt.chaddr,
{
}

/// An option is sent exactly when it is set to a value, and with that value.
pub proof fn settings_are_sent(settings: Settings, c: DhcpOption)
    ensures
        sent(settings).contains_key(c) <==> settings.contains_key(c) && settings[c] is Some,
        settings.contains_key(c) && settings[c] is Some ==> sent(settings)[c] == settings[c]->0,
{
}

/// The packet has the type of a discovery.
pub open spec fn is_discovery(req: RequestView) -> bool {
    req.pkt.options.contains_key(53) && req.pkt.options[53] == seq![1u8]
}

/// The packet has the type of a request.
pub open spec fn is_request(req: RequestView) -> bool {
    req.pkt.options.contains_key(53) && req.pkt.options[53] == seq![3u8]
}

/// The packet names a server, by an address that is not one of the given.
pub open spec fn names_another(req: RequestView, serverids: Set<u32>, si: Ipv4Addr) -> bool {
    holds_address(req.pkt.options, 54, si) && !serverids.contains(si.bits)
}

/// What the policies make of an empty reply with the message type of an offer and this server's
/// address.
pub proof fn policies_start_from_an_offer(
    req: RequestView,
    policies: Seq<Policy>,
    start: ResponseView,
)
    requires
        start.address is None,
        start.minlease is None,
        start.maxlease is None,
        forall|c: DhcpOption| #[trigger] start.options.contains_key(c) <==> c == 53 || c == 54,
        start.options[53] == Some(seq![2u8]),
        start.options[54] is Some,
        spells(start.options[54]->0, req.serverip.bits as int),
    ensures
        configured(req, policies) == first_applied(req, policies, 0, start),
{
    let initial = crate::handler::initial_response(req);
    lemma_bits_of_octets(req.serverip);
    let a = start.options[54]->0;
    let b = req.serverip.octets();
    assert(a.len() == 4 && b.len() == 4);
    lemma_spelling_is_unique(a, b);
    assert forall|c: DhcpOption| #[trigger] start.options.dom().contains(c)
        == initial.options.dom().contains(c) by {
        assert(start.options.contains_key(c) <==> c == 53 || c == 54);
    }
    assert(start.options.dom() =~= initial.options.dom());
    assert(start.options =~= initial.options);
    assert(start == initial);
}

proof fn lemma_spelling_is_unique(a: Seq<u8>, b: Seq<u8>)
    requires
        a.len() == 4,
        b.len() == 4,
        a[0] * 0x100_0000 + a[1] * 0x1_0000 + a[2] * 0x100 + a[3] == b[0] * 0x100_0000 + b[1]
            * 0x1_0000 + b[2] * 0x100 + b[3],
    ensures
        a == b,
{
    assert(a =~= b);
}

/// A discovery is never refused for the server that it names, and a request never if it names none
/// or one of this server's addresses: such a packet is prepared to be answered exactly when a
/// policy is for it and the policies name addresses, whatever this server is known as.
pub proof fn what_is_for_this_server_is_answered(
    req: RequestView,
    serverids: Set<u32>,
    policies: Seq<Policy>,
)
    requires
        is_discovery(req) || (is_request(req) && forall|si: Ipv4Addr|
            !#[trigger] names_another(req, serverids, si)),
    ensures
        ({
            let some_is_for = exists|i: int|
                0 <= i < policies.len() && is_for(req, #[trigger] policies[i]);
            let r = handled(req, serverids, policies);
            &&& !some_is_for ==> r == Err::<PendingView, DhcpErrorView>(
                DhcpErrorView::NoPolicyConfigured,
            )
            &&& some_is_for && configured(req, policies).address is None ==> r == Err::<
                PendingView,
                DhcpErrorView,
            >(DhcpErrorView::NoLeasesAvailable)
            &&& some_is_for && configured(req, policies).address is Some ==> r is Ok
        }),
{
    message_type_is_one_byte(req.pkt.options, 1);
    message_type_is_one_byte(req.pkt.options, 3);
    if is_request(req) {
        if let Some(si) = option_address(req.pkt.options, 54) {
            addresses_are_four_bytes(req.pkt.options, 54, si);
            assert(!names_another(req, serverids, si));
        }
    }
}

/// A request without a server is answered whatever this server is known as.
pub proof fn requests_without_a_server_are_answered(
    req: RequestView,
    serverids: Set<u32>,
    policies: Seq<Policy>,
    i: int,
)
    requires
        is_request(req),
        !req.pkt.options.contains_key(54),
        0 <= i < policies.len(),
        is_for(req, policies[i]),
        configured(req, policies).address is Some,
    ensures
        handled(req, serverids, policies) is Ok,
{
    what_is_for_this_server_is_answered(req, serverids, policies);
}

/// A request for another server is refused with that server's address, whatever the policies are;
/// and this is the only refusal of that kind.
pub proof fn only_other_servers_requests_are_refused(
    req: RequestView,
    serverids: Set<u32>,
    policies: Seq<Policy>,
    si: Ipv4Addr,
)
    ensures
        handled(req, serverids, policies) == Err::<PendingView, DhcpErrorView>(
            DhcpErrorView::OtherServer(si),
        ) <==> is_request(req) && names_another(req, serverids, si),
{
    message_type_is_one_byte(req.pkt.options, 1);
    message_type_is_one_byte(req.pkt.options, 3);
    addresses_are_four_bytes(req.pkt.options, 54, si);
}

/// A packet whose option 53 is not one byte is invalid, and one whose type is neither discovery nor
/// request is refused by that type; no other packet is.
pub proof fn only_discoveries_and_requests_are_served(
    req: RequestView,
    serverids: Set<u32>,
    policies: Seq<Policy>,
    m: u8,
)
    ensures
        handled(req, serverids, policies) == Err::<PendingView, DhcpErrorView>(
            DhcpErrorView::ParseError(ParseError::InvalidPacket),
        ) <==> !req.pkt.options.contains_key(53) || req.pkt.options[53].len() != 1,
        handled(req, serverids, policies) == Err::<PendingView, DhcpErrorView>(
            DhcpErrorView::UnknownMessageType(MessageType(m)),
        ) <==> m != 1 && m != 3 && req.pkt.options.contains_key(53) && req.pkt.options[53]
            == seq![m],
{
    message_type_is_one_byte(req.pkt.options, m);
}

/// What is allocated for a packet that is answered: for the client by its identifier, of the
/// addresses of the policies, for between five minutes and a day. A discovery asks for the address
/// of option 50, if it holds one; a request for the address that the client uses, else for that of
/// option 50. The options are those of the policies.
pub proof fn allocation_is_what_the_client_asks_for(
    req: RequestView,
    serverids: Set<u32>,
    policies: Seq<Policy>,
    pending: PendingView,
    addr: Ipv4Addr,
)
    requires
        handled(req, serverids, policies) == Ok::<PendingView, DhcpErrorView>(pending),
    ensures
        is_discovery(req) || is_request(req),
        pending.exchange == if is_discovery(req) {
            Exchange::Offer
        } else {
            Exchange::Acknowledge
        },
        pending.address.clientid == if req.pkt.options.contains_key(61) {
            req.pkt.options[61]
        } else {
            req.pkt.chaddr
        },
        pending.address.requested == Some(addr) <==> if is_request(req) && req.pkt.ciaddr.bits != 0 {
            addr == req.pkt.ciaddr
        } else {
            holds_address(req.pkt.options, 50, addr)
        },
        Some(pending.address.addresses) == configured(req, policies).address,
        pending.address.minlease == 300,
        pending.address.maxlease == 86400,
        pending.options == configured(req, policies).options,
{
    message_type_is_one_byte(req.pkt.options, 1);
    message_type_is_one_byte(req.pkt.options, 3);
    assert(seq![1u8][0] != seq![3u8][0]);
    addresses_are_four_bytes(req.pkt.options, 50, addr);
    allocations_use_the_default_bounds(req, serverids, policies, pending);
}

/// A reply is made exactly when an address was allocated. It has the transaction, flags, relay and
/// hardware address of the request, the address that was allocated, and, in an acknowledgement, the
/// address that the client uses; nothing else of the header is set.
pub proof fn reply_header(
    req: RequestView,
    pending: PendingView,
    lease: Lease,
    error: ErrorView,
)
    ensures
        completed(req, pending, Ok(lease)) matches Ok(reply) && {
            &&& reply.op == 2
            &&& reply.htype == 1
            &&& reply.hlen == 6
            &&& reply.hops == 0
            &&& reply.xid == req.pkt.xid
            &&& reply.secs == 0
            &&& reply.flags == req.pkt.flags
            &&& reply.ciaddr.bits == if pending.exchange == Exchange::Offer {
                0
            } else {
                req.pkt.ciaddr.bits
            }
            &&& reply.yiaddr == lease.ip
            &&& reply.siaddr.bits == 0
            &&& reply.giaddr == req.pkt.giaddr
            &&& reply.chaddr == req.pkt.chaddr
            &&& reply.sname.len() == 0
            &&& reply.file.len() == 0
        },
        completed(req, pending, Err(error)) == Err::<PacketView, DhcpErrorView>(
            if error == ErrorView::NoAssignableAddress {
                DhcpErrorView::NoLeasesAvailable
            } else {
                DhcpErrorView::InternalError(error.text())
            },
        ),
{
}

/// A reply carries every option that the policies set to a value, with that value, and no option
/// that they leave unset or set to not being sent, but for the message type, the server and the
/// lease time of an acknowledgement, and the server of an offer.
pub proof fn reply_carries_what_the_policies_set(
    req: RequestView,
    pending: PendingView,
    lease: Lease,
    c: DhcpOption,
)
    requires
        c != 54,
        pending.exchange == Exchange::Acknowledge ==> c != 53 && c != 51,
    ensures
        completed(req, pending, Ok(lease)) matches Ok(reply) && {
            &&& reply.options.contains_key(c) <==> pending.options.contains_key(c)
                && pending.options[c] is Some
            &&& reply.options.contains_key(c) ==> reply.options[c] == pending.options[c]->0
        },
{
}

/// An offer names this server. An acknowledgement has its own message type, names the server that
/// the request names, else this one, and tells the low 32 bits of the lease time in seconds.
/// These prevail over what the policies set.
pub proof fn reply_names_the_server_and_the_time(
    req: RequestView,
    pending: PendingView,
    lease: Lease,
    si: Ipv4Addr,
)
    ensures
        completed(req, pending, Ok(lease)) matches Ok(reply) && {
            &&& pending.exchange == Exchange::Offer ==> holds_address(
                reply.options,
                54,
                req.serverip,
            )
            &&& pending.exchange == Exchange::Acknowledge ==> {
                &&& reply.options.contains_key(53) && reply.options[53] == seq![5u8]
                &&& reply.options.contains_key(51) && spells(
                    reply.options[51],
                    lease.expire as int % 0x1_0000_0000,
                )
                &&& holds_address(req.pkt.options, 54, si) ==> holds_address(reply.options, 54, si)
                &&& (!req.pkt.options.contains_key(54) || req.pkt.options[54].len() != 4)
                    ==> holds_address(reply.options, 54, req.serverip)
            }
        },
{
    addresses_are_four_bytes(req.pkt.options, 54, si);
    lemma_bits_of_octets(si);
    lemma_bits_of_octets(req.serverip);
    lemma_bits_of_octets(Ipv4Addr { bits: (lease.expire % 0x1_0000_0000) as u32 });
}

/// After a reply this server is known by the address in option 54 of the reply, if that has four
/// bytes, and by all addresses that it was known by; by no others.
pub proof fn server_learns_the_address_of_its_reply(
    serverids: Set<u32>,
    reply: OptionMap,
    x: u32,
)
    ensures
        learned(serverids, reply).contains(x) <==> serverids.contains(x) || holds_address(
            reply,
            54,
            Ipv4Addr { bits: x },
        ),
{
    addresses_are_four_bytes(reply, 54, Ipv4Addr { bits: x });
    if option_address(reply, 54) is Some {
        addresses_are_four_bytes(reply, 54, option_address(reply, 54)->0);
    }
}

/// A client that answers the offer or the acknowledgement of this server by the address in it is not
/// refused as another server's, now or later.
pub proof fn replies_can_be_answered(
    req: RequestView,
    pending: PendingView,
    lease: Lease,
    reply: PacketView,
    serverids: Set<u32>,
    more: OptionMap,
    answer: RequestView,
    policies: Seq<Policy>,
    si: Ipv4Addr,
)
    requires
        completed(req, pending, Ok(lease)) == Ok::<PacketView, DhcpErrorView>(reply),
        answer.pkt.options.contains_key(54),
        answer.pkt.options[54] == reply.options[54],
    ensures
        handled(answer, learned(serverids, reply.options), policies) != Err::<
            PendingView,
            DhcpErrorView,
        >(DhcpErrorView::OtherServer(si)),
        handled(answer, learned(learned(serverids, reply.options), more), policies) != Err::<
            PendingView,
            DhcpErrorView,
        >(DhcpErrorView::OtherServer(si)),
{
    let once = learned(serverids, reply.options);
    only_other_servers_requests_are_refused(answer, once, policies, si);
    only_other_servers_requests_are_refused(answer, learned(once, more), policies, si);
    server_learns_the_address_of_its_reply(serverids, reply.options, si.bits);
    server_learns_the_address_of_its_reply(once, more, si.bits);
    reply_names_the_server_and_the_time(req, pending, lease, si);
}

/// An option that the client lists, that the one policy for it names, and that is none of those
/// that a reply sets itself, reaches the client with the policy's value, in an offer as in an
/// acknowledgement.
pub proof fn policy_options_reach_the_client(
    req: RequestView,
    serverids: Set<u32>,
    policies: Seq<Policy>,
    i: int,
    pending: PendingView,
    lease: Lease,
    c: DhcpOption,
)
    requires
        handled(req, serverids, policies) == Ok::<PendingView, DhcpErrorView>(pending),
        crate::applying::is_first(req, policies, i),
        crate::applying::stands_alone(req, policies[i]),
        crate::applying::is_listed(req, c),
        policies[i].apply_other@.contains_key(c),
        c != 51 && c != 53 && c != 54,
    ensures
        completed(req, pending, Ok(lease)) matches Ok(reply) && match policies[i].apply_other@[c] {
            Some(v) => reply.options.contains_key(c) && reply.options[c] == v@,
            None => !reply.options.contains_key(c),
        },
{
    let start = crate::handler::initial_response(req);
    allocation_is_what_the_client_asks_for(req, serverids, policies, pending, req.serverip);
    crate::applying::only_the_first_policy_matters(req, policies, i, start);
    crate::applying::policy_sets_its_options(req, policies[i], start, c);
    reply_carries_what_the_policies_set(req, pending, lease, c);
}

/// An option that the client does not list, and that a reply does not set itself, is not sent.
pub proof fn unlisted_options_are_not_sent(
    req: RequestView,
    serverids: Set<u32>,
    policies: Seq<Policy>,
    pending: PendingView,
    lease: Lease,
    c: DhcpOption,
)
    requires
        handled(req, serverids, policies) == Ok::<PendingView, DhcpErrorView>(pending),
        !crate::applying::is_listed(req, c),
        c != 51 && c != 53 && c != 54,
    ensures
        completed(req, pending, Ok(lease)) matches Ok(reply) && !reply.options.contains_key(c),
{
    let start = crate::handler::initial_response(req);
    allocation_is_what_the_client_asks_for(req, serverids, policies, pending, req.serverip);
    only_asked_for_options_change(req, policies, 0, start, c);
    reply_carries_what_the_policies_set(req, pending, lease, c);
}

} // verus!
