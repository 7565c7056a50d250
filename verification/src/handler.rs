//! Handling of DHCP requests.
//!
//! Between the request and the reply an address has to be allocated. A `Pending` holds the reply
//! until then; it says what to allocate, and is completed with the outcome.
use std::collections::HashSet;

use vstd::prelude::*;

use crate::allocation::{DEFAULT_MAX_LEASE, DEFAULT_MIN_LEASE};
use crate::clock::{low_half, truncate};
use crate::config::{Config, Policy, PoolAddresses};
use crate::dhcppkt::{be_bytes, copy_bytes, message_type, option_address};
use crate::dhcppkt::{MessageType, PacketView, ParseError, DHCP};
use crate::dhcppkt::{DHCPACK, DHCPDISCOVER, DHCPOFFER, DHCPREQUEST};
use crate::dhcppkt::{HWTYPE_ETHERNET, OP_BOOTREPLY};
use crate::dhcppkt::{OPTION_ADDRESSREQUEST, OPTION_LEASETIME, OPTION_MSGTYPE, OPTION_SERVERID};
use crate::ipv4::Ipv4Addr;
use crate::options::{sent, ResponseOptions, Settings};
use crate::policy::{any_is_for, apply_policies, first_applied};
use crate::policy::{Response, ResponseView};
use crate::pool;
use crate::pool::{ErrorView, Lease};
use crate::request::{DHCPRequest, RequestView};
use crate::text;

verus! {

broadcast use vstd::std_specs::hash::group_hash_axioms;

/// The addresses by which this server is known, as numbers.
pub type ServerIds = HashSet<u32>;

/// Why a request is not answered.
#[derive(Debug, PartialEq, Eq)]
pub enum DhcpError {
    UnknownMessageType(MessageType),
    NoLeasesAvailable,
    ParseError(ParseError),
    InternalError(String),
    OtherServer(Ipv4Addr),
    NoPolicyConfigured,
}

/// The meaning of a `DhcpError`.
pub enum DhcpErrorView {
    UnknownMessageType(MessageType),
    NoLeasesAvailable,
    ParseError(ParseError),
    InternalError(Seq<char>),
    OtherServer(Ipv4Addr),
    NoPolicyConfigured,
}

impl View for DhcpError {
    type V = DhcpErrorView;

    open spec fn view(&self) -> DhcpErrorView {
        match *self {
            DhcpError::UnknownMessageType(m) => DhcpErrorView::UnknownMessageType(m),
            DhcpError::NoLeasesAvailable => DhcpErrorView::NoLeasesAvailable,
            DhcpError::ParseError(e) => DhcpErrorView::ParseError(e),
            DhcpError::InternalError(e) => DhcpErrorView::InternalError(e@),
            DhcpError::OtherServer(s) => DhcpErrorView::OtherServer(s),
            DhcpError::NoPolicyConfigured => DhcpErrorView::NoPolicyConfigured,
        }
    }
}

/// What to say of an error within the server.
pub open spec fn internal(quoted: Seq<char>) -> Seq<char> {
    "Internal Error: "@ + quoted
}

/// Says that there was an error within the server, given between quotes.
pub fn internal_error(quoted: &str) -> (s: String)
    ensures
        s@ == internal(quoted@),
{
    "Internal Error: ".to_owned().concat(quoted)
}

impl DhcpErrorView {
    /// The error in words.
    pub open spec fn text(self) -> Seq<char> {
        match self {
            DhcpErrorView::UnknownMessageType(m) => "Unknown Message Type: MessageType("@
                + text::decimal(m.0 as nat) + ")"@,
            DhcpErrorView::NoLeasesAvailable => "No Leases Available"@,
            DhcpErrorView::ParseError(ParseError::InvalidPacket) => "Parse Error: InvalidPacket"@,
            DhcpErrorView::InternalError(e) => internal(text::debug_quoted(e)),
            DhcpErrorView::OtherServer(s) => "Packet for a different DHCP server: "@ + s.text(),
            DhcpErrorView::NoPolicyConfigured => "No policy configured for client"@,
        }
    }
}

impl DhcpError {
    /// The error in words.
    pub fn to_string(&self) -> (s: String)
        ensures
            s@ == self@.text(),
    {
        match self {
            DhcpError::UnknownMessageType(m) => {
                let mut s = "Unknown Message Type: MessageType(".to_owned();
                text::push_decimal(&mut s, m.0 as u32);
                s.append(")");
                s
            },
            DhcpError::NoLeasesAvailable => "No Leases Available".to_owned(),
            DhcpError::ParseError(ParseError::InvalidPacket) => {
                "Parse Error: InvalidPacket".to_owned()
            },
            DhcpError::InternalError(e) => internal_error(text::quoted(e.as_str()).as_str()),
            DhcpError::OtherServer(s) => "Packet for a different DHCP server: ".to_owned().concat(
                s.to_string().as_str(),
            ),
            DhcpError::NoPolicyConfigured => "No policy configured for client".to_owned(),
        }
    }
}

/// What to allocate for a client.
#[derive(Debug)]
pub struct AddressRequest {
    pub clientid: Vec<u8>,
    pub requested: Option<Ipv4Addr>,
    pub addresses: PoolAddresses,
    /// The shortest lease time in seconds.
    pub minlease: u64,
    /// The longest lease time in seconds.
    pub maxlease: u64,
}

/// The meaning of an `AddressRequest`.
pub struct AddressRequestView {
    pub clientid: Seq<u8>,
    pub requested: Option<Ipv4Addr>,
    pub addresses: Seq<Ipv4Addr>,
    pub minlease: u64,
    pub maxlease: u64,
}

impl View for AddressRequest {
    type V = AddressRequestView;

    open spec fn view(&self) -> AddressRequestView {
        AddressRequestView {
            clientid: self.clientid@,
            requested: self.requested,
            addresses: self.addresses@,
            minlease: self.minlease,
            maxlease: self.maxlease,
        }
    }
}

/// What the client is told of its address.
#[derive(Clone, Copy, Debug, PartialEq, Eq, Structural)]
pub enum Exchange {
    /// That it can have it.
    Offer,
    /// That it has it.
    Acknowledge,
}

/// A reply for which an address has to be allocated.
pub struct Pending {
    pub exchange: Exchange,
    pub address: AddressRequest,
    pub options: ResponseOptions,
}

/// The meaning of a `Pending`.
pub struct PendingView {
    pub exchange: Exchange,
    pub address: AddressRequestView,
    pub options: Settings,
}

impl View for Pending {
    type V = PendingView;

    open spec fn view(&self) -> PendingView {
        PendingView {
            exchange: self.exchange,
            address: self.address@,
            options: self.options@,
        }
    }
}

/// A result, with the meaning of its parts.
pub open spec fn pending_view(r: Result<Pending, DhcpError>) -> Result<
    PendingView,
    DhcpErrorView,
> {
    match r {
        Ok(pending) => Ok(pending@),
        Err(e) => Err(e@),
    }
}

/// A result, with the meaning of its parts.
pub open spec fn reply_view(r: Result<DHCP, DhcpError>) -> Result<PacketView, DhcpErrorView> {
    match r {
        Ok(pkt) => Ok(pkt@),
        Err(e) => Err(e@),
    }
}

/// The settings of every reply before policies are applied.
pub open spec fn initial_settings(req: RequestView) -> Settings {
    Settings::empty().insert(OPTION_MSGTYPE, Some(seq![DHCPOFFER])).insert(
        OPTION_SERVERID,
        Some(req.serverip.octets()),
    )
}

/// The reply before policies are applied.
pub open spec fn initial_response(req: RequestView) -> ResponseView {
    ResponseView { options: initial_settings(req), address: None, minlease: None, maxlease: None }
}

/// The reply after the policies were applied.
pub open spec fn configured(req: RequestView, policies: Seq<Policy>) -> ResponseView {
    first_applied(req, policies, 0, initial_response(req))
}

/// The reply that an address has to be allocated for, or why there is none.
pub open spec fn prepared(
    req: RequestView,
    policies: Seq<Policy>,
    exchange: Exchange,
    requested: Option<Ipv4Addr>,
) -> Result<PendingView, DhcpErrorView> {
    let response = configured(req, policies);
    if !any_is_for(req, policies) {
        Err(DhcpErrorView::NoPolicyConfigured)
    } else {
        match response.address {
            None => Err(DhcpErrorView::NoLeasesAvailable),
            Some(addresses) => Ok(
                PendingView {
                    exchange,
                    address: AddressRequestView {
                        clientid: req.pkt.client_id(),
                        requested,
                        addresses,
                        minlease: match response.minlease {
                            Some(t) => t,
                            None => DEFAULT_MIN_LEASE,
                        },
                        maxlease: match response.maxlease {
                            Some(t) => t,
                            None => DEFAULT_MAX_LEASE,
                        },
                    },
                    options: response.options,
                },
            ),
        }
    }
}

fn prepare(req: &DHCPRequest, conf: &Config, exchange: Exchange, requested: Option<Ipv4Addr>) -> (r:
    Result<Pending, DhcpError>)
    ensures
        pending_view(r) == prepared(req@, conf.dhcp.policies@, exchange, requested),
{
    let mut response = Response::default();
    response.options = ResponseOptions::default().set_option(
        &OPTION_MSGTYPE,
        &MessageType(DHCPOFFER),
    ).set_option(&OPTION_SERVERID, &req.serverip);
    assert(response@ == initial_response(req@));
    if !apply_policies(req, conf.dhcp.policies.as_slice(), &mut response) {
        return Err(DhcpError::NoPolicyConfigured);
    }
    match response.address {
        None => Err(DhcpError::NoLeasesAvailable),
        Some(addresses) => Ok(
            Pending {
                exchange,
                address: AddressRequest {
                    clientid: req.pkt.get_client_id(),
                    requested,
                    addresses,
                    minlease: match response.minlease {
                        Some(t) => t,
                        None => DEFAULT_MIN_LEASE,
                    },
                    maxlease: match response.maxlease {
                        Some(t) => t,
                        None => DEFAULT_MAX_LEASE,
                    },
                },
                options: response.options,
            },
        ),
    }
}

/// Prepares the offer of an address to a client that looks for a server.
pub fn handle_discover(req: &DHCPRequest, conf: &Config) -> (r: Result<Pending, DhcpError>)
    ensures
        pending_view(r) == prepared(
            req@,
            conf.dhcp.policies@,
            Exchange::Offer,
            option_address(req@.pkt.options, OPTION_ADDRESSREQUEST),
        ),
{
    prepare(req, conf, Exchange::Offer, req.pkt.options.get_address_request())
}

/// The address that a client requests: the one that it uses, else the one that it asks for.
pub open spec fn claimed_address(req: RequestView) -> Option<Ipv4Addr> {
    if req.pkt.ciaddr.bits != 0 {
        Some(req.pkt.ciaddr)
    } else {
        option_address(req.pkt.options, OPTION_ADDRESSREQUEST)
    }
}

/// The server that the request is for, if it is not this one.
pub open spec fn other_server(req: RequestView, serverids: Set<u32>) -> Option<Ipv4Addr> {
    match option_address(req.pkt.options, OPTION_SERVERID) {
        Some(si) if !serverids.contains(si.bits) => Some(si),
        _ => None,
    }
}

/// Prepares the acknowledgement of an address that a client requests.
pub fn handle_request(req: &DHCPRequest, serverids: ServerIds, conf: &Config) -> (r: Result<
    Pending,
    DhcpError,
>)
    ensures
        pending_view(r) == match other_server(req@, serverids@) {
            Some(si) => Err(DhcpErrorView::OtherServer(si)),
            None => prepared(
                req@,
                conf.dhcp.policies@,
                Exchange::Acknowledge,
                claimed_address(req@),
            ),
        },
{
    if let Some(si) = req.pkt.options.get_serverid() {
        if !serverids.contains(&si.bits) {
            return Err(DhcpError::OtherServer(si));
        }
    }
    let requested = if !req.pkt.ciaddr.is_unspecified() {
        Some(req.pkt.ciaddr)
    } else {
        req.pkt.options.get_address_request()
    };
    prepare(req, conf, Exchange::Acknowledge, requested)
}

/// What a request is prepared to be answered, by its message type.
pub open spec fn handled(req: RequestView, serverids: Set<u32>, policies: Seq<Policy>) -> Result<
    PendingView,
    DhcpErrorView,
> {
    match message_type(req.pkt.options) {
        None => Err(DhcpErrorView::ParseError(ParseError::InvalidPacket)),
        Some(m) => if m.0 == DHCPDISCOVER {
            prepared(
                req,
                policies,
                Exchange::Offer,
                option_address(req.pkt.options, OPTION_ADDRESSREQUEST),
            )
        } else if m.0 == DHCPREQUEST {
            match other_server(req, serverids) {
                Some(si) => Err(DhcpErrorView::OtherServer(si)),
                None => prepared(req, policies, Exchange::Acknowledge, claimed_address(req)),
            }
        } else {
            Err(DhcpErrorView::UnknownMessageType(m))
        },
    }
}

/// Handles a request up to the allocation of an address.
pub fn handle_pkt(request: &DHCPRequest, serverids: ServerIds, conf: &Config) -> (r: Result<
    Pending,
    DhcpError,
>)
    ensures
        pending_view(r) == handled(request@, serverids@, conf.dhcp.policies@),
{
    match request.pkt.options.get_messagetype() {
        Some(m) => {
            if m.0 == DHCPDISCOVER {
                handle_discover(request, conf)
            } else if m.0 == DHCPREQUEST {
                handle_request(request, serverids, conf)
            } else {
                Err(DhcpError::UnknownMessageType(m))
            }
        },
        None => Err(DhcpError::ParseError(ParseError::InvalidPacket)),
    }
}

/// The server that a reply is from: this one by the name that the client knows it by.
pub open spec fn replying_server(req: RequestView) -> Ipv4Addr {
    match option_address(req.pkt.options, OPTION_SERVERID) {
        Some(si) => si,
        None => req.serverip,
    }
}

/// The settings of the reply once an address is allocated.
pub open spec fn final_settings(req: RequestView, pending: PendingView, lease: Lease) -> Settings {
    match pending.exchange {
        Exchange::Offer => pending.options.insert(
            OPTION_SERVERID,
            Some(req.serverip.octets()),
        ),
        Exchange::Acknowledge => pending.options.insert(
            OPTION_MSGTYPE,
            Some(seq![DHCPACK]),
        ).insert(OPTION_SERVERID, Some(replying_server(req).octets())).insert(
            OPTION_LEASETIME,
            Some(be_bytes(low_half(lease.expire))),
        ),
    }
}

/// The reply that gives a client its address.
pub open spec fn reply_packet(req: RequestView, pending: PendingView, lease: Lease) -> PacketView {
    PacketView {
        op: OP_BOOTREPLY,
        htype: HWTYPE_ETHERNET,
        hlen: 6,
        hops: 0,
        xid: req.pkt.xid,
        secs: 0,
        flags: req.pkt.flags,
        ciaddr: match pending.exchange {
            Exchange::Offer => Ipv4Addr { bits: 0 },
            Exchange::Acknowledge => req.pkt.ciaddr,
        },
        yiaddr: lease.ip,
        siaddr: Ipv4Addr { bits: 0 },
        giaddr: req.pkt.giaddr,
        chaddr: req.pkt.chaddr,
        sname: Seq::empty(),
        file: Seq::empty(),
        options: sent(final_settings(req, pending, lease)),
    }
}

/// The answer once the allocation has ended.
pub open spec fn completed(
    req: RequestView,
    pending: PendingView,
    outcome: Result<Lease, ErrorView>,
) -> Result<PacketView, DhcpErrorView> {
    match outcome {
        Ok(lease) => Ok(reply_packet(req, pending, lease)),
        Err(ErrorView::NoAssignableAddress) => Err(DhcpErrorView::NoLeasesAvailable),
        Err(e) => Err(DhcpErrorView::InternalError(e.text())),
    }
}

/// Completes a reply with the outcome of the allocation.
pub fn complete(req: &DHCPRequest, pending: Pending, outcome: Result<Lease, pool::Error>) -> (r:
    Result<DHCP, DhcpError>)
    ensures
        reply_view(r) == completed(req@, pending@, pool::result_view(outcome)),
{
    let ghost waiting = pending@;
    match outcome {
        Ok(lease) => {
            let (ciaddr, options) = match pending.exchange {
                Exchange::Offer => (
                    Ipv4Addr::unspecified(),
                    pending.options.set_option(&OPTION_SERVERID, &req.serverip),
                ),
                Exchange::Acknowledge => {
                    let serverid = match req.pkt.options.get_serverid() {
                        Some(si) => si,
                        None => req.serverip,
                    };
                    let leasetime: u32 = truncate(lease.expire);
                    (
                        req.pkt.ciaddr,
                        pending.options.set_option(
                            &OPTION_MSGTYPE,
                            &MessageType(DHCPACK),
                        ).set_option(&OPTION_SERVERID, &serverid).set_option(
                            &OPTION_LEASETIME,
                            &leasetime,
                        ),
                    )
                },
            };
            assert(options@ == final_settings(req@, waiting, lease));
            Ok(
                DHCP {
                    op: OP_BOOTREPLY,
                    htype: HWTYPE_ETHERNET,
                    hlen: 6,
                    hops: 0,
                    xid: req.pkt.xid,
                    secs: 0,
                    flags: req.pkt.flags,
                    ciaddr,
                    yiaddr: lease.ip,
                    siaddr: Ipv4Addr::unspecified(),
                    giaddr: req.pkt.giaddr,
                    chaddr: copy_bytes(&req.pkt.chaddr),
                    sname: Vec::new(),
                    file: Vec::new(),
                    options: options.to_options(),
                },
            )
        },
        Err(pool::Error::NoAssignableAddress) => Err(DhcpError::NoLeasesAvailable),
        Err(e) => Err(DhcpError::InternalError(e.to_string())),
    }
}

} // verus!
