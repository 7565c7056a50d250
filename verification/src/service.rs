//! The decisions of the DHCP service: what becomes of the packets that it receives.
use vstd::prelude::*;

use crate::config::PoolAddresses;
use crate::dhcppkt::{option_address, OptionMap, PacketView, ParseError, DHCP, OPTION_SERVERID};
use crate::handler::ServerIds;
use crate::ipv4::Ipv4Addr;
use crate::request::{DHCPRequest, RequestView};
use crate::pool;
use crate::pool::Pools;

verus! {

broadcast use vstd::std_specs::hash::group_hash_axioms;

/// Why a packet that was received is dropped, or its reply not sent.
#[derive(Clone, Copy, Debug, PartialEq, Eq, Structural)]
pub enum Dropped {
    /// The interface has no IPv4 address.
    NoAddress,
    /// The packet cannot be understood.
    Unparsable(ParseError),
    /// The interface has no Ethernet address.
    NoLinkLayer,
    /// The client has no Ethernet address.
    InvalidAddress,
}

/// What a packet is taken in as.
pub open spec fn is_received(
    dst: Option<Ipv4Addr>,
    parsed: Result<DHCP, ParseError>,
    intf: u32,
    r: Result<DHCPRequest, Dropped>,
) -> bool {
    match (dst, parsed) {
        (None, _) => r == Err::<DHCPRequest, Dropped>(Dropped::NoAddress),
        (Some(_), Err(e)) => r == Err::<DHCPRequest, Dropped>(Dropped::Unparsable(e)),
        (Some(serverip), Ok(pkt)) => r matches Ok(request) && request@ == (RequestView {
            pkt: pkt@,
            serverip,
            ifindex: intf,
        }),
    }
}

/// A packet is taken in exactly when its interface has an address and the packet can be understood.
/// It is then taken in as it is, on that address and interface. Without an address it is dropped for
/// that, whether or not it can be understood.
pub proof fn understood_packets_are_taken_in(
    dst: Option<Ipv4Addr>,
    parsed: Result<DHCP, ParseError>,
    intf: u32,
    r: Result<DHCPRequest, Dropped>,
)
    requires
        is_received(dst, parsed, intf, r),
    ensures
        r is Ok <==> dst is Some && parsed is Ok,
        r is Ok ==> r->Ok_0.pkt@ == parsed->Ok_0@ && r->Ok_0.serverip == dst->0 && r->Ok_0.ifindex
            == intf,
        r == Err::<DHCPRequest, Dropped>(Dropped::NoAddress) <==> dst is None,
        dst is Some && parsed is Err ==> r == Err::<DHCPRequest, Dropped>(
            Dropped::Unparsable(parsed->Err_0),
        ),
{
}

/// Takes in a packet that was received on an interface: its address, and the packet as it was
/// understood.
pub fn receive(dst: Option<Ipv4Addr>, parsed: Result<DHCP, ParseError>, intf: u32) -> (r: Result<
    DHCPRequest,
    Dropped,
>)
    ensures
        is_received(dst, parsed, intf, r),
        match (dst, parsed) {
            (None, _) => r == Err::<DHCPRequest, Dropped>(Dropped::NoAddress),
            (Some(_), Err(e)) => r == Err::<DHCPRequest, Dropped>(Dropped::Unparsable(e)),
            (Some(serverip), Ok(pkt)) => r matches Ok(request) && request@ == (RequestView {
                pkt: pkt@,
                serverip,
                ifindex: intf,
            }),
        },
{
    match dst {
        None => Err(Dropped::NoAddress),
        Some(serverip) => match parsed {
            Err(e) => Err(Dropped::Unparsable(e)),
            Ok(pkt) => Ok(DHCPRequest { pkt, serverip, ifindex: intf }),
        },
    }
}

/// The addresses of this server after it has sent a reply: those that it knew, and the one that
/// the reply claims.
pub open spec fn learned(serverids: Set<u32>, reply: OptionMap) -> Set<u32> {
    match option_address(reply, OPTION_SERVERID) {
        Some(si) => serverids.insert(si.bits),
        None => serverids,
    }
}

/// The pool that the addresses of policies are allocated in.
pub const POLICY_POOL: &'static str = "default";

/// The one pool that a request is served from: the addresses that its policies allow.
pub fn policy_pools(addresses: &PoolAddresses) -> (pools: Pools)
    ensures
        pools@ == Map::<Seq<char>, Seq<Ipv4Addr>>::empty().insert(POLICY_POOL@, addresses@),
{
    let mut pools = Pools::new();
    let _ = pools.add_pool(POLICY_POOL);
    let mut i: usize = 0;
    assert(addresses@.take(0) =~= Seq::<Ipv4Addr>::empty());
    while i < addresses.len()
        invariant
            i <= addresses@.len(),
            pools@ == Map::<Seq<char>, Seq<Ipv4Addr>>::empty().insert(
                POLICY_POOL@,
                addresses@.take(i as int),
            ),
        decreases addresses@.len() - i,
    {
        let ghost before = pools@;
        let _ = pools.add_addr(POLICY_POOL, addresses[i]);
        assert(addresses@.take(i + 1) =~= addresses@.take(i as int).push(addresses@[i as int]));
        assert(pools@ =~= Map::<Seq<char>, Seq<Ipv4Addr>>::empty().insert(
            POLICY_POOL@,
            addresses@.take(i + 1),
        ));
        i = i + 1;
    }
    assert(addresses@.take(i as int) =~= addresses@);
    pools
}

/// Remembers the address that a reply claims as one of this server's.
pub fn learn_serverid(serverids: &mut ServerIds, reply: &DHCP)
    ensures
        final(serverids)@ == learned(old(serverids)@, reply@.options),
{
    if let Some(si) = reply.options.get_serverid() {
        serverids.insert(si.bits);
    }
}

/// The first six bytes of a hardware address.
pub fn to_array(mac: &[u8]) -> (r: Option<[u8; 6]>)
    requires
        mac@.len() >= 6,
    ensures
        r matches Some(a) && a@ == mac@.take(6),
{
    let a: [u8; 6] = [mac[0], mac[1], mac[2], mac[3], mac[4], mac[5]];
    assert(a@ =~= mac@.take(6));
    Some(a)
}

/// The UDP port of DHCP servers.
pub const SERVER_PORT: u16 = 67;

/// An address and a port of it.
#[derive(Clone, Copy, Debug, PartialEq, Eq, Structural)]
pub struct Endpoint {
    pub ip: Ipv4Addr,
    pub port: u16,
}

/// The addresses of the frame that carries a reply.
#[derive(Clone, Copy, Debug, PartialEq, Eq)]
pub struct Envelope {
    /// The address and the port that the reply is from.
    pub source: Endpoint,
    /// The address and the port that the reply is for.
    pub destination: Endpoint,
    /// The Ethernet address that the reply is from.
    pub source_link: [u8; 6],
    /// The Ethernet address that the reply is for.
    pub destination_link: [u8; 6],
}

/// How a reply is addressed.
pub open spec fn is_addressed(
    request: RequestView,
    reply: PacketView,
    link: Option<[u8; 6]>,
    client: Endpoint,
    r: Result<Envelope, Dropped>,
) -> bool {
    match link {
        None => r == Err::<Envelope, Dropped>(Dropped::NoLinkLayer),
        Some(own) => {
            &&& r matches Ok(envelope)
            &&& envelope.source == (Endpoint { ip: request.serverip, port: SERVER_PORT })
            &&& envelope.destination == client
            &&& envelope.source_link == own
            &&& envelope.destination_link@ == reply.chaddr.take(6)
        },
    }
}

/// A reply is sent exactly when the interface has an Ethernet address: from that address, from the
/// address that the request was received on and the port of servers, to where the request came from,
/// and to each of the first six bytes of the client's hardware address.
pub proof fn replies_go_to_the_client(
    request: RequestView,
    reply: PacketView,
    link: Option<[u8; 6]>,
    client: Endpoint,
    r: Result<Envelope, Dropped>,
    i: int,
)
    requires
        reply.chaddr.len() >= 6,
        0 <= i < 6,
        is_addressed(request, reply, link, client, r),
    ensures
        r is Ok <==> link is Some,
        r is Err ==> r == Err::<Envelope, Dropped>(Dropped::NoLinkLayer),
        r is Ok ==> {
            &&& r->Ok_0.source.ip == request.serverip
            &&& r->Ok_0.source.port == 67
            &&& r->Ok_0.destination == client
            &&& r->Ok_0.source_link == link->0
            &&& r->Ok_0.destination_link@.len() == 6
            &&& r->Ok_0.destination_link@[i] == reply.chaddr[i]
        },
{
}

/// Addresses a reply to where the request came from, and to the client's Ethernet address, from
/// an interface with the Ethernet address given.
pub fn address_reply(
    request: &DHCPRequest,
    reply: &DHCP,
    link: Option<[u8; 6]>,
    client: Endpoint,
) -> (r: Result<Envelope, Dropped>)
    requires
        link is Some ==> reply@.chaddr.len() >= 6,
    ensures
        is_addressed(request@, reply@, link, client, r),
        match link {
            None => r == Err::<Envelope, Dropped>(Dropped::NoLinkLayer),
            Some(own) => {
                &&& r matches Ok(envelope)
                &&& envelope.source == (Endpoint { ip: request@.serverip, port: SERVER_PORT })
                &&& envelope.destination == client
                &&& envelope.source_link == own
                &&& envelope.destination_link@ == reply@.chaddr.take(6)
            },
        },
{
    match link {
        None => Err(Dropped::NoLinkLayer),
        Some(source_link) => match to_array(reply.chaddr.as_slice()) {
            Some(destination_link) => Ok(
                Envelope {
                    source: Endpoint { ip: request.serverip, port: SERVER_PORT },
                    destination: client,
                    source_link,
                    destination_link,
                },
            ),
            None => Err(Dropped::InvalidAddress),
        },
    }
}

/// Why no packet was received.
#[derive(Clone, Copy, Debug, PartialEq, Eq, Structural)]
pub enum ReceiveFailure {
    WouldBlock,
    Interrupted,
    Other,
}

/// Whether the service goes on after no packet was received.
pub fn goes_on_after(failure: ReceiveFailure) -> (r: bool)
    ensures
        r == (failure != ReceiveFailure::Other),
{
    match failure {
        ReceiveFailure::WouldBlock => true,
        ReceiveFailure::Interrupted => true,
        ReceiveFailure::Other => false,
    }
}

/// Why the service ended.
#[derive(Debug)]
pub enum RunError {
    Io(String),
    PoolError(pool::Error),
}

impl RunError {
    /// The error in words.
    pub open spec fn text(self) -> Seq<char> {
        match self {
            RunError::Io(e) => "I/O Error in DHCP: "@ + e@,
            RunError::PoolError(e) => "DHCP Pool Error: "@ + e@.text(),
        }
    }

    /// The error in words.
    pub fn to_string(&self) -> (s: String)
        ensures
            s@ == self.text(),
    {
        match self {
            RunError::Io(e) => "I/O Error in DHCP: ".to_owned().concat(e.as_str()),
            RunError::PoolError(e) => "DHCP Pool Error: ".to_owned().concat(
                e.to_string().as_str(),
            ),
        }
    }
}

} // verus!
