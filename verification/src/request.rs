//! Requests of DHCP clients.
use vstd::prelude::*;

use crate::dhcppkt::{DhcpOptions, OptionMap, PacketView, DHCP, HWTYPE_ETHERNET, OP_BOOTREQUEST};
use crate::ipv4::Ipv4Addr;

verus! {

/// A request, and where it was received.
#[derive(Debug)]
pub struct DHCPRequest {
    /// The DHCP request packet.
    pub pkt: DHCP,
    /// The IP address that the request was received on.
    pub serverip: Ipv4Addr,
    /// The interface index that the request was received on.
    pub ifindex: u32,
}

/// The meaning of a `DHCPRequest`.
pub struct RequestView {
    pub pkt: PacketView,
    pub serverip: Ipv4Addr,
    pub ifindex: u32,
}

impl View for DHCPRequest {
    type V = RequestView;

    open spec fn view(&self) -> RequestView {
        RequestView { pkt: self.pkt@, serverip: self.serverip, ifindex: self.ifindex }
    }
}

impl Default for DHCPRequest {
    /// A request without options, from the hardware address 00:00:5e:00:53:00, which is reserved
    /// for documentation by RFC7042.
    fn default() -> (request: DHCPRequest)
        ensures
            request@ == (RequestView {
                pkt: PacketView {
                    op: OP_BOOTREQUEST,
                    htype: HWTYPE_ETHERNET,
                    hlen: 6,
                    hops: 0,
                    xid: 0,
                    secs: 0,
                    flags: 0,
                    ciaddr: Ipv4Addr { bits: 0 },
                    yiaddr: Ipv4Addr { bits: 0 },
                    siaddr: Ipv4Addr { bits: 0 },
                    giaddr: Ipv4Addr { bits: 0 },
                    chaddr: seq![0u8, 0u8, 0x5eu8, 0u8, 0x53u8, 0u8],
                    sname: Seq::empty(),
                    file: Seq::empty(),
                    options: OptionMap::empty(),
                },
                serverip: Ipv4Addr { bits: 0 },
                ifindex: 0,
            }),
    {
        let chaddr: Vec<u8> = vec![0x00, 0x00, 0x5e, 0x00, 0x53, 0x00];
        assert(chaddr@ =~= seq![0u8, 0u8, 0x5eu8, 0u8, 0x53u8, 0u8]);
        DHCPRequest {
            pkt: DHCP {
                op: OP_BOOTREQUEST,
                htype: HWTYPE_ETHERNET,
                hlen: 6,
                hops: 0,
                xid: 0,
                secs: 0,
                flags: 0,
                ciaddr: Ipv4Addr::unspecified(),
                yiaddr: Ipv4Addr::unspecified(),
                siaddr: Ipv4Addr::unspecified(),
                giaddr: Ipv4Addr::unspecified(),
                chaddr,
                sname: Vec::new(),
                file: Vec::new(),
                options: DhcpOptions::default(),
            },
            serverip: Ipv4Addr::unspecified(),
            ifindex: 0,
        }
    }
}

} // verus!
