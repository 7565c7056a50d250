//! DHCP packets: what the server reads of a request and writes into a reply.
use std::collections::HashMap;

use vstd::prelude::*;

use crate::ipv4::Ipv4Addr;

verus! {

broadcast use vstd::std_specs::hash::group_hash_axioms;

/// The code of a DHCP option.
pub type DhcpOption = u8;

pub const OPTION_NETMASK: DhcpOption = 1;

pub const OPTION_HOSTNAME: DhcpOption = 12;

pub const OPTION_BROADCAST: DhcpOption = 28;

pub const OPTION_ADDRESSREQUEST: DhcpOption = 50;

pub const OPTION_LEASETIME: DhcpOption = 51;

pub const OPTION_MSGTYPE: DhcpOption = 53;

pub const OPTION_SERVERID: DhcpOption = 54;

pub const OPTION_PARAMLIST: DhcpOption = 55;

pub const OPTION_CLIENTID: DhcpOption = 61;

pub const OP_BOOTREQUEST: u8 = 1;

pub const OP_BOOTREPLY: u8 = 2;

pub const HWTYPE_ETHERNET: u8 = 1;

/// The type of a DHCP message.
#[derive(Clone, Copy, Debug, PartialEq, Eq, Structural)]
pub struct MessageType(pub u8);

pub const DHCPDISCOVER: u8 = 1;

pub const DHCPOFFER: u8 = 2;

pub const DHCPREQUEST: u8 = 3;

pub const DHCPACK: u8 = 5;

/// Why a packet could not be understood.
#[derive(Clone, Copy, Debug, PartialEq, Eq, Structural)]
pub enum ParseError {
    InvalidPacket,
}

/// A value that options can carry.
pub trait Serialise {
    /// The bytes of the value in a packet.
    spec fn bytes(&self) -> Seq<u8>;

    /// Appends the bytes of the value.
    fn serialise(&self, v: &mut Vec<u8>)
        ensures
            final(v)@ == old(v)@ + self.bytes(),
    ;
}

/// The bytes of a number, the most significant first.
pub open spec fn be_bytes(n: u32) -> Seq<u8> {
    (Ipv4Addr { bits: n }).octets()
}

impl Serialise for u32 {
    open spec fn bytes(&self) -> Seq<u8> {
        be_bytes(*self)
    }

    fn serialise(&self, v: &mut Vec<u8>) {
        let n: u32 = *self;
        v.push((n / 0x100_0000) as u8);
        v.push((n / 0x1_0000 % 0x100) as u8);
        v.push((n / 0x100 % 0x100) as u8);
        v.push((n % 0x100) as u8);
        assert(v@ =~= old(v)@ + self.bytes());
    }
}

impl Serialise for Ipv4Addr {
    open spec fn bytes(&self) -> Seq<u8> {
        self.octets()
    }

    fn serialise(&self, v: &mut Vec<u8>) {
        self.bits.serialise(v);
    }
}

impl Serialise for MessageType {
    open spec fn bytes(&self) -> Seq<u8> {
        seq![self.0]
    }

    fn serialise(&self, v: &mut Vec<u8>) {
        v.push(self.0);
        assert(v@ =~= old(v)@ + self.bytes());
    }
}

impl Serialise for Vec<u8> {
    open spec fn bytes(&self) -> Seq<u8> {
        self@
    }

    fn serialise(&self, v: &mut Vec<u8>) {
        v.extend_from_slice(self.as_slice());
        assert(v@ =~= old(v)@ + self.bytes());
    }
}

/// A copy of some bytes.
pub(crate) fn copy_bytes(bytes: &Vec<u8>) -> (copy: Vec<u8>)
    ensures
        copy@ == bytes@,
{
    let copy = bytes.clone();
    assert(copy@ =~= bytes@);
    copy
}

/// Whether two byte strings are equal.
pub(crate) fn bytes_equal(a: &Vec<u8>, b: &Vec<u8>) -> (r: bool)
    ensures
        r == (a@ == b@),
{
    if a.len() != b.len() {
        return false;
    }
    let mut i: usize = 0;
    while i < a.len()
        invariant
            a@.len() == b@.len(),
            i <= a@.len(),
            forall|k: int| 0 <= k < i ==> a@[k] == b@[k],
        decreases a@.len() - i,
    {
        if a[i] != b[i] {
            return false;
        }
        i = i + 1;
    }
    assert(a@ =~= b@);
    true
}

/// The options of a packet.
#[derive(Debug)]
pub struct DhcpOptions {
    pub other: HashMap<DhcpOption, Vec<u8>>,
}

/// The bytes of each option of a packet.
pub type OptionMap = Map<DhcpOption, Seq<u8>>;

impl View for DhcpOptions {
    type V = OptionMap;

    open spec fn view(&self) -> OptionMap {
        self.other@.map_values(|v: Vec<u8>| v@)
    }
}

/// The bytes of an option, if there is such an option.
pub open spec fn option_bytes(options: OptionMap, option: DhcpOption) -> Option<Seq<u8>> {
    if options.contains_key(option) {
        Some(options[option])
    } else {
        None
    }
}

/// The address that an option holds: its four bytes.
pub open spec fn option_address(options: OptionMap, option: DhcpOption) -> Option<Ipv4Addr> {
    match option_bytes(options, option) {
        Some(b) if b.len() == 4 => Some(
            Ipv4Addr {
                bits: (b[0] * 0x100_0000 + b[1] * 0x1_0000 + b[2] * 0x100 + b[3]) as u32,
            },
        ),
        _ => None,
    }
}

/// The message type of a packet: the one byte of its option.
pub open spec fn message_type(options: OptionMap) -> Option<MessageType> {
    match option_bytes(options, OPTION_MSGTYPE) {
        Some(b) if b.len() == 1 => Some(MessageType(b[0])),
        _ => None,
    }
}

impl Default for DhcpOptions {
    /// No options.
    fn default() -> (options: DhcpOptions)
        ensures
            options@ == OptionMap::empty(),
    {
        let options = DhcpOptions { other: HashMap::new() };
        assert(options@ =~= OptionMap::empty());
        options
    }
}

impl DhcpOptions {
    /// The bytes of an option.
    pub fn get_option(&self, option: &DhcpOption) -> (r: Option<Vec<u8>>)
        ensures
            match r {
                Some(v) => option_bytes(self@, *option) == Some(v@),
                None => option_bytes(self@, *option) is None,
            },
    {
        match self.other.get(option) {
            Some(v) => Some(copy_bytes(v)),
            None => None,
        }
    }

    /// The address that an option holds.
    pub fn get_address(&self, option: &DhcpOption) -> (r: Option<Ipv4Addr>)
        ensures
            r == option_address(self@, *option),
    {
        match self.other.get(option) {
            Some(v) => {
                if v.len() == 4 {
                    Some(Ipv4Addr::new(v[0], v[1], v[2], v[3]))
                } else {
                    None
                }
            },
            None => None,
        }
    }

    /// The message type.
    pub fn get_messagetype(&self) -> (r: Option<MessageType>)
        ensures
            r == message_type(self@),
    {
        match self.other.get(&OPTION_MSGTYPE) {
            Some(v) => {
                if v.len() == 1 {
                    Some(MessageType(v[0]))
                } else {
                    None
                }
            },
            None => None,
        }
    }

    /// The server that the packet is from or for.
    pub fn get_serverid(&self) -> (r: Option<Ipv4Addr>)
        ensures
            r == option_address(self@, OPTION_SERVERID),
    {
        self.get_address(&OPTION_SERVERID)
    }

    /// The address that the client asks for.
    pub fn get_address_request(&self) -> (r: Option<Ipv4Addr>)
        ensures
            r == option_address(self@, OPTION_ADDRESSREQUEST),
    {
        self.get_address(&OPTION_ADDRESSREQUEST)
    }

    /// The lease time in seconds: the four bytes of its option as a number.
    pub fn get_leasetime(&self) -> (r: Option<u32>)
        ensures
            match option_address(self@, OPTION_LEASETIME) {
                Some(n) => r == Some(n.bits),
                None => r is None,
            },
    {
        match self.get_address(&OPTION_LEASETIME) {
            Some(n) => Some(n.bits),
            None => None,
        }
    }
}

/// A DHCP packet.
#[derive(Debug)]
pub struct DHCP {
    pub op: u8,
    pub htype: u8,
    pub hlen: u8,
    pub hops: u8,
    pub xid: u32,
    pub secs: u16,
    pub flags: u16,
    pub ciaddr: Ipv4Addr,
    pub yiaddr: Ipv4Addr,
    pub siaddr: Ipv4Addr,
    pub giaddr: Ipv4Addr,
    pub chaddr: Vec<u8>,
    pub sname: Vec<u8>,
    pub file: Vec<u8>,
    pub options: DhcpOptions,
}

/// The meaning of a `DHCP`.
pub struct PacketView {
    pub op: u8,
    pub htype: u8,
    pub hlen: u8,
    pub hops: u8,
    pub xid: u32,
    pub secs: u16,
    pub flags: u16,
    pub ciaddr: Ipv4Addr,
    pub yiaddr: Ipv4Addr,
    pub siaddr: Ipv4Addr,
    pub giaddr: Ipv4Addr,
    pub chaddr: Seq<u8>,
    pub sname: Seq<u8>,
    pub file: Seq<u8>,
    pub options: OptionMap,
}

impl View for DHCP {
    type V = PacketView;

    open spec fn view(&self) -> PacketView {
        PacketView {
            op: self.op,
            htype: self.htype,
            hlen: self.hlen,
            hops: self.hops,
            xid: self.xid,
            secs: self.secs,
            flags: self.flags,
            ciaddr: self.ciaddr,
            yiaddr: self.yiaddr,
            siaddr: self.siaddr,
            giaddr: self.giaddr,
            chaddr: self.chaddr@,
            sname: self.sname@,
            file: self.file@,
            options: self.options@,
        }
    }
}

impl PacketView {
    /// What the client is known by: its client identifier, else its hardware address.
    pub open spec fn client_id(self) -> Seq<u8> {
        match option_bytes(self.options, OPTION_CLIENTID) {
            Some(id) => id,
            None => self.chaddr,
        }
    }
}

impl DHCP {
    /// What the client is known by.
    pub fn get_client_id(&self) -> (id: Vec<u8>)
        ensures
            id@ == self@.client_id(),
    {
        match self.options.get_option(&OPTION_CLIENTID) {
            Some(id) => id,
            None => copy_bytes(&self.chaddr),
        }
    }
}

} // verus!
