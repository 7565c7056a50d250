//! How numbers, addresses, clients, requests and errors read.
use vstd::prelude::*;

use crate::dhcppkt::{be_bytes, OptionMap, ParseError};
use crate::applying::spells;
use crate::format::{client_id_text, client_text, hostname, mac_text, request_text, spaced};
use crate::handler::DhcpErrorView;
use crate::ipv4::{lemma_bits_of_octets, reading_undoes_writing, Ipv4Addr};
use crate::pool::{DbFailureView, ErrorView};
use crate::request::RequestView;
use crate::service::RunError;
use crate::text::{debug_quoted, decimal, hex_pair, upper_hex};

verus! {

/// The number that decimal digits stand for.
pub open spec fn value(digits: Seq<char>) -> int
    decreases digits.len(),
{
    if digits.len() == 0 {
        0
    } else {
        value(digits.drop_last()) * 10 + (digits.last() as int - '0' as int)
    }
}

/// A number in decimal consists of digits, stands for the number, and starts with a zero only if it
/// is zero.
pub proof fn decimal_stands_for_its_number(n: nat)
    ensures
        value(decimal(n)) == n,
        decimal(n).len() > 0,
        forall|i: int| 0 <= i < decimal(n).len() ==> '0' <= #[trigger] decimal(n)[i] <= '9',
        decimal(n)[0] == '0' ==> n == 0,
    decreases n,
{
    reveal_with_fuel(value, 2);
    if n >= 10 {
        decimal_stands_for_its_number(n / 10);
        assert(decimal(n).drop_last() =~= decimal(n / 10));
        assert(decimal(n)[0] == decimal(n / 10)[0]);
    } else {
        assert(decimal(n).drop_last() =~= Seq::<char>::empty());
    }
}

/// The number that a hexadecimal digit stands for.
pub open spec fn hex_value(c: char) -> int {
    if '0' <= c <= '9' {
        c as int - '0' as int
    } else if 'a' <= c <= 'f' {
        c as int - 'a' as int + 10
    } else if 'A' <= c <= 'F' {
        c as int - 'A' as int + 10
    } else {
        -1
    }
}

/// A byte is written as two hexadecimal digits that stand for it, in lower case; or, in upper case,
/// as one digit where that is enough.
pub proof fn hexadecimal_stands_for_its_byte(b: u8)
    ensures
        hex_pair(b).len() == 2,
        0 <= hex_value(hex_pair(b)[0]) < 16,
        0 <= hex_value(hex_pair(b)[1]) < 16,
        hex_value(hex_pair(b)[0]) * 16 + hex_value(hex_pair(b)[1]) == b,
        forall|i: int| 0 <= i < 2 ==> !('A' <= #[trigger] hex_pair(b)[i] <= 'F'),
        b < 16 ==> upper_hex(b).len() == 1 && hex_value(upper_hex(b)[0]) == b,
        b >= 16 ==> upper_hex(b).len() == 2 && hex_value(upper_hex(b)[0]) * 16 + hex_value(
            upper_hex(b)[1],
        ) == b && 0 <= hex_value(upper_hex(b)[1]) < 16,
        forall|i: int|
            0 <= i < upper_hex(b).len() ==> !('a' <= #[trigger] upper_hex(b)[i] <= 'f'),
{
}

/// The octets of an address, the most significant first, are four bytes that spell its number.
pub proof fn octets_spell_the_address(addr: Ipv4Addr, n: u32)
    ensures
        spells(addr.octets(), addr.bits as int),
        spells(be_bytes(n), n as int),
{
    lemma_bits_of_octets(addr);
    lemma_bits_of_octets(Ipv4Addr { bits: n });
}

/// An address reads as its four octets in decimal, the most significant first, with dots between
/// them; a text that reads so is that address, and every other text is none.
pub proof fn addresses_are_dotted_quads(a: u8, b: u8, c: u8, d: u8, s: Seq<char>)
    ensures
        ({
            let addr = Ipv4Addr {
                bits: (a * 0x100_0000 + b * 0x1_0000 + c * 0x100 + d) as u32,
            };
            let text = decimal(a as nat) + seq!['.'] + decimal(b as nat) + seq!['.'] + decimal(
                c as nat,
            ) + seq!['.'] + decimal(d as nat);
            &&& addr.text() == text
            &&& Ipv4Addr::from_text(text) == Some(addr)
        }),
        Ipv4Addr::from_text(s) matches Some(addr) ==> s == addr.text(),
        Ipv4Addr::from_text(s) is None ==> forall|addr: Ipv4Addr| s != #[trigger] addr.text(),
{
    let addr = Ipv4Addr { bits: (a * 0x100_0000 + b * 0x1_0000 + c * 0x100 + d) as u32 };
    crate::ipv4::lemma_octets_of(a as int, b as int, c as int, d as int);
    assert(addr.octets() =~= seq![a, b, c, d]);
    reading_undoes_writing(addr);
}

/// A hardware address reads as two hexadecimal digits for each byte, in order, with a colon after
/// each but the last.
pub proof fn hardware_addresses_are_pairs(v: Seq<u8>, i: int)
    requires
        0 <= i < v.len(),
    ensures
        mac_text(v).len() == 3 * v.len() - 1,
        hex_value(mac_text(v)[3 * i]) * 16 + hex_value(mac_text(v)[3 * i + 1]) == v[i],
        0 <= hex_value(mac_text(v)[3 * i + 1]) < 16,
        i + 1 < v.len() ==> mac_text(v)[3 * i + 2] == ':',
    decreases v.len(),
{
    hexadecimal_stands_for_its_byte(v[i]);
    hexadecimal_stands_for_its_byte(v.last());
    if v.len() > 1 {
        let front = v.drop_last();
        let k = if i < front.len() {
            i
        } else {
            0
        };
        hardware_addresses_are_pairs(front, k);
        let t = mac_text(front);
        assert(mac_text(v) == t + seq![':'] + hex_pair(v.last()));
        if i < front.len() {
            assert(mac_text(v)[3 * i] == t[3 * i]);
            assert(mac_text(v)[3 * i + 1] == t[3 * i + 1]);
        }
    }
}

/// A client identifier reads as its bytes in upper case hexadecimal, in order, with colons between
/// them.
pub proof fn client_identifiers_are_joined(v: Seq<u8>, b: u8)
    ensures
        client_id_text(Seq::empty()) == Seq::<char>::empty(),
        client_id_text(seq![b]) == upper_hex(b),
        v.len() > 0 ==> client_id_text(v.push(b)) == client_id_text(v) + seq![':'] + upper_hex(b),
{
    assert(v.push(b).drop_last() =~= v);
}

/// A client reads as its hardware address and, in brackets, its name, which is that of option 12.
pub proof fn clients_are_named(chaddr: Seq<u8>, name: Seq<char>, options: OptionMap)
    ensures
        client_text(chaddr, name) == mac_text(chaddr) + " ("@ + name + ")"@,
        options.contains_key(12) ==> hostname(options) == options[12],
        !options.contains_key(12) ==> hostname(options).len() == 0,
{
}

/// A request reads as its client, message and interface, and then as much of the three addresses as
/// is given: that it was received on, that the client uses, and that of the relay, with the hops.
pub proof fn requests_read_in_order(
    request: RequestView,
    client: Seq<char>,
    message: Seq<char>,
    interface: Seq<char>,
)
    ensures
        ({
            let on = if request.serverip.bits == 0 {
                Seq::empty()
            } else {
                " ("@ + request.serverip.text() + ")"@
            };
            let using = if request.pkt.ciaddr.bits == 0 {
                Seq::empty()
            } else {
                ", using "@ + request.pkt.ciaddr.text()
            };
            let relayed = if request.pkt.giaddr.bits == 0 {
                Seq::empty()
            } else {
                ", relayed via "@ + decimal(request.pkt.hops as nat) + " hops from "@
                    + request.pkt.giaddr.text()
            };
            request_text(request, client, message, interface) =~= client + ": "@ + message
                + " on "@ + interface + on + using + relayed
        }),
{
}

/// Texts are joined in order, with a space between each two.
pub proof fn texts_are_joined(items: Seq<String>, item: String)
    ensures
        spaced(Seq::empty()) == Seq::<char>::empty(),
        spaced(seq![item]) == item@,
        items.len() > 0 ==> spaced(items.push(item)) == spaced(items) + seq![' '] + item@,
{
    assert(items.push(item).drop_last() =~= items);
}

/// Each error reads as what happened and what it happened to.
pub proof fn errors_say_what_happened(
    reason: Seq<char>,
    name: Seq<char>,
    m: u8,
    server: Ipv4Addr,
    ended: RunError,
)
    ensures
        ErrorView::DbError(reason, DbFailureView::Other(name)).text() == reason + ": "@ + name,
        ErrorView::DbError(reason, DbFailureView::QueryReturnedNoRows).text() == reason + ": "@
            + "Query returned no rows"@,
        ErrorView::NoSuchPool(name).text() == "No Such Pool: "@ + name,
        ErrorView::DuplicatePool(name).text() == "Duplicate Pool: "@ + name,
        ErrorView::CorruptDatabase(reason).text() == "Corrupt Database: "@ + reason,
        ErrorView::NoAssignableAddress.text() == "No Assignable Address"@,
        DhcpErrorView::UnknownMessageType(crate::dhcppkt::MessageType(m)).text()
            == "Unknown Message Type: MessageType("@ + decimal(m as nat) + ")"@,
        DhcpErrorView::NoLeasesAvailable.text() == "No Leases Available"@,
        DhcpErrorView::ParseError(ParseError::InvalidPacket).text() == "Parse Error: InvalidPacket"@,
        DhcpErrorView::InternalError(reason).text() == "Internal Error: "@ + debug_quoted(reason),
        DhcpErrorView::OtherServer(server).text() == "Packet for a different DHCP server: "@
            + server.text(),
        DhcpErrorView::NoPolicyConfigured.text() == "No policy configured for client"@,
        ended matches RunError::Io(e) ==> ended.text() == "I/O Error in DHCP: "@ + e@,
        ended matches RunError::PoolError(e) ==> ended.text() == "DHCP Pool Error: "@ + e@.text(),
{
}

/// The numbers by which packets are understood: option codes, message types, and the values of the
/// header; the port of servers; and the bounds on lease times, in seconds.
pub proof fn numbers_are_those_of_the_protocol()
    ensures
        crate::dhcppkt::OPTION_NETMASK == 1,
        crate::dhcppkt::OPTION_HOSTNAME == 12,
        crate::dhcppkt::OPTION_BROADCAST == 28,
        crate::dhcppkt::OPTION_ADDRESSREQUEST == 50,
        crate::dhcppkt::OPTION_LEASETIME == 51,
        crate::dhcppkt::OPTION_MSGTYPE == 53,
        crate::dhcppkt::OPTION_SERVERID == 54,
        crate::dhcppkt::OPTION_PARAMLIST == 55,
        crate::dhcppkt::OPTION_CLIENTID == 61,
        crate::dhcppkt::OP_BOOTREQUEST == 1,
        crate::dhcppkt::OP_BOOTREPLY == 2,
        crate::dhcppkt::HWTYPE_ETHERNET == 1,
        crate::dhcppkt::DHCPDISCOVER == 1,
        crate::dhcppkt::DHCPOFFER == 2,
        crate::dhcppkt::DHCPREQUEST == 3,
        crate::dhcppkt::DHCPACK == 5,
        crate::service::SERVER_PORT == 67,
        crate::allocation::DEFAULT_MIN_LEASE == 300,
        crate::allocation::DEFAULT_MAX_LEASE == 86400,
{
}

} // verus!
