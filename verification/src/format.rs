//! How clients and requests are described in the log.
use vstd::prelude::*;
use vstd::utf8::{decode_utf8, valid_utf8};

use crate::dhcppkt::{copy_bytes, option_bytes, DhcpOption, DhcpOptions, OptionMap, DHCP};
use crate::dhcppkt::{OPTION_HOSTNAME, OPTION_MSGTYPE, OPTION_PARAMLIST};
use crate::ipv4::Ipv4Addr;
use crate::request::{DHCPRequest, RequestView};
use crate::text;
use crate::text::{decimal, hex_pair, upper_hex};

verus! {

broadcast use vstd::std_specs::hash::group_hash_axioms;

/// The bytes of a hardware address in hexadecimal, with colons between them.
pub open spec fn mac_text(v: Seq<u8>) -> Seq<char>
    decreases v.len(),
{
    if v.len() == 0 {
        Seq::empty()
    } else if v.len() == 1 {
        hex_pair(v[0])
    } else {
        mac_text(v.drop_last()) + seq![':'] + hex_pair(v.last())
    }
}

/// The bytes of a client identifier in hexadecimal, with colons between them.
pub open spec fn client_id_text(v: Seq<u8>) -> Seq<char>
    decreases v.len(),
{
    if v.len() == 0 {
        Seq::empty()
    } else if v.len() == 1 {
        upper_hex(v[0])
    } else {
        client_id_text(v.drop_last()) + seq![':'] + upper_hex(v.last())
    }
}

/// Describes a hardware address.
pub fn format_mac(v: &[u8]) -> (s: String)
    ensures
        s@ == mac_text(v@),
{
    proof {
        reveal_strlit(":");
        assert(":"@ =~= seq![':']);
    }
    let mut s = String::new();
    let mut i: usize = 0;
    while i < v.len()
        invariant
            i <= v@.len(),
            ":"@ == seq![':'],
            s@ == mac_text(v@.take(i as int)),
        decreases v@.len() - i,
    {
        if i > 0 {
            s.append(":");
        }
        text::push_hex_pair(&mut s, v[i]);
        assert(v@.take(i + 1).drop_last() =~= v@.take(i as int));
        assert(s@ =~= mac_text(v@.take(i + 1)));
        i = i + 1;
    }
    assert(v@.take(i as int) =~= v@);
    s
}

/// Describes a client identifier.
pub fn format_client_id(v: &[u8]) -> (s: String)
    ensures
        s@ == client_id_text(v@),
{
    proof {
        reveal_strlit(":");
        assert(":"@ =~= seq![':']);
    }
    let mut s = String::new();
    let mut i: usize = 0;
    while i < v.len()
        invariant
            i <= v@.len(),
            ":"@ == seq![':'],
            s@ == client_id_text(v@.take(i as int)),
        decreases v@.len() - i,
    {
        if i > 0 {
            s.append(":");
        }
        text::push_upper_hex(&mut s, v[i]);
        assert(v@.take(i + 1).drop_last() =~= v@.take(i as int));
        assert(s@ =~= client_id_text(v@.take(i + 1)));
        i = i + 1;
    }
    assert(v@.take(i as int) =~= v@);
    s
}

/// The text of bytes that may or may not be UTF-8, as `String::from_utf8_lossy` gives it.
pub uninterp spec fn lossy_text(bytes: Seq<u8>) -> Seq<char>;

/// Calls `String::from_utf8_lossy`.
///
/// The text is a function of the bytes alone. Bytes that are UTF-8 give the characters that they
/// encode; how other bytes are replaced is left unsaid.
#[verifier::external_body]
fn from_utf8_lossy(bytes: &[u8]) -> (s: String)
    ensures
        s@ == lossy_text(bytes@),
        valid_utf8(bytes@) ==> s@ == decode_utf8(bytes@),
{
    String::from_utf8_lossy(bytes).into_owned()
}

/// The hostname that the client gives; empty if it gives none.
pub open spec fn hostname(options: OptionMap) -> Seq<u8> {
    match option_bytes(options, OPTION_HOSTNAME) {
        Some(name) => name,
        None => Seq::empty(),
    }
}

/// A client by its hardware address and its name.
pub open spec fn client_text(chaddr: Seq<u8>, name: Seq<char>) -> Seq<char> {
    mac_text(chaddr) + " ("@ + name + ")"@
}

/// Describes a client by its hardware address and its name.
pub fn describe_client(chaddr: &[u8], name: &str) -> (s: String)
    ensures
        s@ == client_text(chaddr@, name@),
{
    format_mac(chaddr).concat(" (").concat(name).concat(")")
}

/// Describes the client of a packet.
pub fn format_client(req: &DHCP) -> (s: String)
    ensures
        s@ == client_text(req@.chaddr, lossy_text(hostname(req@.options))),
        valid_utf8(hostname(req@.options)) ==> s@ == client_text(
            req@.chaddr,
            decode_utf8(hostname(req@.options)),
        ),
{
    let name = match req.options.get_option(&OPTION_HOSTNAME) {
        Some(name) => name,
        None => Vec::new(),
    };
    assert(name@ =~= hostname(req@.options));
    describe_client(req.chaddr.as_slice(), from_utf8_lossy(name.as_slice()).as_str())
}

/// What is said of a request: from which client it is, of which type, on which interface it was
/// received, and, where they are given, the address it was received on, the address that the
/// client uses and the relay.
pub open spec fn request_text(
    request: RequestView,
    client: Seq<char>,
    message: Seq<char>,
    interface: Seq<char>,
) -> Seq<char> {
    let received = client + ": "@ + message + " on "@ + interface;
    let addressed = if request.serverip.bits != 0 {
        received + " ("@ + request.serverip.text() + ")"@
    } else {
        received
    };
    let used = if request.pkt.ciaddr.bits != 0 {
        addressed + ", using "@ + request.pkt.ciaddr.text()
    } else {
        addressed
    };
    if request.pkt.giaddr.bits != 0 {
        used + ", relayed via "@ + decimal(request.pkt.hops as nat) + " hops from "@
            + request.pkt.giaddr.text()
    } else {
        used
    }
}

/// Describes a request.
pub fn describe_request(request: &DHCPRequest, client: &str, message: &str, interface: &str) -> (s:
    String)
    ensures
        s@ == request_text(request@, client@, message@, interface@),
{
    let mut s = client.to_owned().concat(": ").concat(message).concat(" on ").concat(interface);
    if !request.serverip.is_unspecified() {
        s.append(" (");
        s.append(request.serverip.to_string().as_str());
        s.append(")");
    }
    if !request.pkt.ciaddr.is_unspecified() {
        s.append(", using ");
        s.append(request.pkt.ciaddr.to_string().as_str());
    }
    if !request.pkt.giaddr.is_unspecified() {
        s.append(", relayed via ");
        text::push_decimal(&mut s, request.pkt.hops as u32);
        s.append(" hops from ");
        s.append(request.pkt.giaddr.to_string().as_str());
    }
    s
}

/// Some texts, with spaces between them.
pub open spec fn spaced(items: Seq<String>) -> Seq<char>
    decreases items.len(),
{
    if items.len() == 0 {
        Seq::empty()
    } else if items.len() == 1 {
        items[0]@
    } else {
        spaced(items.drop_last()) + seq![' '] + items.last()@
    }
}

/// Joins texts with spaces.
fn join(items: &[String]) -> (s: String)
    ensures
        s@ == spaced(items@),
{
    proof {
        reveal_strlit(" ");
        assert(" "@ =~= seq![' ']);
    }
    let mut s = String::new();
    let mut i: usize = 0;
    while i < items.len()
        invariant
            i <= items@.len(),
            " "@ == seq![' '],
            s@ == spaced(items@.take(i as int)),
        decreases items@.len() - i,
    {
        if i > 0 {
            s.append(" ");
        }
        s.append(items[i].as_str());
        assert(items@.take(i + 1).drop_last() =~= items@.take(i as int));
        assert(s@ =~= spaced(items@.take(i + 1)));
        i = i + 1;
    }
    assert(items@.take(i as int) =~= items@);
    s
}

/// Describes an option by its name and its value, if that can be decoded.
pub fn describe_option(name: &str, value: Option<&str>) -> (s: String)
    ensures
        s@ == name@ + "("@ + (match value {
            Some(v) => v@,
            None => "<decode-failed>"@,
        }) + ")"@,
{
    let value = match value {
        Some(v) => v,
        None => "<decode-failed>",
    };
    name.to_owned().concat("(").concat(value).concat(")")
}

/// Describes the options of a packet, each of which is described already.
pub fn describe_options(client: &str, options: &[String]) -> (s: String)
    ensures
        s@ == client@ + ": Options: "@ + spaced(options@),
{
    client.to_owned().concat(": Options: ").concat(join(options).as_str())
}

/// Describes which options a client asks for, by their names.
pub fn describe_requested(client: &str, names: Option<&[String]>) -> (s: String)
    ensures
        s@ == client@ + ": Requested: "@ + (match names {
            Some(names) => spaced(names@),
            None => "<none>"@,
        }),
{
    let requested = match names {
        Some(names) => join(names),
        None => "<none>".to_owned(),
    };
    client.to_owned().concat(": Requested: ").concat(requested.as_str())
}

/// Describes why a request is not answered.
pub fn describe_failure(client: &str, message: &str, error: &str) -> (s: String)
    ensures
        s@ == client@ + ": Failed to handle "@ + message@ + ": "@ + error@,
{
    client.to_owned().concat(": Failed to handle ").concat(message).concat(": ").concat(error)
}

/// Describes a reply: to which client it is sent, of which type, on which interface, with which
/// address and for how many seconds.
pub fn describe_sending(
    client: &str,
    message: &str,
    interface: &str,
    yiaddr: Ipv4Addr,
    leasetime: u32,
) -> (s: String)
    ensures
        s@ == client@ + ": Sending "@ + message@ + " on "@ + interface@ + " with "@ + yiaddr.text()
            + " for "@ + decimal(leasetime as nat),
{
    let mut s = client.to_owned().concat(": Sending ").concat(message).concat(" on ").concat(
        interface,
    ).concat(" with ").concat(yiaddr.to_string().as_str()).concat(" for ");
    text::push_decimal(&mut s, leasetime);
    s
}

/// The options to decode in the log: all but the message type and the list of the options asked
/// for, which are described elsewhere.
pub fn logged_options(options: &DhcpOptions) -> (r: DhcpOptions)
    ensures
        r@ == options@.remove(OPTION_MSGTYPE).remove(OPTION_PARAMLIST),
{
    let mut r = DhcpOptions::default();
    let ghost all = options@.remove(OPTION_MSGTYPE).remove(OPTION_PARAMLIST);
    for (k, v) in it: options.other.iter()
        invariant
            all == options@.remove(OPTION_MSGTYPE).remove(OPTION_PARAMLIST),
            forall|i: int|
                0 <= i < it.index() && all.contains_key(*(#[trigger] it.seq()[i]).0)
                    ==> r@.contains_key(*it.seq()[i].0),
            forall|c: DhcpOption| #[trigger]
                r@.contains_key(c) ==> all.contains_key(c) && all[c] == r@[c],
    {
        let ghost before = r@;
        assert(options.other@.contains_key(*k) && options.other@[*k] == *v);
        if *k != OPTION_MSGTYPE && *k != OPTION_PARAMLIST {
            r.other.insert(*k, copy_bytes(v));
            assert(r@ =~= before.insert(*k, v@));
        }
    }
    assert forall|c: DhcpOption| #[trigger] all.contains_key(c) implies r@.contains_key(c) by {
        assert(options.other@.contains_key(c));
    }
    assert(r@ =~= all);
    r
}

} // verus!
