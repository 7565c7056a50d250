use erbium_dhcp::config::{Config, DhcpConfig, Policy};
use erbium_dhcp::dhcppkt::{
    DhcpOption, MessageType, ParseError, DHCP, DHCPACK, DHCPDISCOVER, DHCPOFFER, DHCPREQUEST,
    HWTYPE_ETHERNET, OPTION_ADDRESSREQUEST, OPTION_CLIENTID, OPTION_LEASETIME, OPTION_MSGTYPE,
    OPTION_PARAMLIST, OPTION_SERVERID, OP_BOOTREPLY,
};
use erbium_dhcp::handler::{
    complete, handle_pkt, internal_error, DhcpError, Exchange, Pending, ServerIds,
};
use erbium_dhcp::ipv4::Ipv4Addr;
use erbium_dhcp::pool::{Error, Lease};
use erbium_dhcp::request::DHCPRequest;
use erbium_dhcp::subnet::Ipv4Subnet;

fn addr(s: &str) -> Ipv4Addr {
    Ipv4Addr::parse(s).expect("Not an address")
}

fn request(message: u8, list: &[(DhcpOption, &[u8])]) -> DHCPRequest {
    let mut req = DHCPRequest { serverip: addr("192.0.2.67"), ifindex: 3, ..Default::default() };
    req.pkt.xid = 0xdeadbeef;
    req.pkt.flags = 0x8000;
    req.pkt.hops = 2;
    req.pkt.secs = 9;
    req.pkt.giaddr = addr("192.0.2.1");
    req.pkt.options.other.insert(OPTION_MSGTYPE, vec![message]);
    for (k, v) in list {
        req.pkt.options.other.insert(*k, v.to_vec());
    }
    req
}

fn policy() -> Policy {
    Policy {
        match_subnet: Ipv4Subnet::new(addr("192.0.2.0"), 24),
        apply_address: Some(vec![addr("192.0.2.10"), addr("192.0.2.11")]),
        ..Default::default()
    }
}

fn config(policies: Vec<Policy>) -> Config {
    Config { dhcp: DhcpConfig { policies } }
}

fn error(r: Result<Pending, DhcpError>) -> DhcpError {
    match r {
        Ok(_) => panic!("pending"),
        Err(e) => e,
    }
}

fn pending(req: &DHCPRequest, ids: ServerIds, conf: &Config) -> Pending {
    match handle_pkt(req, ids, conf) {
        Ok(pending) => pending,
        Err(e) => panic!("{}", e.to_string()),
    }
}

fn reply(req: &DHCPRequest, lease: Lease) -> DHCP {
    let ids: ServerIds = [addr("192.0.2.99").bits].into_iter().collect();
    complete(req, pending(req, ids, &config(vec![policy()])), Ok(lease)).expect("No reply")
}

#[test]
fn discovery() {
    let req = request(DHCPDISCOVER, &[(OPTION_ADDRESSREQUEST, &[192, 0, 2, 11])]);
    let p = pending(&req, ServerIds::new(), &config(vec![policy()]));
    assert_eq!(p.exchange, Exchange::Offer);
    assert_eq!(p.address.clientid, req.pkt.chaddr);
    assert_eq!(p.address.requested, Some(addr("192.0.2.11")));
    assert_eq!(p.address.addresses, vec![addr("192.0.2.10"), addr("192.0.2.11")]);
    assert_eq!(p.address.minlease, 300);
    assert_eq!(p.address.maxlease, 86400);

    let r = reply(&req, Lease { ip: addr("192.0.2.11"), expire: 600 });
    assert_eq!(r.op, OP_BOOTREPLY);
    assert_eq!(r.htype, HWTYPE_ETHERNET);
    assert_eq!(r.hlen, 6);
    assert_eq!(r.hops, 0);
    assert_eq!(r.xid, 0xdeadbeef);
    assert_eq!(r.secs, 0);
    assert_eq!(r.flags, 0x8000);
    assert_eq!(r.ciaddr, addr("0.0.0.0"));
    assert_eq!(r.yiaddr, addr("192.0.2.11"));
    assert_eq!(r.siaddr, addr("0.0.0.0"));
    assert_eq!(r.giaddr, addr("192.0.2.1"));
    assert_eq!(r.chaddr, req.pkt.chaddr);
    assert!(r.sname.is_empty() && r.file.is_empty());
    assert_eq!(r.options.get_messagetype(), Some(MessageType(DHCPOFFER)));
    assert_eq!(r.options.get_serverid(), Some(addr("192.0.2.67")));
    assert_eq!(r.options.get_leasetime(), None);
    assert_eq!(r.options.other.len(), 2);
}

#[test]
fn discovery_for_another_server_is_answered() {
    let req = request(DHCPDISCOVER, &[(OPTION_SERVERID, &[10, 0, 0, 1])]);
    let r = reply(&req, Lease { ip: addr("192.0.2.11"), expire: 600 });
    assert_eq!(r.options.get_serverid(), Some(addr("192.0.2.67")));
}

#[test]
fn requests() {
    let mut req = request(
        DHCPREQUEST,
        &[(OPTION_ADDRESSREQUEST, &[192, 0, 2, 11]), (OPTION_CLIENTID, b"id")],
    );
    let conf = config(vec![policy()]);
    let p = pending(&req, ServerIds::new(), &conf);
    assert_eq!(p.exchange, Exchange::Acknowledge);
    assert_eq!(p.address.clientid, b"id".to_vec());
    assert_eq!(p.address.requested, Some(addr("192.0.2.11")));
    let r = reply(&req, Lease { ip: addr("192.0.2.10"), expire: 0x1_0000_0258 });
    assert_eq!(r.ciaddr, addr("0.0.0.0"));
    assert_eq!(r.options.get_messagetype(), Some(MessageType(DHCPACK)));
    assert_eq!(r.options.get_serverid(), Some(addr("192.0.2.67")));
    assert_eq!(r.options.get_leasetime(), Some(600));
    assert_eq!(r.options.get_option(&OPTION_LEASETIME), Some(vec![0, 0, 2, 0x58]));

    req.pkt.ciaddr = addr("192.0.2.10");
    let p = pending(&req, ServerIds::new(), &conf);
    assert_eq!(p.address.requested, Some(addr("192.0.2.10")));
    let r = reply(&req, Lease { ip: addr("192.0.2.10"), expire: 600 });
    assert_eq!(r.ciaddr, addr("192.0.2.10"));
}

#[test]
fn requests_name_their_server() {
    let req = request(DHCPREQUEST, &[(OPTION_SERVERID, &[192, 0, 2, 99])]);
    let r = reply(&req, Lease { ip: addr("192.0.2.10"), expire: 600 });
    assert_eq!(r.options.get_serverid(), Some(addr("192.0.2.99")));
    assert_eq!(
        error(handle_pkt(&req, ServerIds::new(), &config(vec![policy()]))),
        DhcpError::OtherServer(addr("192.0.2.99"))
    );
}

#[test]
fn unanswered() {
    let ids = ServerIds::new;
    let conf = config(vec![policy()]);
    let mut req = request(DHCPDISCOVER, &[]);
    assert_eq!(
        error(handle_pkt(&req, ids(), &config(vec![]))),
        DhcpError::NoPolicyConfigured
    );
    let bare = Policy { apply_address: None, ..policy() };
    assert_eq!(
        error(handle_pkt(&req, ids(), &config(vec![bare]))),
        DhcpError::NoLeasesAvailable
    );
    assert_eq!(
        error(handle_pkt(&request(7, &[]), ids(), &conf)),
        DhcpError::UnknownMessageType(MessageType(7))
    );
    req.pkt.options.other.insert(OPTION_MSGTYPE, vec![1, 1]);
    assert_eq!(
        error(handle_pkt(&req, ids(), &conf)),
        DhcpError::ParseError(ParseError::InvalidPacket)
    );
    req.pkt.options.other.remove(&OPTION_MSGTYPE);
    assert_eq!(
        error(handle_pkt(&req, ids(), &conf)),
        DhcpError::ParseError(ParseError::InvalidPacket)
    );
}

#[test]
fn failed_allocations() {
    let req = request(DHCPDISCOVER, &[]);
    let conf = config(vec![policy()]);
    let fail = |e| {
        complete(&req, pending(&req, ServerIds::new(), &conf), Err(e)).expect_err("A reply")
    };
    assert_eq!(fail(Error::NoAssignableAddress), DhcpError::NoLeasesAvailable);
    assert_eq!(
        fail(Error::NoSuchPool("x".into())),
        DhcpError::InternalError("No Such Pool: x".into())
    );
}

#[test]
fn policies_can_change_the_offer() {
    let req = request(DHCPDISCOVER, &[(OPTION_PARAMLIST, &[OPTION_MSGTYPE, OPTION_SERVERID])]);
    let mut p = policy();
    p.apply_other.insert(OPTION_MSGTYPE, Some(vec![9]));
    p.apply_other.insert(OPTION_SERVERID, None);
    let conf = config(vec![p]);
    let lease = Lease { ip: addr("192.0.2.10"), expire: 600 };
    let r = complete(&req, pending(&req, ServerIds::new(), &conf), Ok(lease)).unwrap();
    assert_eq!(r.options.get_messagetype(), Some(MessageType(9)));
    assert_eq!(r.options.get_serverid(), Some(addr("192.0.2.67")));
}

#[test]
fn errors_are_described() {
    let words = |e: DhcpError| e.to_string();
    assert_eq!(
        words(DhcpError::UnknownMessageType(MessageType(200))),
        "Unknown Message Type: MessageType(200)"
    );
    assert_eq!(
        words(DhcpError::UnknownMessageType(MessageType(7))),
        format!("Unknown Message Type: {:?}", MessageType(7))
    );
    assert_eq!(words(DhcpError::NoLeasesAvailable), "No Leases Available");
    assert_eq!(
        words(DhcpError::ParseError(ParseError::InvalidPacket)),
        format!("Parse Error: {:?}", ParseError::InvalidPacket)
    );
    assert_eq!(
        words(DhcpError::InternalError("a \"b\"\n".into())),
        "Internal Error: \"a \\\"b\\\"\\n\""
    );
    assert_eq!(internal_error("'x'"), "Internal Error: 'x'");
    assert_eq!(
        words(DhcpError::OtherServer(addr("10.0.0.1"))),
        "Packet for a different DHCP server: 10.0.0.1"
    );
    assert_eq!(words(DhcpError::NoPolicyConfigured), "No policy configured for client");
}
