use erbium_dhcp::clock::truncate;
use erbium_dhcp::dhcppkt::{ParseError, OPTION_SERVERID};
use erbium_dhcp::handler::ServerIds;
use erbium_dhcp::ipv4::Ipv4Addr;
use erbium_dhcp::pool::Error;
use erbium_dhcp::request::DHCPRequest;
use erbium_dhcp::service::{
    address_reply, goes_on_after, learn_serverid, policy_pools, receive, to_array, Dropped,
    Endpoint, ReceiveFailure, RunError, POLICY_POOL,
};

fn addr(s: &str) -> Ipv4Addr {
    Ipv4Addr::parse(s).expect("Not an address")
}

#[test]
fn packets_are_taken_in() {
    let here = Some(addr("10.0.0.1"));
    let pkt = || {
        let mut pkt = DHCPRequest::default().pkt;
        pkt.xid = 9;
        pkt
    };
    let request = receive(here, Ok(pkt()), 4).expect("dropped");
    assert_eq!(request.serverip, addr("10.0.0.1"));
    assert_eq!(request.ifindex, 4);
    assert_eq!(request.pkt.xid, 9);
    let invalid = ParseError::InvalidPacket;
    assert_eq!(receive(here, Err(invalid), 4).err(), Some(Dropped::Unparsable(invalid)));
    assert_eq!(receive(None, Ok(pkt()), 4).err(), Some(Dropped::NoAddress));
    assert_eq!(receive(None, Err(invalid), 4).err(), Some(Dropped::NoAddress));
}

#[test]
fn policies_have_a_pool() {
    let addresses = vec![addr("10.0.0.2"), addr("10.0.0.1")];
    let pools = policy_pools(&addresses);
    assert_eq!(pools.addresses(POLICY_POOL), Ok(addresses));
    assert_eq!(pools.addresses("other"), Err(Error::NoSuchPool("other".into())));
    assert_eq!(policy_pools(&vec![]).addresses("default"), Ok(vec![]));
}

#[test]
fn servers_remember_their_names() {
    let mut ids = ServerIds::new();
    let mut reply = DHCPRequest::default().pkt;
    learn_serverid(&mut ids, &reply);
    assert!(ids.is_empty());
    reply.options.other.insert(OPTION_SERVERID, vec![10, 0, 0, 1]);
    learn_serverid(&mut ids, &reply);
    reply.options.other.insert(OPTION_SERVERID, vec![10, 0, 0, 2]);
    learn_serverid(&mut ids, &reply);
    learn_serverid(&mut ids, &reply);
    assert_eq!(ids.len(), 2);
    assert!(ids.contains(&addr("10.0.0.1").bits));
    assert!(ids.contains(&addr("10.0.0.2").bits));
}

#[test]
fn replies_are_addressed() {
    let request = DHCPRequest { serverip: addr("10.0.0.1"), ..Default::default() };
    let mut reply = DHCPRequest::default().pkt;
    reply.chaddr = vec![1, 2, 3, 4, 5, 6, 7];
    let client = Endpoint { ip: addr("10.0.0.7"), port: 68 };
    assert_eq!(address_reply(&request, &reply, None, client), Err(Dropped::NoLinkLayer));
    let envelope = address_reply(&request, &reply, Some([9, 8, 7, 6, 5, 4]), client).unwrap();
    assert_eq!(envelope.source, Endpoint { ip: addr("10.0.0.1"), port: 67 });
    assert_eq!(envelope.destination, client);
    assert_eq!(envelope.source_link, [9, 8, 7, 6, 5, 4]);
    assert_eq!(envelope.destination_link, [1, 2, 3, 4, 5, 6]);
    assert_eq!(to_array(&[6, 5, 4, 3, 2, 1]), Some([6, 5, 4, 3, 2, 1]));
}

#[test]
fn receiving_again() {
    assert!(goes_on_after(ReceiveFailure::WouldBlock));
    assert!(goes_on_after(ReceiveFailure::Interrupted));
    assert!(!goes_on_after(ReceiveFailure::Other));
}

#[test]
fn reasons_for_ending() {
    assert_eq!(RunError::Io("broken pipe".into()).to_string(), "I/O Error in DHCP: broken pipe");
    assert_eq!(
        RunError::PoolError(Error::NoSuchPool("x".into())).to_string(),
        "DHCP Pool Error: No Such Pool: x"
    );
}

#[test]
fn times_are_cut() {
    assert_eq!(truncate(0), 0);
    assert_eq!(truncate(0xFFFF_FFFF), 0xFFFF_FFFF);
    assert_eq!(truncate(0x1_0000_0000), 0);
    assert_eq!(truncate(u64::MAX), 0xFFFF_FFFF);
}
