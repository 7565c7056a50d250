use erbium_dhcp::dhcppkt::{
    DhcpOptions, DHCP, HWTYPE_ETHERNET, OPTION_HOSTNAME, OPTION_MSGTYPE, OPTION_PARAMLIST,
    OPTION_SERVERID, OP_BOOTREQUEST,
};
use erbium_dhcp::format::{
    describe_client, describe_failure, describe_option, describe_options, describe_request,
    describe_requested, describe_sending, format_client, format_client_id, format_mac, logged_options,
};
use erbium_dhcp::ipv4::Ipv4Addr;
use erbium_dhcp::request::DHCPRequest;

fn addr(s: &str) -> Ipv4Addr {
    Ipv4Addr::parse(s).expect("Not an address")
}

#[test]
fn test_format_client() {
    let req = DHCP {
        op: OP_BOOTREQUEST,
        htype: HWTYPE_ETHERNET,
        hlen: 6,
        hops: 0,
        xid: 0,
        secs: 0,
        flags: 0,
        ciaddr: Ipv4Addr::unspecified(),
        yiaddr: Ipv4Addr::unspecified(),
        siaddr: Ipv4Addr::unspecified(),
        giaddr: Ipv4Addr::unspecified(),
        chaddr: vec![0, 1, 2, 3, 4, 5],
        sname: vec![],
        file: vec![],
        options: DhcpOptions { ..Default::default() },
    };
    assert_eq!(format_client(&req), "00:01:02:03:04:05 ()");
}

#[test]
fn clients_with_names() {
    let mut req = DHCPRequest::default().pkt;
    req.options.other.insert(OPTION_HOSTNAME, "h\u{f6}st".as_bytes().to_vec());
    assert_eq!(format_client(&req), "00:00:5e:00:53:00 (h\u{f6}st)");
    req.options.other.insert(OPTION_HOSTNAME, b"a\xffb".to_vec());
    assert_eq!(format_client(&req), "00:00:5e:00:53:00 (a\u{fffd}b)");
    assert_eq!(describe_client(&[0xab], "x"), "ab (x)");
}

#[test]
fn bytes_in_hexadecimal() {
    assert_eq!(format_mac(&[]), "");
    assert_eq!(format_mac(&[0xab]), "ab");
    assert_eq!(format_mac(&[0, 0x0f, 0xf0, 0xff]), "00:0f:f0:ff");
    assert_eq!(format_client_id(&[]), "");
    assert_eq!(format_client_id(&[0, 0x0f, 0xf0, 0xab]), "0:F:F0:AB");
    for b in 0..=255u8 {
        assert_eq!(format_mac(&[b]), format!("{:0>2x}", b));
        assert_eq!(format_client_id(&[b]), format!("{:X}", b));
    }
}

#[test]
fn requests_are_described() {
    let mut request = DHCPRequest::default();
    assert_eq!(
        describe_request(&request, "client", "DISCOVER", "eth0"),
        "client: DISCOVER on eth0"
    );
    request.serverip = addr("10.0.0.1");
    request.pkt.ciaddr = addr("10.0.0.2");
    request.pkt.giaddr = addr("10.0.0.3");
    request.pkt.hops = 105;
    assert_eq!(
        describe_request(&request, "client", "[unknown]", "eth0"),
        "client: [unknown] on eth0 (10.0.0.1), using 10.0.0.2, \
         relayed via 105 hops from 10.0.0.3"
    );
}

#[test]
fn options_are_described() {
    let texts = |list: &[&str]| list.iter().map(|s| s.to_string()).collect::<Vec<String>>();
    assert_eq!(describe_option("MTU", Some("1500")), "MTU(1500)");
    assert_eq!(describe_option("MTU", None), "MTU(<decode-failed>)");
    assert_eq!(describe_options("client", &[]), "client: Options: ");
    assert_eq!(
        describe_options("client", &texts(&["MTU(1500)", "DNS(8.8.8.8)", "x(y)"])),
        "client: Options: MTU(1500) DNS(8.8.8.8) x(y)"
    );
    assert_eq!(describe_requested("client", None), "client: Requested: <none>");
    assert_eq!(describe_requested("client", Some(&[])), "client: Requested: ");
    assert_eq!(
        describe_requested("client", Some(&texts(&["MTU", "DNS"]))),
        "client: Requested: MTU DNS"
    );
}

#[test]
fn replies_are_described() {
    assert_eq!(
        describe_failure("client", "DISCOVER", "No Leases Available"),
        "client: Failed to handle DISCOVER: No Leases Available"
    );
    assert_eq!(
        describe_sending("client", "OFFER", "eth0", addr("10.0.0.1"), 0),
        "client: Sending OFFER on eth0 with 10.0.0.1 for 0"
    );
    for n in [9u32, 10, 86400, 1_000_000_007, u32::MAX] {
        assert_eq!(
            describe_sending("c", "ACK", "e", addr("10.0.0.1"), n),
            format!("c: Sending ACK on e with 10.0.0.1 for {}", n)
        );
    }
}

#[test]
fn options_that_are_logged() {
    let mut options = DhcpOptions::default();
    options.other.insert(OPTION_MSGTYPE, vec![1]);
    options.other.insert(OPTION_PARAMLIST, vec![1, 2]);
    options.other.insert(OPTION_SERVERID, vec![1, 2, 3, 4]);
    options.other.insert(OPTION_HOSTNAME, vec![]);
    let logged = logged_options(&options);
    assert_eq!(logged.other.len(), 2);
    assert_eq!(logged.get_option(&OPTION_SERVERID), Some(vec![1, 2, 3, 4]));
    assert_eq!(logged.get_option(&OPTION_HOSTNAME), Some(vec![]));
}

#[test]
fn addresses_as_text() {
    for s in ["0.0.0.0", "1.20.255.100", "255.255.255.255", "10.0.0.9"] {
        assert_eq!(addr(s).to_string(), s);
    }
    for s in [
        "", ".", "1", "1.2.3", "1.2.3.", "1.2.3.4.", "1.2.3.4.5", ".1.2.3", "1..2.3", "256.1.1.1",
        "1.2.3.999", "1.2.3.1000", "01.2.3.4", "1.2.3.00", "1.2.3.4 ", " 1.2.3.4", "1.2.3.a",
        "1.2.3.-4", "1.2.3.\u{664}",
    ] {
        assert_eq!(Ipv4Addr::parse(s), None, "{}", s);
    }
    assert_eq!(Ipv4Addr::new(1, 2, 3, 4).bits, 0x0102_0304);
    assert_eq!(addr("1.20.255.100").bits, 0x0114_ff64);
    assert!(Ipv4Addr::unspecified().is_unspecified());
    assert!(!addr("0.0.0.1").is_unspecified());
}
