use std::collections::HashMap;

use erbium_dhcp::config::{Policy, PolicyOptions};
use erbium_dhcp::dhcppkt::{
    DhcpOption, DhcpOptions, OPTION_BROADCAST, OPTION_HOSTNAME, OPTION_NETMASK, OPTION_PARAMLIST,
};
use erbium_dhcp::dhcppkt::{MessageType, Serialise, DHCP, HWTYPE_ETHERNET, OP_BOOTREQUEST};
use erbium_dhcp::ipv4::Ipv4Addr;
use erbium_dhcp::options::ResponseOptions;
use erbium_dhcp::policy::{
    apply_policies, apply_policy, check_policies, check_policy, PolicyMatch, Response,
};
use erbium_dhcp::request::DHCPRequest;
use erbium_dhcp::subnet::Ipv4Subnet;

const OPTION_DNS: DhcpOption = 6;

fn addr(s: &str) -> Ipv4Addr {
    Ipv4Addr::parse(s).expect("Not an address")
}

fn subnet(s: &str, prefixlen: u8) -> Option<Ipv4Subnet> {
    Some(Ipv4Subnet::new(addr(s), prefixlen).expect("Not a subnet"))
}

fn options(list: &[(DhcpOption, Option<&[u8]>)]) -> PolicyOptions {
    list.iter().map(|(k, v)| (*k, v.map(|b| b.to_vec()))).collect()
}

fn request_with(list: &[(DhcpOption, &[u8])]) -> DHCPRequest {
    let mut req = DHCPRequest::default();
    for (k, v) in list {
        req.pkt.options.other.insert(*k, v.to_vec());
    }
    req
}

fn sent(resp: &Response, option: DhcpOption) -> Option<Vec<u8>> {
    resp.options.to_options().get_option(&option)
}

#[test]
fn test_policy() {
    let cfg = Policy { match_subnet: subnet("192.0.2.0", 24), ..Default::default() };
    let req = DHCPRequest { serverip: addr("192.0.2.67"), ..Default::default() };
    let mut resp = Default::default();
    let policies = vec![cfg];

    assert_eq!(apply_policies(&req, policies.as_slice(), &mut resp), true);
}

#[test]
fn test_config_parse() {
    let range = |net: [u8; 3], first: u8, last: u8| -> Option<Vec<Ipv4Addr>> {
        Some((first..=last).map(|i| Ipv4Addr::new(net[0], net[1], net[2], i)).collect())
    };
    let static_address = || Policy {
        match_chaddr: Some(vec![0, 1, 2, 3, 4, 5]),
        apply_address: Some(vec![addr("192.168.0.2")]),
        ..Default::default()
    };
    let policies = vec![
        Policy {
            match_subnet: subnet("192.168.0.0", 24),
            apply_address: range([192, 168, 0], 1, 254),
            apply_other: options(&[
                (OPTION_DNS, Some(&[8, 8, 8, 8, 8, 8, 4, 4])),
                (2, Some(&3600u32.to_be_bytes())),
                (15, Some(b"erbium.dev")),
                (19, Some(&[0])),
                (26, Some(&1500u16.to_be_bytes())),
                (OPTION_BROADCAST, Some(&[192, 168, 255, 255])),
                (59, Some(&120u32.to_be_bytes())),
                (58, Some(&90u32.to_be_bytes())),
                (35, Some(&604800u32.to_be_bytes())),
            ]),
            policies: vec![
                Policy {
                    match_other: options(&[(OPTION_HOSTNAME, Some(b"myhost"))]),
                    apply_address: Some(vec![addr("192.168.0.1")]),
                    ..Default::default()
                },
                static_address(),
            ],
            ..Default::default()
        },
        Policy {
            apply_address: range([192, 0, 2], 1, 254),
            apply_other: options(&[(OPTION_DNS, Some(&[8, 8, 8, 8]))]),
            policies: vec![
                // Reserve some space from the pool for servers
                Policy {
                    apply_address: range([192, 0, 2], 10, 20),
                    // From the reserved pool, assign a static address.
                    policies: vec![static_address()],
                    ..Default::default()
                },
                // Reserve space for VPN endpoints
                Policy {
                    match_other: options(&[(77, Some(b"VPN"))]),
                    apply_address: range([192, 0, 2], 129, 254),
                    ..Default::default()
                },
            ],
            ..Default::default()
        },
    ];

    let mut resp = Response { ..Default::default() };
    if !apply_policies(
        &DHCPRequest {
            pkt: DHCP {
                op: OP_BOOTREQUEST,
                htype: HWTYPE_ETHERNET,
                hlen: 6,
                hops: 0,
                xid: 0,
                secs: 0,
                flags: 0,
                ciaddr: Ipv4Addr::unspecified(),
                yiaddr: Ipv4Addr::unspecified(),
                siaddr: Ipv4Addr::unspecified(),
                giaddr: Ipv4Addr::unspecified(),
                chaddr: vec![0, 1, 2, 3, 4, 5],
                sname: vec![],
                file: vec![],
                options: DhcpOptions { ..Default::default() },
            },
            serverip: addr("192.168.0.67"),
            ifindex: 1,
        },
        &policies,
        &mut resp,
    ) {
        panic!("No policies applied");
    }

    assert_eq!(resp.address, Some(vec![Ipv4Addr::new(192, 168, 0, 2)]));
}

#[test]
fn conditions() {
    let req = request_with(&[(OPTION_HOSTNAME, b"host")]);
    let outcome = |policy: Policy| check_policy(&req, &policy);
    assert_eq!(outcome(Policy::default()), PolicyMatch::NoMatch);
    let chaddr = |v: &[u8]| Policy { match_chaddr: Some(v.to_vec()), ..Default::default() };
    assert_eq!(outcome(chaddr(&[0, 0, 0x5e, 0, 0x53, 0])), PolicyMatch::MatchSucceeded);
    assert_eq!(outcome(chaddr(&[0, 0, 0x5e, 0, 0x53, 1])), PolicyMatch::MatchFailed);
    assert_eq!(outcome(chaddr(&[0, 0, 0x5e, 0, 0x53])), PolicyMatch::MatchFailed);
    let other = |list: &[(DhcpOption, Option<&[u8]>)]| Policy {
        match_other: options(list),
        ..Default::default()
    };
    assert_eq!(outcome(other(&[(OPTION_HOSTNAME, Some(b"host"))])), PolicyMatch::MatchSucceeded);
    assert_eq!(outcome(other(&[(OPTION_HOSTNAME, Some(b"ghost"))])), PolicyMatch::MatchFailed);
    assert_eq!(outcome(other(&[(OPTION_HOSTNAME, None)])), PolicyMatch::MatchFailed);
    assert_eq!(outcome(other(&[(77, None)])), PolicyMatch::MatchSucceeded);
    assert_eq!(outcome(other(&[(77, Some(b""))])), PolicyMatch::MatchFailed);
    assert_eq!(
        outcome(other(&[(OPTION_HOSTNAME, Some(b"host")), (77, Some(b"VPN"))])),
        PolicyMatch::MatchFailed
    );
    let both = Policy {
        match_chaddr: Some(vec![0, 0, 0x5e, 0, 0x53, 0]),
        match_subnet: subnet("10.0.0.0", 8),
        ..Default::default()
    };
    assert_eq!(outcome(both), PolicyMatch::MatchFailed);
}

#[test]
fn unconditional_policies_match_by_their_subpolicies() {
    let req = request_with(&[(OPTION_HOSTNAME, b"host")]);
    let named = |name: &[u8]| Policy {
        match_other: options(&[(OPTION_HOSTNAME, Some(name))]),
        apply_address: Some(vec![addr("10.0.0.1")]),
        ..Default::default()
    };
    let around = |inner: Policy| Policy { policies: vec![inner], ..Default::default() };
    assert!(check_policies(&req, &[around(around(named(b"host")))]));
    assert!(!check_policies(&req, &[around(around(named(b"ghost")))]));
    assert!(check_policies(&req, &[named(b"ghost"), named(b"host")]));
    assert!(!check_policies(&req, &[]));
    assert!(!check_policies(&req, &[Policy::default()]));

    let mut resp = Response::default();
    assert!(!apply_policy(&req, &around(named(b"ghost")), &mut resp));
    assert_eq!(resp.address, None);
    assert!(apply_policy(&req, &around(named(b"host")), &mut resp));
    assert_eq!(resp.address, Some(vec![addr("10.0.0.1")]));
}

#[test]
fn first_policy_is_applied() {
    let req = DHCPRequest { serverip: addr("10.1.2.3"), ..Default::default() };
    let policy = |prefixlen, ip: &str| Policy {
        match_subnet: subnet("10.1.0.0", prefixlen),
        apply_address: Some(vec![addr(ip)]),
        ..Default::default()
    };
    let mut resp = Response::default();
    let policies = [policy(24, "10.0.0.1"), policy(16, "10.0.0.2"), policy(8, "10.0.0.3")];
    assert!(apply_policies(&req, &policies, &mut resp));
    assert_eq!(resp.address, Some(vec![addr("10.0.0.2")]));
    assert!(!apply_policies(&req, &policies[..1], &mut resp));
    assert_eq!(resp.address, Some(vec![addr("10.0.0.2")]));
}

#[test]
fn options_are_sent_when_asked_for() {
    let req = request_with(&[(OPTION_PARAMLIST, &[OPTION_DNS, 42])]);
    let policy = Policy {
        match_other: options(&[(77, None)]),
        apply_other: options(&[
            (OPTION_DNS, Some(&[8, 8, 8, 8])),
            (42, None),
            (43, Some(b"x")),
        ]),
        ..Default::default()
    };
    let mut resp = Response::default();
    resp.options.mutate_option(&42, Some(&b"time".to_vec()));
    assert_eq!(sent(&resp, 42), Some(b"time".to_vec()));
    assert!(apply_policy(&req, &policy, &mut resp));
    assert_eq!(sent(&resp, OPTION_DNS), Some(vec![8, 8, 8, 8]));
    assert_eq!(sent(&resp, 42), None);
    assert_eq!(sent(&resp, 43), None);
}

#[test]
fn subpolicies_prevail() {
    let req = request_with(&[(OPTION_PARAMLIST, &[OPTION_DNS, 42])]);
    let policy = Policy {
        match_other: options(&[(77, None)]),
        apply_address: Some(vec![addr("10.0.0.1")]),
        apply_other: options(&[(OPTION_DNS, Some(&[8, 8, 8, 8])), (42, Some(b"a"))]),
        policies: vec![Policy {
            match_other: options(&[(78, None)]),
            apply_other: options(&[(OPTION_DNS, Some(&[8, 8, 4, 4]))]),
            ..Default::default()
        }],
        ..Default::default()
    };
    let mut resp = Response::default();
    assert!(apply_policy(&req, &policy, &mut resp));
    assert_eq!(sent(&resp, OPTION_DNS), Some(vec![8, 8, 4, 4]));
    assert_eq!(sent(&resp, 42), Some(b"a".to_vec()));
    assert_eq!(resp.address, Some(vec![addr("10.0.0.1")]));
}

#[test]
fn subnets_imply_options() {
    let mut req = request_with(&[(OPTION_PARAMLIST, &[OPTION_NETMASK, OPTION_BROADCAST])]);
    req.serverip = addr("192.168.77.1");
    let mut policy = Policy { match_subnet: subnet("192.168.64.0", 19), ..Default::default() };
    let mut resp = Response::default();
    assert!(apply_policy(&req, &policy, &mut resp));
    assert_eq!(sent(&resp, OPTION_NETMASK), Some(vec![255, 255, 224, 0]));
    assert_eq!(sent(&resp, OPTION_BROADCAST), Some(vec![192, 168, 95, 255]));

    // Applying the policy again changes nothing.
    assert!(apply_policy(&req, &policy, &mut resp));
    assert_eq!(sent(&resp, OPTION_NETMASK), Some(vec![255, 255, 224, 0]));
    assert_eq!(sent(&resp, OPTION_BROADCAST), Some(vec![192, 168, 95, 255]));
    assert_eq!(resp.options.to_options().other.len(), 2);

    // Neither what is set nor what is not to be sent is replaced.
    policy.apply_other =
        options(&[(OPTION_NETMASK, Some(&[255, 0, 0, 0])), (OPTION_BROADCAST, None)]);
    let mut resp = Response::default();
    assert!(apply_policy(&req, &policy, &mut resp));
    assert_eq!(sent(&resp, OPTION_NETMASK), Some(vec![255, 0, 0, 0]));
    assert_eq!(sent(&resp, OPTION_BROADCAST), None);

    // Nor is anything sent that was not asked for.
    req.pkt.options.other = HashMap::new();
    let mut resp = Response::default();
    assert!(apply_policy(&req, &policy, &mut resp));
    assert_eq!(sent(&resp, OPTION_NETMASK), None);
}

#[test]
fn response_options() {
    let options = ResponseOptions::default()
        .set_raw_option(&1, &[1, 2])
        .set_option(&2, &0x0102_0304u32)
        .set_option(&3, &addr("10.0.0.1"))
        .set_option(&4, &MessageType(5));
    let sent = options.to_options();
    assert_eq!(sent.other.len(), 4);
    assert_eq!(sent.get_option(&1), Some(vec![1, 2]));
    assert_eq!(sent.get_option(&2), Some(vec![1, 2, 3, 4]));
    assert_eq!(sent.get_address(&3), Some(addr("10.0.0.1")));
    assert_eq!(sent.get_option(&4), Some(vec![5]));

    let mut options = options;
    options.mutate_option_default(&1, &7u32);
    options.mutate_option_default(&5, &7u32);
    options.mutate_option(&2, None::<&u32>);
    options.mutate_option_default(&2, &7u32);
    options.mutate_option(&3, Some(&vec![9u8]));
    let sent = options.to_options();
    assert_eq!(sent.get_option(&1), Some(vec![1, 2]));
    assert_eq!(sent.get_option(&2), None);
    assert_eq!(sent.get_option(&3), Some(vec![9]));
    assert_eq!(sent.get_option(&5), Some(vec![0, 0, 0, 7]));

    let mut bytes = vec![1u8];
    vec![2u8, 3].serialise(&mut bytes);
    assert_eq!(bytes, vec![1, 2, 3]);
}

#[test]
fn subnet_members() {
    let s = subnet("192.168.64.5", 19).unwrap();
    assert_eq!(s.netmask(), addr("255.255.224.0"));
    assert_eq!(s.broadcast(), addr("192.168.95.255"));
    assert!(s.contains(addr("192.168.64.0")));
    assert!(s.contains(addr("192.168.95.255")));
    assert!(!s.contains(addr("192.168.63.255")));
    assert!(!s.contains(addr("192.168.96.0")));
    let everything = subnet("1.2.3.4", 0).unwrap();
    assert_eq!(everything.netmask(), addr("0.0.0.0"));
    assert_eq!(everything.broadcast(), addr("255.255.255.255"));
    assert!(everything.contains(addr("9.9.9.9")));
    let one = subnet("1.2.3.4", 32).unwrap();
    assert_eq!(one.netmask(), addr("255.255.255.255"));
    assert_eq!(one.broadcast(), addr("1.2.3.4"));
    assert!(one.contains(addr("1.2.3.4")));
    assert!(!one.contains(addr("1.2.3.5")));
    assert!(Ipv4Subnet::new(addr("1.2.3.4"), 33).is_none());
}
