use std::time::{SystemTime, UNIX_EPOCH};

use erbium_dhcp::allocation::{bound_lease_time, Action, Event, LeaseRecord, Outcome};
use erbium_dhcp::config::{Config, DhcpConfig, Policy};
use erbium_dhcp::dhcppkt::{DHCPREQUEST, OPTION_MSGTYPE};
use erbium_dhcp::handler::{complete, handle_pkt, ServerIds};
use erbium_dhcp::ipv4::Ipv4Addr;
use erbium_dhcp::pool::{map_no_row_to_none, DbFailure, Error, Lease, Netblock, Pools};
use erbium_dhcp::request::DHCPRequest;
use erbium_dhcp::selection::{lease_requested_address, unreadable_address};
use erbium_dhcp::selection::{LeaseQuery, LeaseRow, Progress, Selection};
use erbium_dhcp::sql::{CREATE_LEASES, STORE_LEASE};
use erbium_dhcp::service::{policy_pools, POLICY_POOL};
use erbium_dhcp::subnet::Ipv4Subnet;
use rusqlite::{Connection, ToSql};

fn addr(s: &str) -> Ipv4Addr {
    Ipv4Addr::parse(s).expect("Not an address")
}

fn now() -> u64 {
    SystemTime::now().duration_since(UNIX_EPOCH).expect("clock failure").as_secs()
}

fn failure(e: rusqlite::Error) -> DbFailure {
    if e == rusqlite::Error::QueryReturnedNoRows {
        DbFailure::QueryReturnedNoRows
    } else {
        DbFailure::Other(e.to_string())
    }
}

/// Pools with a lease database in memory.
struct Database {
    conn: Connection,
    pools: Pools,
}

impl Database {
    fn new_in_memory() -> Database {
        let conn = Connection::open_in_memory().expect("Failed to create in memory pools");
        conn.execute(CREATE_LEASES, &[] as &[&dyn ToSql]).expect("Creating table leases");
        Database { conn, pools: Pools::new() }
    }

    fn with_default_pool() -> Database {
        let mut p = Database::new_in_memory();
        p.pools.add_pool("default").expect("Failed to create default pool");
        p
    }

    fn with_subnet() -> Database {
        let mut p = Database::with_default_pool();
        p.pools
            .add_subnet("default", Netblock { addr: addr("192.168.0.0"), prefixlen: 24 })
            .expect("Failed to add subnet to default pool");
        p
    }

    fn ask(&self, query: &LeaseQuery) -> Result<LeaseRow, DbFailure> {
        let sql = query.statement();
        match query {
            LeaseQuery::Current { pool, clientid, at } => self.conn.query_row(
                sql,
                &[pool as &dyn ToSql, clientid, at] as &[&dyn ToSql],
                |row| Ok(LeaseRow::Current { address: row.get(0)?, expiry: row.get(1)? }),
            ),
            LeaseQuery::Previous { pool, clientid } => self.conn.query_row(
                sql,
                &[pool as &dyn ToSql, clientid] as &[&dyn ToSql],
                |row| {
                    Ok(LeaseRow::Previous {
                        address: row.get(0)?,
                        start: row.get(1)?,
                        expiry: row.get(2)?,
                    })
                },
            ),
            LeaseQuery::InUse { pool, address, at } => self.conn.query_row(
                sql,
                &[pool as &dyn ToSql, at, address] as &[&dyn ToSql],
                |_row| Ok(LeaseRow::InUse),
            ),
        }
        .map_err(failure)
    }

    fn store(&self, record: &LeaseRecord) {
        self.conn
            .execute(
                STORE_LEASE,
                &[
                    &record.pool as &dyn ToSql,
                    &record.address,
                    &record.clientid,
                    &record.start,
                    &record.expiry,
                ] as &[&dyn ToSql],
            )
            .expect("Updating lease database failed");
    }

    fn select_address(
        &self,
        name: &str,
        clientid: &[u8],
        requested: Option<Ipv4Addr>,
    ) -> Result<Lease, Error> {
        let mut selection = self.pools.select_address(name, clientid, requested, now());
        loop {
            let reply = self.ask(&selection.query());
            match self.pools.resume(selection, reply) {
                Progress::Ask(next) => selection = next,
                Progress::Done(outcome) => return outcome,
            }
        }
    }

    fn allocate_address_at(
        &self,
        name: &str,
        clientid: &[u8],
        requested: Option<Ipv4Addr>,
        ts: u64,
    ) -> Result<Lease, Error> {
        let mut allocation = self.pools.allocate_address(name, clientid, requested, ts);
        loop {
            let event = match allocation.action() {
                Action::Ask(query) => Event::Reply(self.ask(&query)),
                Action::ReadClock => Event::Clock(ts),
                Action::Store(record) => {
                    self.store(&record);
                    Event::Stored
                }
            };
            match self.pools.proceed(allocation, event) {
                Outcome::Pending(next) => allocation = next,
                Outcome::Finished(outcome) => return outcome,
            }
        }
    }

    fn allocate_address(
        &self,
        name: &str,
        clientid: &[u8],
        requested: Option<Ipv4Addr>,
    ) -> Result<Lease, Error> {
        self.allocate_address_at(name, clientid, requested, now())
    }

    fn reserve_address_internal(
        &self,
        pool_name: &str,
        client_id: &[u8],
        address: Ipv4Addr,
        expired: bool,
    ) {
        self.store(&LeaseRecord {
            pool: pool_name.into(),
            address: address.to_string(),
            clientid: client_id.to_vec(),
            // Reserved from the beginning of time
            start: 0,
            // Until the end of time
            expiry: if expired { 0 } else { 0xFFFFFFFFu32 },
        });
    }

    fn reserve_address(&self, pool_name: &str, client_id: &[u8], address: Ipv4Addr) {
        self.reserve_address_internal(pool_name, client_id, address, false);
    }

    fn reserve_expired_address(&self, pool_name: &str, client_id: &[u8], address: Ipv4Addr) {
        self.reserve_address_internal(pool_name, client_id, address, true);
    }
}

#[test]
fn smoke_test() {
    let p = Database::with_subnet();
    p.allocate_address("default", b"client", None).expect("Didn't get allocated an address?!");
}

#[test]
fn empty_pool() {
    let p = Database::with_default_pool();
    /* Deliberately don't add any addresses, so we'll fail when we try and allocate something */
    assert_eq!(
        p.allocate_address("default", b"client", None)
            .expect_err("Got allocated an address from an empty pool!"),
        Error::NoAssignableAddress
    );
}

#[test]
fn reacquire_lease() {
    /* o The client's current address as recorded in the client's current binding */
    let requested = addr("192.168.0.100");
    let p = Database::with_default_pool();
    p.reserve_address("default", b"client", requested);
    let lease = p
        .allocate_address("default", b"client", Some(requested))
        .expect("Failed to allocate address");

    assert_eq!(lease.ip, requested);
    assert!(lease.expire > 0);
}

#[test]
fn reacquire_expired_lease() {
    /* o The client's previous address as recorded in the client's (now expired or released)
     * binding, if that address is in the server's pool of available addresses and not already
     * allocated */
    let p = Database::with_default_pool();
    let requested = addr("192.168.0.100");
    p.reserve_expired_address("default", b"client", requested);
    let lease = p
        .allocate_address("default", b"client", Some(requested))
        .expect("Failed to allocate address");

    assert_eq!(lease.ip, requested);
    assert!(lease.expire > 0);
}

#[test]
fn acquire_requested_address_success() {
    /* o The address requested in the 'Requested IP Address' option, if that address is valid and
     * not already allocated, ELSE
     */
    let requested = addr("192.168.0.101");
    let p = Database::with_subnet();
    let lease = p
        .allocate_address("default", b"client", Some(requested))
        .expect("Failed to allocate address");

    assert_eq!(lease.ip, requested);
}

#[test]
fn acquire_requested_address_in_use() {
    /* o The address requested in the 'Requested IP Address' option, if that address is valid and
     * not already allocated, ELSE
     */
    let requested = addr("192.168.0.101");
    let p = Database::with_subnet();
    p.reserve_address("default", b"other-client", requested);

    let lease = p
        .allocate_address("default", b"client", Some(requested))
        .expect("Failed to allocate address");

    /* Do not assigned the reserved address! */
    assert_ne!(lease.ip, requested);
}

#[test]
fn acquire_requested_address_invalid() {
    /* o The address requested in the 'Requested IP Address' option, if that address is valid and
     * not already allocated, ELSE
     */
    let p = Database::with_subnet();
    let requested = addr("10.0.0.1");
    let lease = p
        .select_address("default", b"client", Some(requested))
        .expect("Failed to allocate address");

    /* Do not assigned the reserved address! */
    assert_ne!(lease.ip, requested);
}

#[test]
fn unknown_pool() {
    let p = Database::new_in_memory();
    assert_eq!(
        p.allocate_address("nowhere", b"client", None),
        Err(Error::NoSuchPool("nowhere".into()))
    );
    assert_eq!(
        p.allocate_address("nowhere", b"client", Some(addr("10.0.0.1"))),
        Err(Error::NoSuchPool("nowhere".into()))
    );
}

#[test]
fn corrupt_database() {
    let p = Database::with_default_pool();
    p.store(&LeaseRecord {
        pool: "default".into(),
        address: "192.168.0.\"".into(),
        clientid: b"current".to_vec(),
        start: 0,
        expiry: 0xFFFFFFFF,
    });
    p.store(&LeaseRecord {
        pool: "default".into(),
        address: "192.168.0.256".into(),
        clientid: b"previous".to_vec(),
        start: 0,
        expiry: 0,
    });
    assert_eq!(
        p.allocate_address("default", b"current", None),
        Err(Error::CorruptDatabase(
            "Failed to parse IP: invalid IPv4 address syntax (\"192.168.0.\\\"\")".into()
        ))
    );
    assert_eq!(
        p.allocate_address("default", b"previous", None),
        Err(Error::CorruptDatabase(
            "Failed to parse IP: \"invalid IPv4 address syntax\" (\"192.168.0.256\")".into()
        ))
    );
    p.store(&LeaseRecord {
        pool: "default".into(),
        address: "nowhere".into(),
        clientid: b"backwards".to_vec(),
        start: 10,
        expiry: 5,
    });
    assert_eq!(
        p.allocate_address("default", b"backwards", None),
        Err(Error::CorruptDatabase(
            "Failed to parse IP: \"invalid IPv4 address syntax\" (\"nowhere\")".into()
        ))
    );
    assert_eq!(unreadable_address("Odd address", "'x'"), "Odd address ('x')");
}

#[test]
fn database_failure() {
    let p = Database::with_default_pool();
    p.conn.execute("DROP TABLE leases", &[] as &[&dyn ToSql]).unwrap();
    match p.allocate_address("default", b"client", None) {
        Err(Error::DbError(reason, DbFailure::Other(_))) => {
            assert_eq!(reason, "Database query Error")
        }
        other => panic!("{:?}", other),
    }
}

#[test]
fn current_lease_keeps_what_is_left() {
    let p = Database::with_subnet();
    let ip = addr("192.168.0.7");
    p.store(&LeaseRecord {
        pool: "default".into(),
        address: ip.to_string(),
        clientid: b"client".to_vec(),
        start: 1000,
        expiry: 11000,
    });
    let lease = p.allocate_address_at("default", b"client", None, 2000).unwrap();
    assert_eq!(lease, Lease { ip, expire: 9000 });
}

#[test]
fn expired_lease_is_doubled() {
    let p = Database::with_subnet();
    let ip = addr("192.168.0.7");
    p.store(&LeaseRecord {
        pool: "default".into(),
        address: ip.to_string(),
        clientid: b"client".to_vec(),
        start: 1000,
        expiry: 2000,
    });
    // A lease that ends now is not current any more.
    let lease = p.allocate_address_at("default", b"client", None, 2000).unwrap();
    assert_eq!(lease, Lease { ip, expire: 2000 });
    let lease = p.allocate_address_at("default", b"client", None, 5000).unwrap();
    assert_eq!(lease, Lease { ip, expire: 4000 });
}

#[test]
fn lease_times_are_bounded() {
    assert_eq!(bound_lease_time(0, 300, 86400), 300);
    assert_eq!(bound_lease_time(299, 300, 86400), 300);
    assert_eq!(bound_lease_time(300, 300, 86400), 300);
    assert_eq!(bound_lease_time(301, 300, 86400), 301);
    assert_eq!(bound_lease_time(86400, 300, 86400), 86400);
    assert_eq!(bound_lease_time(86401, 300, 86400), 86400);
    assert_eq!(bound_lease_time(5, 9, 7), 7);
    let p = Database::with_subnet();
    let lease = p.allocate_address_at("default", b"client", None, 1000).unwrap();
    assert_eq!(lease.expire, 300);
}

#[test]
fn lease_is_given_again() {
    let p = Database::with_subnet();
    let first = p.allocate_address_at("default", b"client", None, 1000).unwrap();
    // The lease is for five minutes, and a renewal is for at least as long.
    let second = p.allocate_address_at("default", b"client", None, 1100).unwrap();
    assert_eq!(second.ip, first.ip);
    assert_eq!(second.expire, 300);
    let selected = p.pools.select_address("default", b"client", None, 1250);
    match p.ask(&selected.query()) {
        Ok(LeaseRow::Current { address, expiry }) => {
            assert_eq!(address, first.ip.to_string());
            assert_eq!(expiry, 1400);
        }
        other => panic!("{:?}", other),
    }
}

#[test]
fn every_address_is_given_once() {
    let mut p = Database::with_default_pool();
    p.pools
        .add_subnet("default", Netblock { addr: addr("10.0.0.0"), prefixlen: 24 })
        .unwrap();
    let mut given: Vec<Ipv4Addr> = Vec::new();
    for client in 0..254u8 {
        let lease = p.allocate_address_at("default", &[client], None, 1000).unwrap();
        assert!(!given.contains(&lease.ip));
        given.push(lease.ip);
    }
    assert_eq!(
        p.allocate_address_at("default", b"one too many", None, 1000),
        Err(Error::NoAssignableAddress)
    );
    // An address is in use up to and including the second in which its lease ends.
    assert_eq!(
        p.allocate_address_at("default", b"one too many", None, 1300),
        Err(Error::NoAssignableAddress)
    );
    let lease = p.allocate_address_at("default", b"one too many", None, 1301).unwrap();
    assert!(given.contains(&lease.ip));
}

#[test]
fn pools_are_separate() {
    let mut p = Database::with_default_pool();
    let ip = addr("10.0.0.1");
    p.pools.add_pool("other").unwrap();
    p.pools.add_addr("default", ip).unwrap();
    p.pools.add_addr("other", ip).unwrap();
    assert_eq!(p.allocate_address("default", b"a", None).unwrap().ip, ip);
    assert_eq!(p.allocate_address("other", b"b", None).unwrap().ip, ip);
}

#[test]
fn adding_to_pools() {
    let mut pools = Pools::new();
    assert_eq!(pools.add_addr("a", addr("10.0.0.1")), Err(Error::NoSuchPool("a".into())));
    assert_eq!(
        pools.add_subnet("a", Netblock { addr: addr("10.0.0.0"), prefixlen: 24 }),
        Err(Error::NoSuchPool("a".into()))
    );
    assert_eq!(pools.add_pool("a"), Ok(()));
    assert_eq!(pools.add_pool("a"), Err(Error::DuplicatePool("a".into())));
    assert_eq!(pools.add_pool("b"), Ok(()));
    assert_eq!(pools.add_addr("a", addr("10.0.0.1")), Ok(()));
    assert_eq!(pools.add_addr("a", addr("10.0.0.2")), Ok(()));
    assert_eq!(pools.addresses("a"), Ok(vec![addr("10.0.0.1"), addr("10.0.0.2")]));
    assert_eq!(pools.addresses("b"), Ok(vec![]));
    assert_eq!(pools.addresses("c"), Err(Error::NoSuchPool("c".into())));
    assert_eq!(pools.has_address("a", addr("10.0.0.2")), Ok(true));
    assert_eq!(pools.has_address("a", addr("10.0.0.3")), Ok(false));
    assert_eq!(pools.has_address("c", addr("10.0.0.3")), Err(Error::NoSuchPool("c".into())));
}

#[test]
fn subnets() {
    let mut pools = Pools::new();
    pools.add_pool("a").unwrap();
    pools.add_subnet("a", Netblock { addr: addr("192.168.7.9"), prefixlen: 24 }).unwrap();
    let addresses = pools.addresses("a").unwrap();
    assert_eq!(addresses.len(), 254);
    assert_eq!(addresses[0], addr("192.168.7.1"));
    assert_eq!(addresses[253], addr("192.168.7.254"));
    pools.add_pool("b").unwrap();
    pools.add_subnet("b", Netblock { addr: addr("192.168.7.4"), prefixlen: 30 }).unwrap();
    assert_eq!(pools.addresses("b"), Ok(vec![addr("192.168.7.5"), addr("192.168.7.6")]));
}

#[test]
fn netmasks() {
    let mask = |prefixlen| Netblock { addr: addr("255.255.255.255"), prefixlen }.netmask();
    assert_eq!(mask(0), addr("0.0.0.0"));
    assert_eq!(mask(8), addr("255.0.0.0"));
    assert_eq!(mask(16), addr("255.255.0.0"));
    assert_eq!(mask(24), addr("255.255.255.0"));
    assert_eq!(mask(20), addr("255.255.15.0"));
    assert_eq!(mask(30), addr("255.255.255.63"));
}

#[test]
fn candidates_are_tried_in_order() {
    let pools = Pools::new();
    let ask = |selection: &Selection| match selection.query() {
        LeaseQuery::InUse { pool, address, at } => {
            assert_eq!(pool, "p");
            assert_eq!(at, 77);
            address
        }
        other => panic!("{:?}", other),
    };
    let none = pools.select_address("p", b"c", None, 77).in_order(vec![]);
    assert!(matches!(none, Progress::Done(Err(Error::NoAssignableAddress))));
    let order = vec![addr("10.0.0.3"), addr("10.0.0.1")];
    let first = match pools.select_address("p", b"c", None, 77).in_order(order) {
        Progress::Ask(selection) => selection,
        Progress::Done(_) => panic!("done"),
    };
    assert_eq!(ask(&first), "10.0.0.3");
    let second = match pools.resume(first, Ok(LeaseRow::InUse)) {
        Progress::Ask(selection) => selection,
        Progress::Done(_) => panic!("done"),
    };
    assert_eq!(ask(&second), "10.0.0.1");
    match pools.resume(second, Err(DbFailure::QueryReturnedNoRows)) {
        Progress::Done(Ok(lease)) => assert_eq!(lease, Lease { ip: addr("10.0.0.1"), expire: 0 }),
        _ => panic!("not done"),
    }
}

#[test]
fn addresses_are_shuffled() {
    // Of all the addresses of a subnet, the one that is tried first varies.
    let p = Database::with_subnet();
    let mut firsts: Vec<Ipv4Addr> = Vec::new();
    for _ in 0..50 {
        let lease = p.select_address("default", b"client", None).unwrap();
        assert_eq!(p.pools.has_address("default", lease.ip), Ok(true));
        if !firsts.contains(&lease.ip) {
            firsts.push(lease.ip);
        }
    }
    assert!(firsts.len() > 1);
}

#[test]
fn records_cut_times_to_32_bits() {
    let pools = {
        let mut pools = Pools::new();
        pools.add_pool("p").unwrap();
        pools.add_addr("p", addr("10.0.0.1")).unwrap();
        pools
    };
    let ts = 0x1_0000_0000u64 + 5;
    let mut allocation = pools.allocate_address("p", b"c", None, ts);
    let record = loop {
        let event = match allocation.action() {
            Action::Ask(LeaseQuery::Current { at, .. }) => {
                assert_eq!(at, 5);
                Event::Reply(Err(DbFailure::QueryReturnedNoRows))
            }
            Action::Ask(_) => Event::Reply(Err(DbFailure::QueryReturnedNoRows)),
            Action::ReadClock => Event::Clock(ts - 100),
            Action::Store(record) => break record,
        };
        match pools.proceed(allocation, event) {
            Outcome::Pending(next) => allocation = next,
            Outcome::Finished(_) => panic!("finished"),
        }
    };
    assert_eq!(
        record,
        LeaseRecord {
            pool: "p".into(),
            address: "10.0.0.1".into(),
            clientid: b"c".to_vec(),
            start: 0xFFFF_FFA1,
            expiry: 205,
        }
    );
}

#[test]
fn missing_rows() {
    assert_eq!(map_no_row_to_none::<()>(DbFailure::QueryReturnedNoRows), Ok(None));
    assert_eq!(
        map_no_row_to_none::<()>(DbFailure::Other("no such table".into())),
        Err(Error::DbError(
            "Database query Error".into(),
            DbFailure::Other("no such table".into())
        ))
    );
}

#[test]
fn errors_in_words() {
    assert_eq!(
        Error::emit("Creating table leases".into(), DbFailure::Other("disk full".into()))
            .to_string(),
        "Creating table leases: disk full"
    );
    assert_eq!(
        Error::emit("Looking".into(), failure(rusqlite::Error::QueryReturnedNoRows)).to_string(),
        format!("Looking: {}", rusqlite::Error::QueryReturnedNoRows)
    );
    assert_eq!(Error::NoSuchPool("x".into()).to_string(), "No Such Pool: x");
    assert_eq!(Error::DuplicatePool("x".into()).to_string(), "Duplicate Pool: x");
    assert_eq!(Error::CorruptDatabase("x".into()).to_string(), "Corrupt Database: x");
    assert_eq!(Error::NoAssignableAddress.to_string(), "No Assignable Address");
}

#[test]
fn replies_tell_what_is_recorded() {
    let conf = Config {
        dhcp: DhcpConfig {
            policies: vec![Policy {
                match_subnet: Ipv4Subnet::new(addr("10.0.0.0"), 8),
                apply_address: Some(vec![addr("10.0.0.1"), addr("10.0.0.2")]),
                ..Default::default()
            }],
        },
    };
    let mut req = DHCPRequest { serverip: addr("10.9.9.9"), ..Default::default() };
    req.pkt.options.other.insert(OPTION_MSGTYPE, vec![DHCPREQUEST]);
    let pending = match handle_pkt(&req, ServerIds::new(), &conf) {
        Ok(pending) => pending,
        Err(e) => panic!("{}", e.to_string()),
    };
    let mut p = Database::new_in_memory();
    p.pools = policy_pools(&pending.address.addresses);
    p.reserve_address(POLICY_POOL, b"other-client", addr("10.0.0.1"));
    let clientid = pending.address.clientid.clone();
    let outcome =
        p.allocate_address_at(POLICY_POOL, &clientid, pending.address.requested, 1000);
    let reply = complete(&req, pending, outcome).expect("No reply");
    assert_eq!(reply.yiaddr, addr("10.0.0.2"));
    assert_eq!(reply.options.get_leasetime(), Some(300));
    let row: (Vec<u8>, u32, u32) = p
        .conn
        .query_row(
            "SELECT clientid, start, expiry FROM leases WHERE pool = ?1 AND address = ?2",
            &[&POLICY_POOL as &dyn ToSql, &"10.0.0.2"] as &[&dyn ToSql],
            |row| Ok((row.get(0)?, row.get(1)?, row.get(2)?)),
        )
        .unwrap();
    assert_eq!(row, (req.pkt.chaddr, 1000, 1300));
}

#[test]
fn requested_addresses_are_looked_at() {
    let p = Database::with_subnet();
    let look = |pool: &str, requested: Ipv4Addr, at: u64| {
        let selection = p.pools.select_address(pool, b"client", None, at);
        match p.pools.select_requested_address(selection, requested) {
            Progress::Done(outcome) => outcome,
            Progress::Ask(asked) => lease_requested_address(requested, p.ask(&asked.query())),
        }
    };
    let ip = addr("192.168.0.101");
    let free = Ok(Lease { ip, expire: 0 });
    assert_eq!(look("default", ip, 1000), free);
    assert_eq!(look("nowhere", ip, 1000), Err(Error::NoSuchPool("nowhere".into())));
    assert_eq!(look("default", addr("10.0.0.1"), 1000), Err(Error::NoAssignableAddress));
    p.store(&LeaseRecord {
        pool: "default".into(),
        address: ip.to_string(),
        clientid: b"other-client".to_vec(),
        start: 500,
        expiry: 1000,
    });
    assert_eq!(look("default", ip, 999), Err(Error::NoAssignableAddress));
    assert_eq!(look("default", ip, 1000), Err(Error::NoAssignableAddress));
    assert_eq!(look("default", ip, 1001), free);
    assert_eq!(
        lease_requested_address(ip, Err(DbFailure::Other("locked".into()))),
        Err(Error::DbError("Database query Error".into(), DbFailure::Other("locked".into())))
    );
}

#[test]
fn clients_have_one_binding() {
    let p = Database::with_subnet();
    let asked = [Some(addr("192.168.0.9")), None, Some(addr("192.168.0.10"))];
    for (i, requested) in asked.iter().enumerate() {
        p.allocate_address_at("default", b"client", *requested, 1000 + 200 * i as u64).unwrap();
        p.allocate_address_at("default", b"other-client", *requested, 90000 * i as u64).unwrap();
    }
    let count: u32 = p
        .conn
        .query_row(
            "SELECT count(*) FROM leases WHERE clientid = ?1",
            &[&b"client".to_vec() as &dyn ToSql] as &[&dyn ToSql],
            |row| row.get(0),
        )
        .unwrap();
    assert_eq!(count, 1);
}
