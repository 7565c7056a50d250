//! DHCP pool management: the named pools, and the errors of allocating from them.
use rand::seq::SliceRandom;
use vstd::arithmetic::power2::pow2;
use vstd::prelude::*;

use crate::ipv4::Ipv4Addr;

verus! {

/// An address lent to a client.
#[derive(Clone, Copy, Debug, PartialEq, Eq, Structural)]
pub struct Lease {
    pub ip: Ipv4Addr,
    /// How long the address is lent for, in seconds.
    pub expire: u64,
}

/// The addresses of one pool.
pub struct PoolInfo {
    addresses: Vec<Ipv4Addr>,
}

/// The named pools that addresses are allocated from.
pub struct Pools {
    poolinfo: Vec<(String, PoolInfo)>,
}

/// Why a query of the lease database gave no row.
#[derive(Debug, PartialEq)]
pub enum DbFailure {
    /// The query succeeded and no row matches.
    QueryReturnedNoRows,
    /// The query failed, for the reason given.
    Other(String),
}

/// Why an operation on the pools failed.
#[derive(Debug, PartialEq)]
pub enum Error {
    DbError(String, DbFailure),
    NoSuchPool(String),
    DuplicatePool(String),
    CorruptDatabase(String),
    NoAssignableAddress,
}

/// The meaning of a `DbFailure`.
pub enum DbFailureView {
    QueryReturnedNoRows,
    Other(Seq<char>),
}

/// The meaning of an `Error`.
pub enum ErrorView {
    DbError(Seq<char>, DbFailureView),
    NoSuchPool(Seq<char>),
    DuplicatePool(Seq<char>),
    CorruptDatabase(Seq<char>),
    NoAssignableAddress,
}

impl View for DbFailure {
    type V = DbFailureView;

    open spec fn view(&self) -> DbFailureView {
        match *self {
            DbFailure::QueryReturnedNoRows => DbFailureView::QueryReturnedNoRows,
            DbFailure::Other(reason) => DbFailureView::Other(reason@),
        }
    }
}

impl View for Error {
    type V = ErrorView;

    open spec fn view(&self) -> ErrorView {
        match *self {
            Error::DbError(reason, failure) => ErrorView::DbError(reason@, failure@),
            Error::NoSuchPool(name) => ErrorView::NoSuchPool(name@),
            Error::DuplicatePool(name) => ErrorView::DuplicatePool(name@),
            Error::CorruptDatabase(reason) => ErrorView::CorruptDatabase(reason@),
            Error::NoAssignableAddress => ErrorView::NoAssignableAddress,
        }
    }
}

/// A result, with the meaning of its error.
pub open spec fn result_view<T>(r: Result<T, Error>) -> Result<T, ErrorView> {
    match r {
        Ok(t) => Ok(t),
        Err(e) => Err(e@),
    }
}

impl DbFailureView {
    /// The failure in words.
    pub open spec fn text(self) -> Seq<char> {
        match self {
            DbFailureView::QueryReturnedNoRows => "Query returned no rows"@,
            DbFailureView::Other(reason) => reason,
        }
    }
}

impl ErrorView {
    /// The error in words.
    pub open spec fn text(self) -> Seq<char> {
        match self {
            ErrorView::DbError(reason, failure) => reason + ": "@ + failure.text(),
            ErrorView::NoSuchPool(name) => "No Such Pool: "@ + name,
            ErrorView::DuplicatePool(name) => "Duplicate Pool: "@ + name,
            ErrorView::CorruptDatabase(reason) => "Corrupt Database: "@ + reason,
            ErrorView::NoAssignableAddress => "No Assignable Address"@,
        }
    }
}

impl DbFailure {
    /// The failure in words.
    pub fn to_string(&self) -> (s: String)
        ensures
            s@ == self@.text(),
    {
        match self {
            DbFailure::QueryReturnedNoRows => "Query returned no rows".to_owned(),
            DbFailure::Other(reason) => reason.clone(),
        }
    }
}

impl Error {
    /// The error in words.
    pub fn to_string(&self) -> (s: String)
        ensures
            s@ == self@.text(),
    {
        match self {
            Error::DbError(reason, failure) => reason.clone().concat(": ").concat(
                failure.to_string().as_str(),
            ),
            Error::NoSuchPool(name) => "No Such Pool: ".to_owned().concat(name.as_str()),
            Error::DuplicatePool(name) => "Duplicate Pool: ".to_owned().concat(name.as_str()),
            Error::CorruptDatabase(reason) => "Corrupt Database: ".to_owned().concat(
                reason.as_str(),
            ),
            Error::NoAssignableAddress => "No Assignable Address".to_owned(),
        }
    }

    /// The error of a database failure, with what was being done.
    pub fn emit(reason: String, e: DbFailure) -> (r: Error)
        ensures
            r@ == ErrorView::DbError(reason@, e@),
    {
        Error::DbError(reason, e)
    }
}

/// What a query without a row means: that there is none, unless the query failed.
pub open spec fn no_row_view(e: DbFailureView) -> Option<ErrorView> {
    match e {
        DbFailureView::QueryReturnedNoRows => None,
        _ => Some(ErrorView::DbError("Database query Error"@, e)),
    }
}

/// Turns the absence of a row into `None`, and passes on every other failure.
pub fn map_no_row_to_none<T>(e: DbFailure) -> (r: Result<Option<T>, Error>)
    ensures
        match no_row_view(e@) {
            None => r == Ok::<Option<T>, Error>(None),
            Some(error) => r is Err && r->Err_0@ == error,
        },
{
    match e {
        DbFailure::QueryReturnedNoRows => Ok(None),
        e => Err(Error::emit("Database query Error".to_owned(), e)),
    }
}

impl View for Pools {
    type V = Map<Seq<char>, Seq<Ipv4Addr>>;

    /// The addresses of each pool, in the order in which they were added.
    closed spec fn view(&self) -> Map<Seq<char>, Seq<Ipv4Addr>> {
        Map::new(
            |name: Seq<char>| exists|i: int| is_named(self.poolinfo@, i, name),
            |name: Seq<char>|
                self.poolinfo@[choose|i: int|
                    is_named(self.poolinfo@, i, name)].1.addresses@,
        )
    }
}

/// The pool at a position has the name.
spec fn is_named(poolinfo: Seq<(String, PoolInfo)>, i: int, name: Seq<char>) -> bool {
    0 <= i < poolinfo.len() && poolinfo[i].0@ == name
}

/// No two pools share a name.
spec fn are_distinct(poolinfo: Seq<(String, PoolInfo)>) -> bool {
    forall|i: int, j: int, name: Seq<char>| #[trigger]
        is_named(poolinfo, i, name) && #[trigger] is_named(poolinfo, j, name) ==> i == j
}

impl Pools {
    #[verifier::type_invariant]
    spec fn valid(self) -> bool {
        are_distinct(self.poolinfo@)
    }

    /// No pools at all.
    pub fn new() -> (pools: Pools)
        ensures
            pools@ == Map::<Seq<char>, Seq<Ipv4Addr>>::empty(),
    {
        let pools = Pools { poolinfo: Vec::new() };
        assert(pools@ =~= Map::<Seq<char>, Seq<Ipv4Addr>>::empty());
        pools
    }

    /// The position of a pool.
    fn find(&self, name: &str) -> (r: Option<usize>)
        ensures
            match r {
                Some(i) => {
                    &&& is_named(self.poolinfo@, i as int, name@)
                    &&& self@.contains_key(name@)
                    &&& self@[name@] == self.poolinfo@[i as int].1.addresses@
                },
                None => {
                    &&& !self@.contains_key(name@)
                    &&& forall|i: int| !is_named(self.poolinfo@, i, name@)
                },
            },
    {
        proof {
            use_type_invariant(self);
        }
        let key = name.to_owned();
        let mut i: usize = 0;
        while i < self.poolinfo.len()
            invariant
                self.valid(),
                key@ == name@,
                i <= self.poolinfo@.len(),
                forall|k: int| 0 <= k < i ==> !is_named(self.poolinfo@, k, name@),
            decreases self.poolinfo@.len() - i,
        {
            if self.poolinfo[i].0 == key {
                assert(is_named(self.poolinfo@, i as int, name@));
                return Some(i);
            }
            i = i + 1;
        }
        None
    }

    /// Adds a pool without addresses.
    pub fn add_pool(&mut self, name: &str) -> (r: Result<(), Error>)
        ensures
            result_view(r) == if old(self)@.contains_key(name@) {
                Err(ErrorView::DuplicatePool(name@))
            } else {
                Ok(())
            },
            final(self)@ == if old(self)@.contains_key(name@) {
                old(self)@
            } else {
                old(self)@.insert(name@, Seq::empty())
            },
    {
        if self.find(name).is_some() {
            return Err(Error::DuplicatePool(name.to_owned()));
        }
        proof {
            use_type_invariant(&*self);
        }
        let mut poolinfo: Vec<(String, PoolInfo)> = Vec::new();
        std::mem::swap(&mut poolinfo, &mut self.poolinfo);
        poolinfo.push((name.to_owned(), PoolInfo { addresses: Vec::new() }));
        let ghost before = *old(self);
        proof {
            let last = before.poolinfo@.len() as int;
            assert(is_named(poolinfo@, last, name@));
            assert forall|i: int, n: Seq<char>| #[trigger] is_named(poolinfo@, i, n) implies (i
                == last && n == name@) || is_named(before.poolinfo@, i, n) by {}
            assert forall|i: int, n: Seq<char>| #[trigger]
                is_named(before.poolinfo@, i, n) implies is_named(poolinfo@, i, n) by {}
        }
        self.poolinfo = poolinfo;
        assert(self@ =~= before@.insert(name@, Seq::empty()));
        Ok(())
    }

    /// Adds an address at the end of a pool.
    pub fn add_addr(&mut self, name: &str, addr: Ipv4Addr) -> (r: Result<(), Error>)
        ensures
            result_view(r) == if old(self)@.contains_key(name@) {
                Ok(())
            } else {
                Err(ErrorView::NoSuchPool(name@))
            },
            final(self)@ == if old(self)@.contains_key(name@) {
                old(self)@.insert(name@, old(self)@[name@].push(addr))
            } else {
                old(self)@
            },
    {
        match self.find(name) {
            None => Err(Error::NoSuchPool(name.to_owned())),
            Some(i) => {
                proof {
                    use_type_invariant(&*self);
                }
                let mut poolinfo: Vec<(String, PoolInfo)> = Vec::new();
                std::mem::swap(&mut poolinfo, &mut self.poolinfo);
                poolinfo[i].1.addresses.push(addr);
                let ghost before = *old(self);
                proof {
                    assert forall|k: int, n: Seq<char>| #[trigger]
                        is_named(poolinfo@, k, n) implies is_named(before.poolinfo@, k, n) by {}
                    assert forall|k: int, n: Seq<char>| #[trigger]
                        is_named(before.poolinfo@, k, n) implies is_named(poolinfo@, k, n) by {}
                }
                self.poolinfo = poolinfo;
                assert(self@ =~= before@.insert(name@, before@[name@].push(addr)));
                Ok(())
            },
        }
    }
}

impl Pools {
    /// Adds the addresses of a netblock to a pool, lowest first.
    pub fn add_subnet(&mut self, name: &str, netblock: Netblock) -> (r: Result<(), Error>)
        requires
            old(self)@.contains_key(name@) ==> 1 <= netblock.prefixlen <= 30,
        ensures
            result_view(r) == if old(self)@.contains_key(name@) {
                Ok(())
            } else {
                Err(ErrorView::NoSuchPool(name@))
            },
            final(self)@ == if old(self)@.contains_key(name@) {
                old(self)@.insert(name@, old(self)@[name@] + netblock.hosts())
            } else {
                old(self)@
            },
    {
        if self.find(name).is_none() {
            return Err(Error::NoSuchPool(name.to_owned()));
        }
        let base: u32 = netblock.netmask().bits;
        proof {
            lemma_hosts_fit(netblock.addr.bits, netblock.prefixlen);
        }
        let end: u32 = (1u32 << (32 - netblock.prefixlen) as u32) - 1;
        let mut i: u32 = 1;
        assert(old(self)@ =~= old(self)@.insert(
            name@,
            old(self)@[name@] + hosts_from(base, 0),
        )) by {
            assert(old(self)@[name@] + hosts_from(base, 0) =~= old(self)@[name@]);
        }
        while i < end
            invariant
                1 <= i <= end,
                base + end <= u32::MAX,
                old(self)@.contains_key(name@),
                self@ == old(self)@.insert(
                    name@,
                    old(self)@[name@] + hosts_from(base, (i - 1) as nat),
                ),
            decreases end - i,
        {
            let ghost before = self@;
            self.add_addr(name, Ipv4Addr { bits: base + i })?;
            proof {
                let grown = old(self)@[name@] + hosts_from(base, i as nat);
                assert(before[name@].push(Ipv4Addr { bits: (base + i) as u32 }) =~= grown);
                assert(self@ =~= old(self)@.insert(name@, grown));
            }
            i = i + 1;
        }
        Ok(())
    }
}

impl Pools {
    /// The addresses of a pool, in the order in which they were added.
    pub fn addresses(&self, name: &str) -> (r: Result<Vec<Ipv4Addr>, Error>)
        ensures
            match r {
                Ok(addresses) => self@.contains_key(name@) && addresses@ == self@[name@],
                Err(e) => !self@.contains_key(name@) && e@ == ErrorView::NoSuchPool(name@),
            },
    {
        match self.find(name) {
            None => Err(Error::NoSuchPool(name.to_owned())),
            Some(i) => {
                let copy = self.poolinfo[i].1.addresses.clone();
                assert(copy@ =~= self@[name@]);
                Ok(copy)
            },
        }
    }

    /// Whether a pool has an address.
    pub fn has_address(&self, name: &str, addr: Ipv4Addr) -> (r: Result<bool, Error>)
        ensures
            match r {
                Ok(b) => self@.contains_key(name@) && b == self@[name@].contains(addr),
                Err(e) => !self@.contains_key(name@) && e@ == ErrorView::NoSuchPool(name@),
            },
    {
        match self.find(name) {
            None => Err(Error::NoSuchPool(name.to_owned())),
            Some(i) => {
                let addresses = &self.poolinfo[i].1.addresses;
                let mut k: usize = 0;
                while k < addresses.len()
                    invariant
                        addresses@ == self@[name@],
                        self@.contains_key(name@),
                        k <= addresses@.len(),
                        forall|n: int| 0 <= n < k ==> addresses@[n] != addr,
                    decreases addresses@.len() - k,
                {
                    if addresses[k] == addr {
                        return Ok(true);
                    }
                    k = k + 1;
                }
                Ok(false)
            },
        }
    }
}

/// A block of addresses that share a prefix.
pub struct Netblock {
    pub addr: Ipv4Addr,
    pub prefixlen: u8,
}

/// `x` with its four bytes in the opposite order.
pub open spec fn byte_reversed(x: u32) -> u32 {
    (x % 0x100 * 0x100_0000 + x / 0x100 % 0x100 * 0x1_0000 + x / 0x1_0000 % 0x100 * 0x100 + x
        / 0x100_0000) as u32
}

/// The `count` addresses that follow `base`.
pub open spec fn hosts_from(base: u32, count: nat) -> Seq<Ipv4Addr> {
    Seq::new(count, |k: int| Ipv4Addr { bits: (base + 1 + k) as u32 })
}

impl Netblock {
    /// The bits of the address under the mask of the block: a number of `prefixlen` low ones,
    /// with its bytes in the opposite order.
    pub open spec fn base(self) -> u32 {
        self.addr.bits & byte_reversed((pow2(self.prefixlen as nat) - 1) as u32)
    }

    /// The addresses that follow the base: two fewer than share a prefix of this length.
    pub open spec fn hosts(self) -> Seq<Ipv4Addr> {
        hosts_from(self.base(), (pow2((32 - self.prefixlen) as nat) - 2) as nat)
    }

    /// The address of the block under its mask.
    pub fn netmask(&self) -> (r: Ipv4Addr)
        requires
            self.prefixlen <= 30,
        ensures
            r.bits == self.base(),
    {
        proof {
            lemma_low_ones(self.prefixlen);
        }
        let ones: u32 = (1u32 << self.prefixlen as u32) - 1;
        let mask: u32 = ones % 0x100 * 0x100_0000 + ones / 0x100 % 0x100 * 0x1_0000 + ones
            / 0x1_0000 % 0x100 * 0x100 + ones / 0x100_0000;
        Ipv4Addr { bits: self.addr.bits & mask }
    }
}

proof fn lemma_low_ones(prefixlen: u8)
    requires
        prefixlen <= 31,
    ensures
        1u32 << prefixlen as u32 == pow2(prefixlen as nat),
        1 <= pow2(prefixlen as nat) <= 0x8000_0000,
{
    vstd::arithmetic::power2::lemma_pow2_pos(prefixlen as nat);
    vstd::arithmetic::power2::lemma2_to64();
    if prefixlen < 31 {
        vstd::arithmetic::power2::lemma_pow2_strictly_increases(prefixlen as nat, 31);
    }
    vstd::bits::lemma_u32_shl_is_mul(1, prefixlen as u32);
}

proof fn lemma_hosts_fit(addr: u32, prefixlen: u8)
    requires
        1 <= prefixlen <= 30,
    ensures
        1u32 << (32 - prefixlen) as u32 == pow2((32 - prefixlen) as nat),
        2 <= pow2((32 - prefixlen) as nat) <= 0x8000_0000,
        (addr & byte_reversed((pow2(prefixlen as nat) - 1) as u32)) + pow2(
            (32 - prefixlen) as nat,
        ) <= 0x1_0000_0000,
{
    let p = prefixlen as u32;
    lemma_low_ones(prefixlen);
    lemma_low_ones((32 - prefixlen) as u8);
    vstd::arithmetic::power2::lemma_pow2_strictly_increases(0, (32 - prefixlen) as nat);
    vstd::arithmetic::power2::lemma2_to64();
    let ones = ((1u32 << p) - 1) as u32;
    let mask = byte_reversed(ones);
    assert(addr & mask <= mask) by (bit_vector);
    lemma_mask_room(p, ones);
}

proof fn lemma_mask_room(p: u32, ones: u32)
    by (bit_vector)
    requires
        1 <= p <= 30,
        ones == (1u32 << p) - 1,
    ensures
        ones % 0x100 * 0x100_0000 + ones / 0x100 % 0x100 * 0x1_0000 + ones / 0x1_0000 % 0x100
            * 0x100 + ones / 0x100_0000 + (1u32 << ((32 - p) as u32)) <= 0x1_0000_0000,
{
}

/// The mask of a block whose prefix is whole octets keeps the octets of the prefix and clears
/// the others.
pub proof fn whole_octet_base_is_first_address(netblock: Netblock)
    requires
        netblock.prefixlen <= 24,
        netblock.prefixlen % 8 == 0,
    ensures
        netblock.base() == netblock.addr.bits as int - netblock.addr.bits as int % pow2(
            (32 - netblock.prefixlen) as nat,
        ) as int,
{
    vstd::arithmetic::power2::lemma2_to64();
    let a = netblock.addr.bits;
    assert(a & 0u32 == 0u32) by (bit_vector);
    assert(a & 0xff00_0000u32 == a - a % 0x100_0000u32) by (bit_vector);
    assert(a & 0xffff_0000u32 == a - a % 0x1_0000u32) by (bit_vector);
    assert(a & 0xffff_ff00u32 == a - a % 0x100u32) by (bit_vector);
    let p = netblock.prefixlen;
    if p == 0 {
        assert(byte_reversed((pow2(0) - 1) as u32) == 0u32);
        assert(a as int % 0x1_0000_0000 == a);
    } else if p == 8 {
        assert(byte_reversed((pow2(8) - 1) as u32) == 0xff00_0000u32);
    } else if p == 16 {
        assert(byte_reversed((pow2(16) - 1) as u32) == 0xffff_0000u32);
    } else {
        assert(p == 24);
        assert(byte_reversed((pow2(24) - 1) as u32) == 0xffff_ff00u32);
    }
}

/// A block whose prefix is one to three whole octets adds the addresses between its first and its
/// last, and neither of the two.
pub proof fn whole_octet_hosts_lie_between_the_ends(netblock: Netblock, ip: Ipv4Addr)
    requires
        8 <= netblock.prefixlen <= 24,
        netblock.prefixlen % 8 == 0,
    ensures
        ({
            let size = pow2((32 - netblock.prefixlen) as nat) as int;
            let first = netblock.addr.bits as int / size * size;
            netblock.hosts().contains(ip) <==> first < ip.bits < first + size - 1
        }),
{
    let size = pow2((32 - netblock.prefixlen) as nat) as int;
    whole_octet_base_is_first_address(netblock);
    lemma_hosts_fit(netblock.addr.bits, netblock.prefixlen);
    vstd::arithmetic::div_mod::lemma_fundamental_div_mod(netblock.addr.bits as int, size);
    vstd::arithmetic::mul::lemma_mul_is_commutative(netblock.addr.bits as int / size, size);
    let base = netblock.base();
    if base < ip.bits < base + size - 1 {
        assert(netblock.hosts()[ip.bits - base - 1] == ip);
    }
}

/// The base of a block has of each octet of the address what an octet of the mask keeps: the first
/// octet is kept by the lowest eight of as many ones as the prefix is long, the second by the next
/// eight, and so on.
pub proof fn base_keeps_octets_by_the_prefix(netblock: Netblock, ones: u32)
    requires
        netblock.prefixlen <= 30,
        ones == pow2(netblock.prefixlen as nat) - 1,
    ensures
        ({
            let a = netblock.addr.bits;
            let base = netblock.base();
            &&& base >> 24 == (a >> 24) & (ones & 0xff)
            &&& (base >> 16) & 0xff == (a >> 16) & ((ones >> 8) & 0xff)
            &&& (base >> 8) & 0xff == (a >> 8) & ((ones >> 16) & 0xff)
            &&& base & 0xff == a & (ones >> 24)
        }),
{
    let a = netblock.addr.bits;
    let mask = byte_reversed(ones);
    lemma_low_ones(netblock.prefixlen);
    lemma_reversed_octets(ones);
    lemma_masked_octets(a, mask, ones);
}

proof fn lemma_reversed_octets(x: u32)
    ensures
        byte_reversed(x) >> 24 == x & 0xff,
        (byte_reversed(x) >> 16) & 0xff == (x >> 8) & 0xff,
        (byte_reversed(x) >> 8) & 0xff == (x >> 16) & 0xff,
        byte_reversed(x) & 0xff == x >> 24,
{
    let y = byte_reversed(x);
    assert(x % 0x100 * 0x100_0000 + x / 0x100 % 0x100 * 0x1_0000 + x / 0x1_0000 % 0x100 * 0x100 + x
        / 0x100_0000 <= u32::MAX) by (bit_vector);
    assert(y == x % 0x100 * 0x100_0000 + x / 0x100 % 0x100 * 0x1_0000 + x / 0x1_0000 % 0x100 * 0x100
        + x / 0x100_0000);
    assert(y >> 24 == x & 0xff && (y >> 16) & 0xff == (x >> 8) & 0xff && (y >> 8) & 0xff == (x >> 16)
        & 0xff && y & 0xff == x >> 24) by (bit_vector)
        requires
            y == x % 0x100 * 0x100_0000 + x / 0x100 % 0x100 * 0x1_0000 + x / 0x1_0000 % 0x100 * 0x100
                + x / 0x100_0000,
    ;
}

proof fn lemma_masked_octets(a: u32, mask: u32, ones: u32)
    by (bit_vector)
    requires
        mask >> 24 == ones & 0xff,
        (mask >> 16) & 0xff == (ones >> 8) & 0xff,
        (mask >> 8) & 0xff == (ones >> 16) & 0xff,
        mask & 0xff == ones >> 24,
    ensures
        (a & mask) >> 24 == (a >> 24) & (ones & 0xff),
        ((a & mask) >> 16) & 0xff == (a >> 16) & ((ones >> 8) & 0xff),
        ((a & mask) >> 8) & 0xff == (a >> 8) & ((ones >> 16) & 0xff),
        (a & mask) & 0xff == a & (ones >> 24),
{
}

/// The addresses of a block are consecutive, from the one after its base on, and two fewer than
/// share a prefix of this length.
pub proof fn hosts_are_consecutive(netblock: Netblock, k: int)
    requires
        1 <= netblock.prefixlen <= 30,
        0 <= k < netblock.hosts().len(),
    ensures
        netblock.hosts().len() == pow2((32 - netblock.prefixlen) as nat) - 2,
        netblock.hosts()[k].bits == netblock.base() + 1 + k,
{
    lemma_hosts_fit(netblock.addr.bits, netblock.prefixlen);
}

/// Calls `rand::seq::SliceRandom::shuffle` with `rand::thread_rng()`.
///
/// The shuffle swaps items of the slice in place, so the same addresses remain, each as often as
/// before. Their order is random, and nothing is said of it. Whatever the addresses, the call
/// returns, unless the operating system has no randomness to seed the generator with.
#[verifier::external_body]
pub(crate) fn shuffle(addresses: &mut Vec<Ipv4Addr>)
    ensures
        final(addresses)@.to_multiset() == old(addresses)@.to_multiset(),
{
    addresses.shuffle(&mut rand::thread_rng());
}

} // verus!
