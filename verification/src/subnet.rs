//! IPv4 subnets.
use vstd::arithmetic::power2::pow2;
use vstd::prelude::*;

use crate::ipv4::Ipv4Addr;

verus! {

/// The number of addresses that share a prefix of `prefixlen` bits.
pub open spec fn block_size(prefixlen: u8) -> nat {
    pow2((32 - prefixlen) as nat)
}

/// An IPv4 subnet: the addresses that share their first `prefixlen` bits with `addr`.
#[derive(Clone, Copy, Debug)]
pub struct Ipv4Subnet {
    addr: Ipv4Addr,
    prefixlen: u8,
}

pub(crate) proof fn lemma_block(addr: u32, prefixlen: u8)
    requires
        prefixlen <= 32,
    ensures
        1 <= block_size(prefixlen) <= 0x1_0000_0000,
        1u64 << (32 - prefixlen) as u64 == block_size(prefixlen),
        addr as int / block_size(prefixlen) as int * block_size(prefixlen) + block_size(prefixlen)
            <= 0x1_0000_0000,
{
    let n = (32 - prefixlen) as nat;
    let size = block_size(prefixlen) as int;
    vstd::arithmetic::power2::lemma_pow2_pos(n);
    vstd::arithmetic::power2::lemma2_to64();
    if n < 32 {
        vstd::arithmetic::power2::lemma_pow2_strictly_increases(n, 32);
    }
    vstd::bits::lemma_u64_shl_is_mul(1, n as u64);
    vstd::arithmetic::power2::lemma_pow2_adds(n, prefixlen as nat);
    let count = pow2(prefixlen as nat) as int;
    let q = addr as int / size;
    assert(size * count == 0x1_0000_0000);
    assert(q < count) by (nonlinear_arith)
        requires
            q == addr as int / size,
            size * count == 0x1_0000_0000,
            size > 0,
            addr < 0x1_0000_0000,
    ;
    assert(q * size + size <= size * count) by (nonlinear_arith)
        requires
            q + 1 <= count,
            size > 0,
    ;
}

impl Ipv4Subnet {
    #[verifier::type_invariant]
    spec fn valid(self) -> bool {
        self.prefixlen <= 32
    }

    /// The address that the subnet was made with.
    pub closed spec fn spec_addr(self) -> Ipv4Addr {
        self.addr
    }

    /// The number of leading bits that the addresses of the subnet share.
    pub closed spec fn spec_prefixlen(self) -> u8 {
        self.prefixlen
    }

    /// The first address of the subnet.
    pub open spec fn first(self) -> int {
        let size = block_size(self.spec_prefixlen()) as int;
        self.spec_addr().bits as int / size * size
    }

    /// Whether the subnet holds `ip`.
    pub open spec fn holds(self, ip: Ipv4Addr) -> bool {
        self.first() <= ip.bits < self.first() + block_size(self.spec_prefixlen())
    }

    /// The subnet of `addr` whose addresses share `prefixlen` bits, if there are so many.
    pub fn new(addr: Ipv4Addr, prefixlen: u8) -> (r: Option<Ipv4Subnet>)
        ensures
            r is Some <==> prefixlen <= 32,
            r matches Some(subnet) ==> subnet.spec_addr() == addr && subnet.spec_prefixlen()
                == prefixlen,
    {
        if prefixlen <= 32 {
            Some(Ipv4Subnet { addr, prefixlen })
        } else {
            None
        }
    }

    /// The mask whose leading `prefixlen` bits are set.
    pub fn netmask(&self) -> (mask: Ipv4Addr)
        ensures
            self.spec_prefixlen() <= 32,
            mask.bits == 0x1_0000_0000 - block_size(self.spec_prefixlen()),
    {
        proof {
            use_type_invariant(self);
            lemma_block(self.addr.bits, self.prefixlen);
        }
        let size: u64 = 1u64 << (32 - self.prefixlen) as u64;
        Ipv4Addr { bits: (0x1_0000_0000u64 - size) as u32 }
    }

    /// The last address of the subnet.
    pub fn broadcast(&self) -> (last: Ipv4Addr)
        ensures
            self.spec_prefixlen() <= 32,
            last.bits == self.first() + block_size(self.spec_prefixlen()) - 1,
    {
        proof {
            use_type_invariant(self);
            lemma_block(self.addr.bits, self.prefixlen);
        }
        let size: u64 = 1u64 << (32 - self.prefixlen) as u64;
        let addr: u64 = self.addr.bits as u64;
        proof {
            vstd::arithmetic::div_mod::lemma_fundamental_div_mod(addr as int, size as int);
            vstd::arithmetic::mul::lemma_mul_is_commutative(addr as int / size as int, size as int);
            vstd::arithmetic::div_mod::lemma_mod_bound(addr as int, size as int);
        }
        let first: u64 = addr - addr % size;
        Ipv4Addr { bits: (first + (size - 1)) as u32 }
    }

    /// Whether the subnet holds `ip`.
    pub fn contains(&self, ip: Ipv4Addr) -> (b: bool)
        ensures
            b == self.holds(ip),
    {
        proof {
            use_type_invariant(self);
            lemma_block(self.addr.bits, self.prefixlen);
        }
        let size: u64 = 1u64 << (32 - self.prefixlen) as u64;
        let addr: u64 = self.addr.bits as u64;
        proof {
            vstd::arithmetic::div_mod::lemma_fundamental_div_mod(addr as int, size as int);
            vstd::arithmetic::mul::lemma_mul_is_commutative(addr as int / size as int, size as int);
            vstd::arithmetic::div_mod::lemma_mod_bound(addr as int, size as int);
        }
        let first: u64 = addr - addr % size;
        let bits: u64 = ip.bits as u64;
        first <= bits && bits - first < size
    }
}

/// A subnet holds the addresses whose leading bits are those of the address that it was made with,
/// and no others: those that leave the same quotient by the size of the block.
pub proof fn subnet_holds_what_shares_its_prefix(subnet: Ipv4Subnet, ip: Ipv4Addr)
    requires
        subnet.spec_prefixlen() <= 32,
    ensures
        ({
            let size = pow2((32 - subnet.spec_prefixlen()) as nat) as int;
            subnet.holds(ip) <==> ip.bits as int / size == subnet.spec_addr().bits as int / size
        }),
{
    let size = pow2((32 - subnet.spec_prefixlen()) as nat) as int;
    let q = subnet.spec_addr().bits as int / size;
    let x = ip.bits as int;
    lemma_block(subnet.spec_addr().bits, subnet.spec_prefixlen());
    vstd::arithmetic::div_mod::lemma_fundamental_div_mod(x, size);
    vstd::arithmetic::div_mod::lemma_mod_bound(x, size);
    vstd::arithmetic::mul::lemma_mul_is_commutative(x / size, size);
    if q * size <= x < q * size + size {
        assert(x / size == q) by (nonlinear_arith)
            requires
                q * size <= x < q * size + size,
                x == x / size * size + x % size,
                0 <= x % size < size,
                size > 0,
        ;
    }
}

/// The first address of a subnet is a multiple of the number of its addresses, which is a power of
/// two; the address that the subnet was made with lies between the first and the last.
pub proof fn subnet_is_an_aligned_block(subnet: Ipv4Subnet)
    requires
        subnet.spec_prefixlen() <= 32,
    ensures
        block_size(subnet.spec_prefixlen()) == pow2((32 - subnet.spec_prefixlen()) as nat),
        subnet.first() % block_size(subnet.spec_prefixlen()) as int == 0,
        subnet.first() <= subnet.spec_addr().bits < subnet.first() + pow2(
            (32 - subnet.spec_prefixlen()) as nat,
        ),
{
    let size = pow2((32 - subnet.spec_prefixlen()) as nat) as int;
    let x = subnet.spec_addr().bits as int;
    lemma_block(subnet.spec_addr().bits, subnet.spec_prefixlen());
    vstd::arithmetic::div_mod::lemma_fundamental_div_mod(x, size);
    vstd::arithmetic::div_mod::lemma_mod_bound(x, size);
    vstd::arithmetic::mul::lemma_mul_is_commutative(x / size, size);
    vstd::arithmetic::div_mod::lemma_mod_multiples_basic(x / size, size);
}

} // verus!
