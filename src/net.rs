use vstd::prelude::*;

verus! {

/// An IP address: an IPv4 address as a 32-bit number, an IPv6 one as a 128-bit number.
#[derive(Clone, Copy, Debug, PartialEq, Eq, Structural)]
pub enum IpAddress {
    V4(u32),
    V6(u128),
}

/// An IP network: an address together with a prefix length.
#[derive(Clone, Copy, Debug, PartialEq, Eq, Structural)]
pub enum IpPrefix {
    V4(u32, u8),
    V6(u128, u8),
}

impl IpPrefix {
    /// The prefix length fits the address family.
    pub open spec fn valid(self) -> bool {
        match self {
            IpPrefix::V4(_, len) => len <= 32,
            IpPrefix::V6(_, len) => len <= 128,
        }
    }

    pub fn is_valid(&self) -> (r: bool)
        ensures
            r == self.valid(),
    {
        match self {
            IpPrefix::V4(_, len) => *len <= 32,
            IpPrefix::V6(_, len) => *len <= 128,
        }
    }

    pub open spec fn spec_is_v4(self) -> bool {
        self is V4
    }

    pub fn is_v4(&self) -> (r: bool)
        ensures
            r == self.spec_is_v4(),
    {
        match self {
            IpPrefix::V4(_, _) => true,
            IpPrefix::V6(_, _) => false,
        }
    }
}

/// The number of IPv4 addresses that a prefix of length `len` covers.
pub open spec fn block_size(len: nat) -> nat
    recommends
        len <= 32,
{
    pow2((32 - len) as nat)
}

pub open spec fn pow2(e: nat) -> nat
    decreases e,
{
    if e == 0 {
        1
    } else {
        2 * pow2((e - 1) as nat)
    }
}

/// An IPv4 prefix whose host bits are all clear.
pub open spec fn is_network(addr: u32, len: u8) -> bool {
    len <= 32 && addr as nat % block_size(len as nat) == 0
}

/// The network address of `addr` under a prefix of length `len`.
pub open spec fn network_of(addr: u32, len: u8) -> u32
    recommends
        len <= 32,
{
    (addr as nat - addr as nat % block_size(len as nat)) as u32
}

proof fn lemma_pow2_mono(e: nat, k: nat)
    requires
        e <= k,
    ensures
        1 <= pow2(e) <= pow2(k),
    decreases k,
{
    if k > e {
        lemma_pow2_mono(e, (k - 1) as nat);
    } else if e > 0 {
        lemma_pow2_mono((e - 1) as nat, (e - 1) as nat);
    }
}

proof fn lemma_pow2_bounds(e: nat)
    requires
        e <= 32,
    ensures
        1 <= pow2(e) <= 0x1_0000_0000,
{
    lemma_pow2_mono(e, 32);
    reveal_with_fuel(pow2, 33);
}

/// Clears the host bits of an IPv4 address under a prefix of length `len`.
pub fn ipv4_network(addr: u32, len: u8) -> (r: u32)
    requires
        len <= 32,
    ensures
        r == network_of(addr, len),
        is_network(r, len),
{
    let mut block: u64 = 1;
    let mut i: u8 = 32;
    proof {
        lemma_pow2_bounds(0);
    }
    while i > len
        invariant
            len <= i <= 32,
            block as nat == pow2((32 - i) as nat),
        decreases i,
    {
        proof {
            lemma_pow2_bounds((32 - i) as nat);
            lemma_pow2_bounds((32 - i + 1) as nat);
        }
        block = block * 2;
        i = i - 1;
    }
    proof {
        lemma_pow2_bounds((32 - len) as nat);
    }
    let rem: u64 = addr as u64 % block;
    proof {
        vstd::arithmetic::div_mod::lemma_mod_decreases(addr as nat, block as nat);
    }
    let r: u32 = (addr as u64 - rem) as u32;
    proof {
        let b = block as int;
        let a = addr as int;
        assert(b > 0);
        vstd::arithmetic::div_mod::lemma_fundamental_div_mod(a, b);
        assert((a - a % b) % b == 0) by {
            vstd::arithmetic::div_mod::lemma_fundamental_div_mod(a, b);
            vstd::arithmetic::div_mod::lemma_mod_multiples_basic(a / b, b);
            vstd::arithmetic::mul::lemma_mul_is_commutative(a / b, b);
        }
    }
    r
}

} // verus!
