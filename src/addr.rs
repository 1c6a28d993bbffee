use vstd::prelude::*;

verus! {

/// An IP address. IPv4 and IPv6 addresses are held as the unsigned integer
/// whose big-endian bytes are the address octets (so `10.0.0.1` is
/// `0x0A00_0001`).
#[derive(Clone, Copy, Debug, PartialEq, Eq, Structural)]
pub enum IpAddress {
    V4(u32),
    V6(u128),
}

/// `x` lies in the IPv4 block of the addresses whose quotient by `unit`
/// (a power of two) is `prefix`.
pub open spec fn in_v4_block(x: u32, prefix: int, unit: int) -> bool {
    x as int / unit == prefix
}

pub open spec fn v4_is_unspecified(x: u32) -> bool {
    x == 0
}

pub open spec fn v4_is_loopback(x: u32) -> bool {
    in_v4_block(x, 127, 0x100_0000)
}

/// 10.0.0.0/8, 172.16.0.0/12 and 192.168.0.0/16.
pub open spec fn v4_is_private(x: u32) -> bool {
    in_v4_block(x, 10, 0x100_0000) || in_v4_block(x, 0xAC1, 0x10_0000) || in_v4_block(x, 0xC0A8, 0x1_0000)
}

/// 169.254.0.0/16.
pub open spec fn v4_is_link_local(x: u32) -> bool {
    in_v4_block(x, 0xA9FE, 0x1_0000)
}

/// 224.0.0.0/4.
pub open spec fn v4_is_multicast(x: u32) -> bool {
    in_v4_block(x, 0xE, 0x1000_0000)
}

pub open spec fn v6_is_unspecified(x: u128) -> bool {
    x == 0
}

pub open spec fn v6_is_loopback(x: u128) -> bool {
    x == 1
}

/// fc00::/7 (unique local addresses).
pub open spec fn v6_is_private(x: u128) -> bool {
    x as int / 0x200_0000_0000_0000_0000_0000_0000_0000 == 0x7E
}

/// fe80::/10.
pub open spec fn v6_is_link_local(x: u128) -> bool {
    x as int / 0x40_0000_0000_0000_0000_0000_0000_0000 == 0x3FA
}

/// ff00::/8.
pub open spec fn v6_is_multicast(x: u128) -> bool {
    x as int / 0x100_0000_0000_0000_0000_0000_0000_0000 == 0xFF
}

/// An address is globally routable when it is neither unspecified,
/// loopback, private, link-local nor multicast.
pub open spec fn spec_is_global(a: IpAddress) -> bool {
    match a {
        IpAddress::V4(x) => !(v4_is_unspecified(x) || v4_is_loopback(x) || v4_is_private(x)
            || v4_is_link_local(x) || v4_is_multicast(x)),
        IpAddress::V6(x) => !(v6_is_unspecified(x) || v6_is_loopback(x) || v6_is_private(x)
            || v6_is_link_local(x) || v6_is_multicast(x)),
    }
}

impl IpAddress {
    /// The IPv4 address `a.b.c.d`.
    pub fn v4(a: u8, b: u8, c: u8, d: u8) -> (r: IpAddress)
        ensures
            r == IpAddress::V4((a as int * 0x100_0000 + b as int * 0x1_0000 + c as int * 0x100
                + d as int) as u32),
    {
        IpAddress::V4(a as u32 * 0x100_0000 + b as u32 * 0x1_0000 + c as u32 * 0x100 + d as u32)
    }

    /// The IPv6 address made of the eight 16-bit groups `g`, first group first.
    pub fn v6(g: [u16; 8]) -> (r: IpAddress)
        ensures
            r == IpAddress::V6(groups_value(g@) as u128),
    {
        let mut x: u128 = 0;
        let mut i: usize = 0;
        while i < 8
            invariant
                0 <= i <= 8,
                g@.len() == 8,
                x as int == groups_value(g@.subrange(0, i as int)),
                x < pow65536(i as nat),
            decreases 8 - i,
        {
            proof {
                lemma_groups_step(g@, i as int);
                lemma_pow65536_step(i as nat);
            }
            x = x * 0x1_0000 + g[i] as u128;
            i = i + 1;
        }
        proof {
            assert(g@.subrange(0, 8) =~= g@);
        }
        IpAddress::V6(x)
    }

    pub fn is_ipv4(&self) -> (r: bool)
        ensures
            r == (self is V4),
    {
        match self {
            IpAddress::V4(_) => true,
            IpAddress::V6(_) => false,
        }
    }

    pub fn is_unspecified(&self) -> (r: bool)
        ensures
            r == match *self {
                IpAddress::V4(x) => v4_is_unspecified(x),
                IpAddress::V6(x) => v6_is_unspecified(x),
            },
    {
        match self {
            IpAddress::V4(x) => *x == 0,
            IpAddress::V6(x) => *x == 0,
        }
    }

    /// Whether the address is globally routable.
    pub fn is_global(&self) -> (r: bool)
        ensures
            r == spec_is_global(*self),
    {
        match self {
            IpAddress::V4(x) => {
                let top8 = *x / 0x100_0000;
                let top12 = *x / 0x10_0000;
                let top16 = *x / 0x1_0000;
                let top4 = *x / 0x1000_0000;
                !(*x == 0 || top8 == 127 || top8 == 10 || top12 == 0xAC1 || top16 == 0xC0A8
                    || top16 == 0xA9FE || top4 == 0xE)
            },
            IpAddress::V6(x) => {
                let top7 = *x / 0x200_0000_0000_0000_0000_0000_0000_0000;
                let top10 = *x / 0x40_0000_0000_0000_0000_0000_0000_0000;
                let top8 = *x / 0x100_0000_0000_0000_0000_0000_0000_0000;
                !(*x == 0 || *x == 1 || top7 == 0x7E || top10 == 0x3FA || top8 == 0xFF)
            },
        }
    }
}

/// 65536 to the power `n`.
pub open spec fn pow65536(n: nat) -> int
    decreases n,
{
    if n == 0 {
        1
    } else {
        0x1_0000 * pow65536((n - 1) as nat)
    }
}

/// The integer whose base-65536 digits are `g`, most significant first.
pub open spec fn groups_value(g: Seq<u16>) -> int
    decreases g.len(),
{
    if g.len() == 0 {
        0
    } else {
        groups_value(g.drop_last()) * 0x1_0000 + g.last() as int
    }
}

proof fn lemma_groups_step(g: Seq<u16>, i: int)
    requires
        0 <= i < g.len(),
    ensures
        groups_value(g.subrange(0, i + 1)) == groups_value(g.subrange(0, i)) * 0x1_0000
            + g[i] as int,
{
    assert(g.subrange(0, i + 1).drop_last() =~= g.subrange(0, i));
}

proof fn lemma_pow65536_step(n: nat)
    requires
        n < 8,
    ensures
        pow65536(n + 1) == 0x1_0000 * pow65536(n),
        pow65536(n + 1) <= 0x1_0000_0000_0000_0000_0000_0000_0000_0000,
    decreases n,
{
    reveal_with_fuel(pow65536, 9);
}

} // verus!
