use vstd::prelude::*;
use crate::addr::IpAddress;
use crate::net::Prot;

verus! {

/// Length in bytes of an IPv4 probe record:
/// `{pid: u32, saddr: u32, daddr: u32, lport: u16, dport: u16, size: u32, is_rx: u32}`.
pub const IPV4_RECORD_LEN: usize = 24;

/// Length in bytes of an IPv6 probe record:
/// `{saddr: u128, daddr: u128, pid: u32, lport: u16, dport: u16, size: u32, is_rx: u32}`,
/// padded to the 16-byte alignment of its first field.
pub const IPV6_RECORD_LEN: usize = 48;

/// One decoded probe record: a packet of `size` bytes seen by process `pid`
/// on the connection `saddr:lport <-> daddr:dport`, received when `is_rx == 1`
/// and sent otherwise.
#[derive(Clone, Copy, Debug)]
pub struct Event {
    pub pid: u32,
    pub saddr: IpAddress,
    pub daddr: IpAddress,
    pub lport: u16,
    pub dport: u16,
    pub size: u32,
    pub is_rx: u32,
    pub prot: Prot,
}

/// The integer whose little-endian bytes are `b[off..off + n]`.
pub open spec fn le_int(b: Seq<u8>, off: int, n: nat) -> int
    decreases n,
{
    if n == 0 {
        0
    } else {
        b[off] as int + 0x100 * le_int(b, off + 1, (n - 1) as nat)
    }
}

/// The integer whose big-endian bytes are `b[off..off + n]`.
pub open spec fn be_int(b: Seq<u8>, off: int, n: nat) -> int
    decreases n,
{
    if n == 0 {
        0
    } else {
        be_int(b, off, (n - 1) as nat) * 0x100 + b[off + n - 1] as int
    }
}

/// The event that an IPv4 record of protocol `prot` encodes. The counters
/// and the pid are in the host's (little-endian) order; the addresses are
/// in network order.
pub open spec fn spec_decode_ipv4(b: Seq<u8>, prot: Prot) -> Event {
    Event {
        pid: le_int(b, 0, 4) as u32,
        saddr: IpAddress::V4(be_int(b, 4, 4) as u32),
        daddr: IpAddress::V4(be_int(b, 8, 4) as u32),
        lport: le_int(b, 12, 2) as u16,
        dport: le_int(b, 14, 2) as u16,
        size: le_int(b, 16, 4) as u32,
        is_rx: le_int(b, 20, 4) as u32,
        prot,
    }
}

/// The event that an IPv6 record of protocol `prot` encodes.
pub open spec fn spec_decode_ipv6(b: Seq<u8>, prot: Prot) -> Event {
    Event {
        pid: le_int(b, 32, 4) as u32,
        saddr: IpAddress::V6(be_int(b, 0, 16) as u128),
        daddr: IpAddress::V6(be_int(b, 16, 16) as u128),
        lport: le_int(b, 36, 2) as u16,
        dport: le_int(b, 38, 2) as u16,
        size: le_int(b, 40, 4) as u32,
        is_rx: le_int(b, 44, 4) as u32,
        prot,
    }
}

fn read_le16(b: &[u8], off: usize) -> (r: u16)
    requires
        off + 2 <= b@.len(),
    ensures
        r as int == le_int(b@, off as int, 2),
{
    reveal_with_fuel(le_int, 3);
    b[off] as u16 + b[off + 1] as u16 * 0x100
}

fn read_le32(b: &[u8], off: usize) -> (r: u32)
    requires
        off + 4 <= b@.len(),
    ensures
        r as int == le_int(b@, off as int, 4),
{
    reveal_with_fuel(le_int, 5);
    b[off] as u32 + b[off + 1] as u32 * 0x100 + b[off + 2] as u32 * 0x1_0000 + b[off + 3] as u32
        * 0x100_0000
}

fn read_be32(b: &[u8], off: usize) -> (r: u32)
    requires
        off + 4 <= b@.len(),
    ensures
        r as int == be_int(b@, off as int, 4),
{
    reveal_with_fuel(be_int, 5);
    b[off] as u32 * 0x100_0000 + b[off + 1] as u32 * 0x1_0000 + b[off + 2] as u32 * 0x100
        + b[off + 3] as u32
}

fn read_be128(b: &[u8], off: usize) -> (r: u128)
    requires
        off <= 16,
        off + 16 <= b@.len(),
    ensures
        r as int == be_int(b@, off as int, 16),
{
    let mut x: u128 = 0;
    let mut i: usize = 0;
    while i < 16
        invariant
            0 <= i <= 16,
            off <= 16,
            off + 16 <= b@.len(),
            x as int == be_int(b@, off as int, i as nat),
            x as int <= pow256(i as nat) - 1,
        decreases 16 - i,
    {
        proof {
            lemma_pow256_step(i as nat);
        }
        x = x * 0x100 + b[off + i] as u128;
        i = i + 1;
    }
    x
}

/// 256 to the power `n`.
pub open spec fn pow256(n: nat) -> int
    decreases n,
{
    if n == 0 {
        1
    } else {
        0x100 * pow256((n - 1) as nat)
    }
}

proof fn lemma_pow256_step(n: nat)
    requires
        n < 16,
    ensures
        pow256(n + 1) == 0x100 * pow256(n),
        pow256(n + 1) <= 0x1_0000_0000_0000_0000_0000_0000_0000_0000,
{
    reveal_with_fuel(pow256, 17);
}

/// Decodes an IPv4 record of protocol `prot`.
pub fn decode_ipv4(b: &[u8], prot: Prot) -> (r: Event)
    requires
        b@.len() >= IPV4_RECORD_LEN,
    ensures
        r == spec_decode_ipv4(b@, prot),
{
    Event {
        pid: read_le32(b, 0),
        saddr: IpAddress::V4(read_be32(b, 4)),
        daddr: IpAddress::V4(read_be32(b, 8)),
        lport: read_le16(b, 12),
        dport: read_le16(b, 14),
        size: read_le32(b, 16),
        is_rx: read_le32(b, 20),
        prot,
    }
}

/// Decodes an IPv6 record of protocol `prot`.
pub fn decode_ipv6(b: &[u8], prot: Prot) -> (r: Event)
    requires
        b@.len() >= IPV6_RECORD_LEN,
    ensures
        r == spec_decode_ipv6(b@, prot),
{
    Event {
        pid: read_le32(b, 32),
        saddr: IpAddress::V6(read_be128(b, 0)),
        daddr: IpAddress::V6(read_be128(b, 16)),
        lport: read_le16(b, 36),
        dport: read_le16(b, 38),
        size: read_le32(b, 40),
        is_rx: read_le32(b, 44),
        prot,
    }
}

/// Decodes a record from the TCP/IPv4 ring buffer.
pub fn tcp4_cb(b: &[u8]) -> (r: Event)
    requires
        b@.len() >= IPV4_RECORD_LEN,
    ensures
        r == spec_decode_ipv4(b@, Prot::TCP),
{
    decode_ipv4(b, Prot::TCP)
}

/// Decodes a record from the TCP/IPv6 ring buffer.
pub fn tcp6_cb(b: &[u8]) -> (r: Event)
    requires
        b@.len() >= IPV6_RECORD_LEN,
    ensures
        r == spec_decode_ipv6(b@, Prot::TCP),
{
    decode_ipv6(b, Prot::TCP)
}

/// Decodes a record from the UDP/IPv4 ring buffer.
pub fn udp4_cb(b: &[u8]) -> (r: Event)
    requires
        b@.len() >= IPV4_RECORD_LEN,
    ensures
        r == spec_decode_ipv4(b@, Prot::UDP),
{
    decode_ipv4(b, Prot::UDP)
}

/// Decodes a record from the UDP/IPv6 ring buffer.
pub fn udp6_cb(b: &[u8]) -> (r: Event)
    requires
        b@.len() >= IPV6_RECORD_LEN,
    ensures
        r == spec_decode_ipv6(b@, Prot::UDP),
{
    decode_ipv6(b, Prot::UDP)
}

} // verus!
