//! ARP: IPv4 addresses, the address resolution cache and ARP packets.

use std::collections::BTreeMap;
use vstd::prelude::*;
use super::bytes::{read_be_u16, spec_be_u16};
use super::ethernet::MacAddress;

verus! {

broadcast use vstd::laws_cmp::group_laws_cmp;

/// An IPv4 address, most significant byte first.
#[derive(Debug, Clone, Copy, PartialEq, Eq, PartialOrd, Ord)]
pub struct Ipv4Address(pub [u8; 4]);

/// The address as a big-endian number.
pub open spec fn spec_ip_u32(a: Seq<u8>) -> int {
    a[0] * 0x100_0000 + a[1] * 0x1_0000 + a[2] * 0x100 + a[3]
}

/// The bytes of a big-endian number.
pub open spec fn spec_u32_bytes(v: u32) -> Seq<u8> {
    seq![(v / 0x100_0000) as u8, ((v / 0x1_0000) % 256) as u8, ((v / 256) % 256) as u8, (v % 256) as u8]
}

impl Ipv4Address {
    /// The address a.b.c.d.
    pub fn new(a: u8, b: u8, c: u8, d: u8) -> (r: Self)
        ensures
            r.0@ == seq![a, b, c, d],
    {
        let r = Ipv4Address([a, b, c, d]);
        assert(r.0@ =~= seq![a, b, c, d]);
        r
    }

    /// The address as a big-endian number.
    pub fn to_be_u32(&self) -> (r: u32)
        ensures
            r == spec_ip_u32(self.0@),
    {
        self.0[0] as u32 * 0x100_0000 + self.0[1] as u32 * 0x1_0000 + self.0[2] as u32 * 0x100 + self.0[3] as u32
    }

    /// The address of a big-endian number.
    pub fn from_be_u32(value: u32) -> (r: Self)
        ensures
            r.0@ == spec_u32_bytes(value),
    {
        let r = Ipv4Address([
            (value / 0x100_0000) as u8,
            ((value / 0x1_0000) % 256) as u8,
            ((value / 256) % 256) as u8,
            (value % 256) as u8,
        ]);
        assert(r.0@ =~= spec_u32_bytes(value));
        r
    }
}

proof fn lemma_bytes_number_bytes(a0: u8, a1: u8, a2: u8, a3: u8)
    ensures
        ({
            let x = a0 * 0x100_0000 + a1 * 0x1_0000 + a2 * 0x100 + a3;
            &&& 0 <= x < 0x1_0000_0000
            &&& x / 0x100_0000 == a0
            &&& (x / 0x1_0000) % 256 == a1
            &&& (x / 256) % 256 == a2
            &&& x % 256 == a3
        }),
{
    assert(0 <= a0 * 0x100_0000 + a1 * 0x1_0000 + a2 * 0x100 + a3 < 0x1_0000_0000) by (nonlinear_arith)
        requires a0 < 256, a1 < 256, a2 < 256, a3 < 256;
    let x: u64 = ((a0 as u64) * 0x100_0000 + (a1 as u64) * 0x1_0000 + (a2 as u64) * 0x100 + (a3 as u64)) as u64;
    assert(x / 0x100_0000 == a0 as u64 && (x / 0x1_0000) % 256 == a1 as u64 && (x / 256) % 256 == a2 as u64 && x % 256 == a3 as u64) by (bit_vector)
        requires x == (a0 as u64) * 0x100_0000 + (a1 as u64) * 0x1_0000 + (a2 as u64) * 0x100 + (a3 as u64);
}

proof fn lemma_number_bytes_number(v: u32)
    ensures
        (v / 0x100_0000) * 0x100_0000 + ((v / 0x1_0000) % 256) * 0x1_0000 + ((v / 256) % 256) * 0x100 + v % 256 == v,
{
    assert((v / 0x100_0000) * 0x100_0000 + ((v / 0x1_0000) % 256) * 0x1_0000 + ((v / 256) % 256) * 0x100 + v % 256 == v) by (bit_vector);
}

/// Converting an address to a number and back gives the address; a number
/// converted to an address and back gives the number.
pub proof fn lemma_ipv4_u32_roundtrip(a: Ipv4Address, v: u32)
    ensures
        spec_u32_bytes(spec_ip_u32(a.0@) as u32) == a.0@,
        spec_ip_u32(spec_u32_bytes(v)) == v,
{
    let s = a.0@;
    lemma_bytes_number_bytes(s[0], s[1], s[2], s[3]);
    assert(spec_u32_bytes(spec_ip_u32(s) as u32) =~= s);
    lemma_number_bytes_number(v);
}

/// ARP operations.
#[derive(Debug, Clone, Copy, PartialEq, Eq, Structural)]
pub enum ArpOperation {
    Request,
    Reply,
}

impl ArpOperation {
    /// The operation a raw value stands for.
    pub fn from_u16(value: u16) -> (r: Option<Self>)
        ensures
            r == (if value == 1 {
                Some(ArpOperation::Request)
            } else if value == 2 {
                Some(ArpOperation::Reply)
            } else {
                None
            }),
    {
        match value {
            1 => Some(ArpOperation::Request),
            2 => Some(ArpOperation::Reply),
            _ => None,
        }
    }
}

/// An ARP packet for IPv4 over Ethernet.
pub struct ArpPacket {
    pub hw_type: u16,
    pub proto_type: u16,
    pub hw_addr_len: u8,
    pub proto_addr_len: u8,
    pub operation: u16,
    pub sender_hw_addr: [u8; 6],
    pub sender_proto_addr: [u8; 4],
    pub target_hw_addr: [u8; 6],
    pub target_proto_addr: [u8; 4],
}

/// IPv4 to hardware address resolutions, keyed by the address as a number.
pub struct ArpCache {
    cache: BTreeMap<u32, MacAddress>,
}

impl View for ArpCache {
    type V = Map<u32, MacAddress>;

    closed spec fn view(&self) -> Map<u32, MacAddress> {
        self.cache@
    }
}

impl ArpCache {
    /// An empty cache.
    pub fn new() -> (r: Self)
        ensures
            r@ == Map::<u32, MacAddress>::empty(),
    {
        ArpCache { cache: BTreeMap::new() }
    }

    /// Records that `ip` resolves to `mac`.
    pub fn insert(&mut self, ip: Ipv4Address, mac: MacAddress)
        ensures
            final(self)@ == old(self)@.insert(spec_ip_u32(ip.0@) as u32, mac),
    {
        self.cache.insert(ip.to_be_u32(), mac);
    }

    /// The hardware address `ip` resolves to, if known.
    pub fn lookup(&self, ip: &Ipv4Address) -> (r: Option<MacAddress>)
        ensures
            r == (if self@.contains_key(spec_ip_u32(ip.0@) as u32) {
                Some(self@[spec_ip_u32(ip.0@) as u32])
            } else {
                None::<MacAddress>
            }),
    {
        match self.cache.get(&ip.to_be_u32()) {
            Some(m) => Some(*m),
            None => None,
        }
    }

    /// Forgets every resolution.
    pub fn clear(&mut self)
        ensures
            final(self)@ == Map::<u32, MacAddress>::empty(),
    {
        self.cache.clear();
    }
}

/// A lookup after an insert of the same address gives the inserted
/// hardware address; other addresses are unaffected.
pub proof fn lemma_arp_insert_lookup(m: Map<u32, MacAddress>, ip: Ipv4Address, other: Ipv4Address, mac: MacAddress)
    ensures
        m.insert(spec_ip_u32(ip.0@) as u32, mac)[spec_ip_u32(ip.0@) as u32] == mac,
        spec_ip_u32(other.0@) != spec_ip_u32(ip.0@) ==> (m.insert(spec_ip_u32(ip.0@) as u32, mac).contains_key(
            spec_ip_u32(other.0@) as u32,
        ) <==> m.contains_key(spec_ip_u32(other.0@) as u32)),
{
    assert(other.0@.len() == 4 && ip.0@.len() == 4);
}

/// The bytes of an ARP request.
pub open spec fn spec_arp_request(sender_mac: MacAddress, sender_ip: Ipv4Address, target_ip: Ipv4Address) -> Seq<u8> {
    seq![0u8, 1u8, 8u8, 0u8, 6u8, 4u8, 0u8, 1u8] + sender_mac.0@ + sender_ip.0@ + seq![0u8, 0u8, 0u8, 0u8, 0u8, 0u8]
        + target_ip.0@
}

/// The bytes of an ARP reply.
pub open spec fn spec_arp_reply(
    sender_mac: MacAddress,
    sender_ip: Ipv4Address,
    target_mac: MacAddress,
    target_ip: Ipv4Address,
) -> Seq<u8> {
    seq![0u8, 1u8, 8u8, 0u8, 6u8, 4u8, 0u8, 2u8] + sender_mac.0@ + sender_ip.0@ + target_mac.0@ + target_ip.0@
}

/// Parsing and building of ARP packets.
pub struct ArpParser;

impl ArpParser {
    /// Decodes an ARP packet; fails on fewer than 28 bytes.
    pub fn parse(data: &[u8]) -> (r: Result<ArpPacket, &'static str>)
        ensures
            data@.len() < 28 ==> r is Err && r->Err_0 == "ARP packet too short",
            data@.len() >= 28 ==> (r matches Ok(p) && p.hw_type == spec_be_u16(data@, 0) && p.proto_type == spec_be_u16(data@, 2)
                && p.hw_addr_len == data@[4] && p.proto_addr_len == data@[5] && p.operation == spec_be_u16(data@, 6)
                && p.sender_hw_addr@ == data@.subrange(8, 14) && p.sender_proto_addr@ == data@.subrange(14, 18)
                && p.target_hw_addr@ == data@.subrange(18, 24) && p.target_proto_addr@ == data@.subrange(24, 28)),
    {
        if data.len() < 28 {
            return Err("ARP packet too short");
        }
        let sender_hw_addr = [data[8], data[9], data[10], data[11], data[12], data[13]];
        let sender_proto_addr = [data[14], data[15], data[16], data[17]];
        let target_hw_addr = [data[18], data[19], data[20], data[21], data[22], data[23]];
        let target_proto_addr = [data[24], data[25], data[26], data[27]];
        assert(sender_hw_addr@ =~= data@.subrange(8, 14));
        assert(sender_proto_addr@ =~= data@.subrange(14, 18));
        assert(target_hw_addr@ =~= data@.subrange(18, 24));
        assert(target_proto_addr@ =~= data@.subrange(24, 28));
        Ok(ArpPacket {
            hw_type: read_be_u16(data, 0),
            proto_type: read_be_u16(data, 2),
            hw_addr_len: data[4],
            proto_addr_len: data[5],
            operation: read_be_u16(data, 6),
            sender_hw_addr,
            sender_proto_addr,
            target_hw_addr,
            target_proto_addr,
        })
    }

    /// An ARP request asking who has `target_ip`.
    pub fn build_request(sender_mac: MacAddress, sender_ip: Ipv4Address, target_ip: Ipv4Address) -> (r: [u8; 28])
        ensures
            r@ == spec_arp_request(sender_mac, sender_ip, target_ip),
    {
        let m = sender_mac.0;
        let s = sender_ip.0;
        let t = target_ip.0;
        let r = [
            0, 1, 8, 0, 6, 4, 0, 1, m[0], m[1], m[2], m[3], m[4], m[5], s[0], s[1], s[2], s[3], 0, 0, 0, 0, 0, 0,
            t[0], t[1], t[2], t[3],
        ];
        assert(r@ =~= spec_arp_request(sender_mac, sender_ip, target_ip));
        r
    }

    /// An ARP reply telling `target` that `sender_ip` is at `sender_mac`.
    pub fn build_reply(sender_mac: MacAddress, sender_ip: Ipv4Address, target_mac: MacAddress, target_ip: Ipv4Address) -> (r:
        [u8; 28])
        ensures
            r@ == spec_arp_reply(sender_mac, sender_ip, target_mac, target_ip),
    {
        let m = sender_mac.0;
        let s = sender_ip.0;
        let tm = target_mac.0;
        let t = target_ip.0;
        let r = [
            0, 1, 8, 0, 6, 4, 0, 2, m[0], m[1], m[2], m[3], m[4], m[5], s[0], s[1], s[2], s[3], tm[0], tm[1], tm[2],
            tm[3], tm[4], tm[5], t[0], t[1], t[2], t[3],
        ];
        assert(r@ =~= spec_arp_reply(sender_mac, sender_ip, target_mac, target_ip));
        r
    }
}

/// Parsing a built request gives back its fields.
pub proof fn lemma_arp_request_roundtrip(sender_mac: MacAddress, sender_ip: Ipv4Address, target_ip: Ipv4Address)
    ensures
        ({
            let p = spec_arp_request(sender_mac, sender_ip, target_ip);
            &&& p.len() == 28
            &&& spec_be_u16(p, 6) == 1
            &&& p.subrange(8, 14) == sender_mac.0@
            &&& p.subrange(14, 18) == sender_ip.0@
            &&& p.subrange(24, 28) == target_ip.0@
        }),
{
    let p = spec_arp_request(sender_mac, sender_ip, target_ip);
    assert(p.subrange(8, 14) =~= sender_mac.0@);
    assert(p.subrange(14, 18) =~= sender_ip.0@);
    assert(p.subrange(24, 28) =~= target_ip.0@);
}

} // verus!
