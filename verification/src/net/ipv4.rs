//! IPv4: header parsing and building, the header checksum and the
//! routing table.

use vstd::prelude::*;
use super::arp::{spec_ip_u32, Ipv4Address};
use super::bytes::{
    add_words, fold_checksum, lemma_checksum_verifies, lemma_word_sum_nonneg, read_be_u16, spec_be_u16, spec_checksum_of,
    spec_u16_be, spec_word, spec_word_count, spec_word_sum, u16_to_be,
};
use super::ethernet::{slice_from, MacAddress};

verus! {

/// Transport protocols carried in IPv4.
#[derive(Debug, Clone, Copy, PartialEq, Eq, Structural)]
pub enum IpProtocol {
    ICMP,
    TCP,
    UDP,
}

/// The protocol number of a protocol.
pub open spec fn spec_protocol_value(p: IpProtocol) -> u8 {
    match p {
        IpProtocol::ICMP => 1,
        IpProtocol::TCP => 6,
        IpProtocol::UDP => 17,
    }
}

impl IpProtocol {
    /// The protocol a protocol number stands for.
    pub fn from_u8(value: u8) -> (r: Option<Self>)
        ensures
            r == (if value == 1 {
                Some(IpProtocol::ICMP)
            } else if value == 6 {
                Some(IpProtocol::TCP)
            } else if value == 17 {
                Some(IpProtocol::UDP)
            } else {
                None
            }),
    {
        match value {
            1 => Some(IpProtocol::ICMP),
            6 => Some(IpProtocol::TCP),
            17 => Some(IpProtocol::UDP),
            _ => None,
        }
    }

    /// The protocol number.
    pub fn value(self) -> (r: u8)
        ensures
            r == spec_protocol_value(self),
    {
        match self {
            IpProtocol::ICMP => 1,
            IpProtocol::TCP => 6,
            IpProtocol::UDP => 17,
        }
    }
}

/// An IPv4 header.
pub struct Ipv4Header {
    pub version_ihl: u8,
    pub tos: u8,
    pub total_length: u16,
    pub identification: u16,
    pub flags_fragment: u16,
    pub ttl: u8,
    pub protocol: u8,
    pub checksum: u16,
    pub src_addr: [u8; 4],
    pub dst_addr: [u8; 4],
}

impl Ipv4Header {
    /// The IP version (high nibble of the first byte).
    pub fn version(&self) -> (r: u8)
        ensures
            r == self.version_ihl / 16,
    {
        let v = self.version_ihl;
        assert(v >> 4u8 == v / 16) by (bit_vector);
        v >> 4
    }

    /// The header length in bytes (low nibble of the first byte, in words).
    pub fn header_length(&self) -> (r: usize)
        ensures
            r == (self.version_ihl % 16) * 4,
    {
        let v = self.version_ihl;
        assert(v & 0x0Fu8 == v % 16) by (bit_vector);
        ((v & 0x0F) * 4) as usize
    }
}

/// Parsing and building of IPv4 packets.
pub struct Ipv4Parser;

/// The 20 header bytes `build` writes, before the checksum is filled in.
pub open spec fn spec_ipv4_header_zero(src: Ipv4Address, dst: Ipv4Address, p: IpProtocol, payload_len: int) -> Seq<u8> {
    seq![0x45u8, 0u8] + spec_u16_be((20 + payload_len) as u16) + seq![0u8, 0u8, 0x40u8, 0u8, 64u8, spec_protocol_value(p), 0u8, 0u8]
        + src.0@ + dst.0@
}

/// The packet `build` produces.
pub open spec fn spec_ipv4_packet(src: Ipv4Address, dst: Ipv4Address, p: IpProtocol, payload: Seq<u8>) -> Seq<u8> {
    let h = spec_ipv4_header_zero(src, dst, p, payload.len() as int);
    let c = spec_checksum_of(spec_word_sum(h, 10));
    h.update(10, (c / 256) as u8).update(11, (c % 256) as u8) + payload
}

impl Ipv4Parser {
    /// Splits a packet into header and payload. Fails on fewer than 20
    /// bytes, a version other than 4, and a header longer than the data.
    pub fn parse(data: &[u8]) -> (r: Result<(Ipv4Header, &[u8]), &'static str>)
        ensures
            data@.len() < 20 ==> r is Err && r->Err_0 == "IPv4 packet too short",
            data@.len() >= 20 && data@[0] / 16 != 4 ==> r is Err && r->Err_0 == "Invalid IP version",
            data@.len() >= 20 && data@[0] / 16 == 4 && data@.len() < (data@[0] % 16) * 4 ==> r is Err && r->Err_0
                == "Truncated IP header",
            data@.len() >= 20 && data@[0] / 16 == 4 && data@.len() >= (data@[0] % 16) * 4 ==> (r matches Ok((h, payload))
                && h.version_ihl == data@[0] && h.tos == data@[1] && h.total_length == spec_be_u16(data@, 2)
                && h.identification == spec_be_u16(data@, 4) && h.flags_fragment == spec_be_u16(data@, 6) && h.ttl
                == data@[8] && h.protocol == data@[9] && h.checksum == spec_be_u16(data@, 10) && h.src_addr@
                == data@.subrange(12, 16) && h.dst_addr@ == data@.subrange(16, 20) && payload@ == data@.subrange(
                (data@[0] % 16) * 4,
                data@.len() as int,
            )),
    {
        if data.len() < 20 {
            return Err("IPv4 packet too short");
        }
        let src_addr = [data[12], data[13], data[14], data[15]];
        let dst_addr = [data[16], data[17], data[18], data[19]];
        assert(src_addr@ =~= data@.subrange(12, 16));
        assert(dst_addr@ =~= data@.subrange(16, 20));
        let header = Ipv4Header {
            version_ihl: data[0],
            tos: data[1],
            total_length: read_be_u16(data, 2),
            identification: read_be_u16(data, 4),
            flags_fragment: read_be_u16(data, 6),
            ttl: data[8],
            protocol: data[9],
            checksum: read_be_u16(data, 10),
            src_addr,
            dst_addr,
        };
        if header.version() != 4 {
            return Err("Invalid IP version");
        }
        let header_len = header.header_length();
        if data.len() < header_len {
            return Err("Truncated IP header");
        }
        let payload = slice_from(data, header_len);
        Ok((header, payload))
    }

    /// The internet checksum of `header`: the complement of the
    /// end-around-carry sum of its 16-bit words.
    pub fn calculate_checksum(header: &[u8]) -> (r: u16)
        requires
            header@.len() + 2 <= usize::MAX,
            spec_word_sum(header@, spec_word_count(header@)) <= u32::MAX,
        ensures
            r == spec_checksum_of(spec_word_sum(header@, spec_word_count(header@))),
    {
        let sum = add_words(0, header);
        fold_checksum(sum)
    }

    /// A packet from `src_addr` to `dst_addr` with TTL 64, the don't-fragment
    /// flag, identification 0 and the header checksum filled in. The total
    /// length field is `20 + payload.len()` truncated to 16 bits.
    pub fn build(src_addr: Ipv4Address, dst_addr: Ipv4Address, protocol: IpProtocol, payload: &[u8]) -> (r: Vec<u8>)
        requires
            payload@.len() + 20 <= usize::MAX,
        ensures
            r@ == spec_ipv4_packet(src_addr, dst_addr, protocol, payload@),
    {
        let total_length = 20 + payload.len();
        let mut packet: Vec<u8> = Vec::new();
        packet.push(0x45);
        packet.push(0);
        let tl = u16_to_be(total_length as u16);
        packet.extend_from_slice(&tl);
        packet.push(0);
        packet.push(0);
        packet.push(0x40);
        packet.push(0);
        packet.push(64);
        packet.push(protocol.value());
        packet.push(0);
        packet.push(0);
        packet.extend_from_slice(&src_addr.0);
        packet.extend_from_slice(&dst_addr.0);
        let ghost h = spec_ipv4_header_zero(src_addr, dst_addr, protocol, payload@.len() as int);
        assert(packet@ =~= h);
        proof {
            lemma_word_sum_bound(h, 10);
        }
        let checksum = Self::calculate_checksum(packet.as_slice());
        let cb = u16_to_be(checksum);
        packet.set(10, cb[0]);
        packet.set(11, cb[1]);
        packet.extend_from_slice(payload);
        assert(packet@ =~= spec_ipv4_packet(src_addr, dst_addr, protocol, payload@));
        packet
    }
}

/// Each word is below 2^16, so `k` words sum to less than `k * 2^16`.
pub proof fn lemma_word_sum_bound(d: Seq<u8>, k: int)
    requires
        0 <= k,
    ensures
        spec_word_sum(d, k) <= k * 0xFFFF,
    decreases k,
{
    if k > 0 {
        lemma_word_sum_bound(d, k - 1);
        let j = k - 1;
        if 2 * j + 1 < d.len() && 0 <= 2 * j {
            assert(d[2 * j] * 256 + d[2 * j + 1] <= 0xFFFF);
        }
        if 0 <= 2 * j < d.len() {
            assert(d[2 * j] * 256 <= 0xFFFF);
        }
    }
}

proof fn lemma_word_sum_set_checksum(h: Seq<u8>, hi: u8, lo: u8, k: int)
    requires
        h.len() == 20,
        h[10] == 0 && h[11] == 0,
        0 <= k <= 10,
    ensures
        spec_word_sum(h.update(10, hi).update(11, lo), k) == spec_word_sum(h, k) + (if k > 5 { hi * 256 + lo } else { 0 }),
    decreases k,
{
    if k > 0 {
        let g = h.update(10, hi).update(11, lo);
        lemma_word_sum_set_checksum(h, hi, lo, k - 1);
        let j = k - 1;
        if j != 5 {
            assert(g[2 * j] == h[2 * j] && g[2 * j + 1] == h[2 * j + 1]);
            assert(spec_word(g, j) == spec_word(h, j));
        } else {
            assert(spec_word(g, j) == hi * 256 + lo);
            assert(spec_word(h, j) == 0);
        }
    }
}

/// The header of a packet that `build` makes passes the checksum test:
/// the checksum of its words, checksum field included, is zero.
pub proof fn lemma_build_checksum_valid(src: Ipv4Address, dst: Ipv4Address, p: IpProtocol, payload: Seq<u8>)
    ensures
        spec_checksum_of(spec_word_sum(spec_ipv4_packet(src, dst, p, payload).take(20), 10)) == 0,
{
    let h = spec_ipv4_header_zero(src, dst, p, payload.len() as int);
    let s = spec_word_sum(h, 10);
    let c = spec_checksum_of(s);
    let hi = (c / 256) as u8;
    let lo = (c % 256) as u8;
    assert(h.len() == 20);
    assert(spec_ipv4_packet(src, dst, p, payload).take(20) =~= h.update(10, hi).update(11, lo));
    lemma_word_sum_set_checksum(h, hi, lo, 10);
    assert(hi * 256 + lo == c);
    lemma_word_sum_nonneg(h, 10);
    lemma_checksum_verifies(s);
}

/// A packet that `build` makes parses back: version 4, a 20-byte header,
/// the addresses, protocol, time to live and total length it was built
/// with, and the payload after the header.
pub proof fn lemma_build_parses_back(src: Ipv4Address, dst: Ipv4Address, p: IpProtocol, payload: Seq<u8>)
    ensures
        ({
            let pk = spec_ipv4_packet(src, dst, p, payload);
            &&& pk.len() == 20 + payload.len()
            &&& pk[0] / 16 == 4
            &&& (pk[0] % 16) * 4 == 20
            &&& pk[8] == 64
            &&& pk[9] == spec_protocol_value(p)
            &&& spec_be_u16(pk, 2) == (20 + payload.len()) as u16
            &&& pk.subrange(12, 16) == src.0@
            &&& pk.subrange(16, 20) == dst.0@
            &&& pk.subrange(20, pk.len() as int) == payload
        }),
{
    let pk = spec_ipv4_packet(src, dst, p, payload);
    let h = spec_ipv4_header_zero(src, dst, p, payload.len() as int);
    assert(h.len() == 20);
    assert(pk.subrange(12, 16) =~= src.0@);
    assert(pk.subrange(16, 20) =~= dst.0@);
    assert(pk.subrange(20, pk.len() as int) =~= payload);
    let v = (20 + payload.len()) as u16;
    assert(pk[2] == (v / 256) as u8 && pk[3] == (v % 256) as u8);
}

/// A route: a network and mask, an optional gateway and the interface.
#[derive(Debug, Clone, Copy)]
pub struct RouteEntry {
    pub network: Ipv4Address,
    pub netmask: Ipv4Address,
    pub gateway: Option<Ipv4Address>,
    pub interface_mac: MacAddress,
}

/// Number of one bits of `x`.
pub open spec fn spec_popcount(x: u32) -> nat
    decreases x,
{
    if x == 0 {
        0
    } else {
        (x % 2) as nat + spec_popcount(x / 2)
    }
}

/// Whether route `r` covers `dst`.
pub open spec fn spec_route_matches(r: RouteEntry, dst: u32) -> bool {
    (dst & (spec_ip_u32(r.netmask.0@) as u32)) == ((spec_ip_u32(r.network.0@) as u32) & (spec_ip_u32(r.netmask.0@) as u32))
}

/// The prefix length of a route (one bits of its mask).
pub open spec fn spec_prefix_len(r: RouteEntry) -> nat {
    spec_popcount(spec_ip_u32(r.netmask.0@) as u32)
}

/// The number of one bits of `x`.
pub fn popcount(x: u32) -> (r: u32)
    ensures
        r == spec_popcount(x),
{
    proof {
        lemma_popcount_le_32(x);
    }
    let mut v = x;
    let mut n: u32 = 0;
    while v != 0
        invariant
            n + spec_popcount(v) == spec_popcount(x),
            spec_popcount(x) <= 32,
        decreases v,
    {
        proof {
            assert(v & 1 == v % 2 && v >> 1 == v / 2) by (bit_vector);
        }
        n = n + (v & 1);
        v = v >> 1;
    }
    n
}

proof fn lemma_popcount_bound(v: u32, k: nat)
    requires
        (v as int) < vstd::arithmetic::power2::pow2(k),
    ensures
        spec_popcount(v) <= k,
    decreases v,
{
    if v != 0 {
        if k == 0 {
            vstd::arithmetic::power2::lemma2_to64();
        } else {
            vstd::arithmetic::power2::lemma_pow2_unfold(k);
            lemma_popcount_bound(v / 2, (k - 1) as nat);
        }
    }
}

proof fn lemma_popcount_le_32(v: u32)
    ensures
        spec_popcount(v) <= 32,
{
    vstd::arithmetic::power2::lemma2_to64();
    lemma_popcount_bound(v, 32);
}

/// The routing table.
pub struct RoutingTable {
    routes: Vec<RouteEntry>,
}

impl View for RoutingTable {
    type V = Seq<RouteEntry>;

    closed spec fn view(&self) -> Seq<RouteEntry> {
        self.routes@
    }
}

impl RoutingTable {
    /// A table without routes.
    pub fn new() -> (r: Self)
        ensures
            r@ == Seq::<RouteEntry>::empty(),
    {
        RoutingTable { routes: Vec::new() }
    }

    /// Appends a route.
    pub fn add_route(&mut self, entry: RouteEntry)
        ensures
            final(self)@ == old(self)@.push(entry),
    {
        self.routes.push(entry);
    }

    /// The most specific route covering `dst`: among the matching routes
    /// one with the longest prefix, the last such in table order.
    pub fn lookup(&self, dst: &Ipv4Address) -> (r: Option<&RouteEntry>)
        ensures
            match r {
                Some(route) => exists|i: int|
                    0 <= i < self@.len() && self@[i] == *route && spec_route_matches(self@[i], spec_ip_u32(dst.0@) as u32)
                        && (forall|j: int|
                        0 <= j < self@.len() && spec_route_matches(#[trigger] self@[j], spec_ip_u32(dst.0@) as u32)
                            ==> spec_prefix_len(self@[j]) <= spec_prefix_len(self@[i])) && (forall|j: int|
                        i < j < self@.len() && spec_route_matches(#[trigger] self@[j], spec_ip_u32(dst.0@) as u32)
                            ==> spec_prefix_len(self@[j]) < spec_prefix_len(self@[i])),
                None => forall|j: int|
                    0 <= j < self@.len() ==> !spec_route_matches(#[trigger] self@[j], spec_ip_u32(dst.0@) as u32),
            },
    {
        let dst_u32 = dst.to_be_u32();
        let mut best: Option<usize> = None;
        let mut best_pop: u32 = 0;
        let mut i: usize = 0;
        while i < self.routes.len()
            invariant
                dst_u32 == spec_ip_u32(dst.0@),
                0 <= i <= self@.len(),
                match best {
                    Some(b) => b < i && spec_route_matches(self@[b as int], dst_u32) && best_pop == spec_prefix_len(
                        self@[b as int],
                    ) && (forall|j: int|
                        0 <= j < i && spec_route_matches(#[trigger] self@[j], dst_u32) ==> spec_prefix_len(self@[j])
                            <= best_pop) && (forall|j: int|
                        b < j < i && spec_route_matches(#[trigger] self@[j], dst_u32) ==> spec_prefix_len(self@[j])
                            < best_pop),
                    None => forall|j: int| 0 <= j < i ==> !spec_route_matches(#[trigger] self@[j], dst_u32),
                },
            decreases self@.len() - i,
        {
            let route = &self.routes[i];
            let network = route.network.to_be_u32();
            let netmask = route.netmask.to_be_u32();
            if (dst_u32 & netmask) == (network & netmask) {
                let pop = popcount(netmask);
                match best {
                    Some(b) => {
                        if pop >= best_pop {
                            best = Some(i);
                            best_pop = pop;
                        }
                    },
                    None => {
                        best = Some(i);
                        best_pop = pop;
                    },
                }
            }
            i = i + 1;
        }
        match best {
            Some(b) => Some(&self.routes[b]),
            None => None,
        }
    }

    /// Removes every route.
    pub fn clear(&mut self)
        ensures
            final(self)@ == Seq::<RouteEntry>::empty(),
    {
        self.routes.clear();
    }
}

} // verus!
