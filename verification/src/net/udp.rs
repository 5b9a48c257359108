//! UDP: datagram parsing and building, the checksum with the IPv4
//! pseudo-header, and UDP endpoints.

use vstd::prelude::*;
use super::arp::Ipv4Address;
use super::bytes::{add_words, fold_checksum, read_be_u16, spec_be_u16, spec_checksum_of, spec_u16_be, spec_word_count, spec_word_sum, u16_to_be};
use super::ethernet::slice_from;

verus! {

/// The 8-byte UDP header.
pub struct UdpHeader {
    pub src_port: u16,
    pub dst_port: u16,
    pub length: u16,
    pub checksum: u16,
}

/// The sum of the IPv4 pseudo-header words: both addresses, the protocol
/// number and the segment length.
pub open spec fn spec_pseudo_sum(src: Ipv4Address, dst: Ipv4Address, proto: int, len: int) -> int {
    spec_be_u16(src.0@, 0) + spec_be_u16(src.0@, 2) + spec_be_u16(dst.0@, 0) + spec_be_u16(dst.0@, 2) + proto + len
}

/// The datagram `build` produces.
pub open spec fn spec_udp_datagram(src_port: u16, dst_port: u16, payload: Seq<u8>) -> Seq<u8> {
    spec_u16_be(src_port) + spec_u16_be(dst_port) + spec_u16_be((8 + payload.len()) as u16) + seq![0u8, 0u8] + payload
}

/// Adds the pseudo-header words to a sum (shared by UDP and TCP).
pub fn pseudo_header_sum(src_ip: &Ipv4Address, dst_ip: &Ipv4Address, proto: u32, len: usize) -> (r: u32)
    requires
        spec_pseudo_sum(*src_ip, *dst_ip, proto as int, len as int) <= u32::MAX,
    ensures
        r == spec_pseudo_sum(*src_ip, *dst_ip, proto as int, len as int),
{
    let mut sum: u32 = 0;
    sum = sum + (src_ip.0[0] as u32 * 256 + src_ip.0[1] as u32);
    sum = sum + (src_ip.0[2] as u32 * 256 + src_ip.0[3] as u32);
    sum = sum + (dst_ip.0[0] as u32 * 256 + dst_ip.0[1] as u32);
    sum = sum + (dst_ip.0[2] as u32 * 256 + dst_ip.0[3] as u32);
    sum = sum + proto;
    sum = sum + len as u32;
    sum
}

/// Parsing and building of UDP datagrams.
pub struct UdpParser;

impl UdpParser {
    /// Splits a datagram into header and payload; fails on fewer than 8 bytes.
    pub fn parse(data: &[u8]) -> (r: Result<(UdpHeader, &[u8]), &'static str>)
        ensures
            data@.len() < 8 ==> r is Err && r->Err_0 == "UDP packet too short",
            data@.len() >= 8 ==> (r matches Ok((h, payload)) && h.src_port == spec_be_u16(data@, 0) && h.dst_port
                == spec_be_u16(data@, 2) && h.length == spec_be_u16(data@, 4) && h.checksum == spec_be_u16(data@, 6)
                && payload@ == data@.subrange(8, data@.len() as int)),
    {
        if data.len() < 8 {
            return Err("UDP packet too short");
        }
        let header = UdpHeader {
            src_port: read_be_u16(data, 0),
            dst_port: read_be_u16(data, 2),
            length: read_be_u16(data, 4),
            checksum: read_be_u16(data, 6),
        };
        Ok((header, slice_from(data, 8)))
    }

    /// A datagram with the given ports and payload, a length field of
    /// `8 + payload.len()` truncated to 16 bits, and a zero checksum.
    pub fn build(src_port: u16, dst_port: u16, payload: &[u8]) -> (r: Vec<u8>)
        requires
            payload@.len() + 8 <= usize::MAX,
        ensures
            r@ == spec_udp_datagram(src_port, dst_port, payload@),
    {
        let length = 8 + payload.len();
        let mut packet: Vec<u8> = Vec::new();
        packet.extend_from_slice(&u16_to_be(src_port));
        packet.extend_from_slice(&u16_to_be(dst_port));
        packet.extend_from_slice(&u16_to_be(length as u16));
        packet.push(0);
        packet.push(0);
        packet.extend_from_slice(payload);
        assert(packet@ =~= spec_udp_datagram(src_port, dst_port, payload@));
        packet
    }

    /// The UDP checksum of a datagram: the internet checksum over the
    /// pseudo-header (addresses, protocol 17, length) and the datagram.
    pub fn calculate_checksum(src_ip: Ipv4Address, dst_ip: Ipv4Address, udp_packet: &[u8]) -> (r: u16)
        requires
            udp_packet@.len() + 2 <= usize::MAX,
            spec_pseudo_sum(src_ip, dst_ip, 17, udp_packet@.len() as int) + spec_word_sum(udp_packet@, spec_word_count(udp_packet@))
                <= u32::MAX,
        ensures
            r == spec_checksum_of(spec_pseudo_sum(src_ip, dst_ip, 17, udp_packet@.len() as int) + spec_word_sum(
                udp_packet@,
                spec_word_count(udp_packet@),
            )),
    {
        proof {
            super::bytes::lemma_word_sum_nonneg(udp_packet@, spec_word_count(udp_packet@));
        }
        let init = pseudo_header_sum(&src_ip, &dst_ip, 17, udp_packet.len());
        let sum = add_words(init, udp_packet);
        fold_checksum(sum)
    }
}

/// Parsing a built datagram gives back its ports and payload.
pub proof fn lemma_udp_roundtrip(src_port: u16, dst_port: u16, payload: Seq<u8>)
    ensures
        ({
            let d = spec_udp_datagram(src_port, dst_port, payload);
            &&& d.len() >= 8
            &&& spec_be_u16(d, 0) == src_port
            &&& spec_be_u16(d, 2) == dst_port
            &&& d.subrange(8, d.len() as int) == payload
        }),
{
    let d = spec_udp_datagram(src_port, dst_port, payload);
    assert(d.subrange(8, d.len() as int) =~= payload);
}

/// A UDP endpoint.
pub struct UdpSocket {
    pub local_addr: Ipv4Address,
    pub local_port: u16,
    pub remote_addr: Option<Ipv4Address>,
    pub remote_port: Option<u16>,
}

impl UdpSocket {
    /// An endpoint at `local_addr:local_port` without a peer.
    pub fn new(local_addr: Ipv4Address, local_port: u16) -> (r: Self)
        ensures
            r.local_addr == local_addr,
            r.local_port == local_port,
            r.remote_addr is None,
            r.remote_port is None,
    {
        UdpSocket { local_addr, local_port, remote_addr: None, remote_port: None }
    }

    /// Sets the local address and port.
    pub fn bind(&mut self, addr: Ipv4Address, port: u16)
        ensures
            final(self).local_addr == addr,
            final(self).local_port == port,
            final(self).remote_addr == old(self).remote_addr,
            final(self).remote_port == old(self).remote_port,
    {
        self.local_addr = addr;
        self.local_port = port;
    }

    /// Sets the peer.
    pub fn connect(&mut self, addr: Ipv4Address, port: u16)
        ensures
            final(self).local_addr == old(self).local_addr,
            final(self).local_port == old(self).local_port,
            final(self).remote_addr == Some(addr),
            final(self).remote_port == Some(port),
    {
        self.remote_addr = Some(addr);
        self.remote_port = Some(port);
    }
}

} // verus!
