//! Ethernet II frames: MAC addresses, EtherTypes, frame parsing and
//! building.

use vstd::prelude::*;
use super::bytes::{read_be_u16, spec_be_u16, spec_u16_be, u16_to_be};

verus! {

/// The 14-byte Ethernet header.
pub struct EthernetFrame {
    pub dst_mac: [u8; 6],
    pub src_mac: [u8; 6],
    pub ethertype: u16,
}

/// Payload protocols of a frame.
#[derive(Debug, Clone, Copy, PartialEq, Eq, Structural)]
pub enum EtherType {
    IPv4,
    ARP,
    IPv6,
}

/// The EtherType a raw value stands for.
pub open spec fn spec_ethertype(v: int) -> Option<EtherType> {
    if v == 0x0800 {
        Some(EtherType::IPv4)
    } else if v == 0x0806 {
        Some(EtherType::ARP)
    } else if v == 0x86DD {
        Some(EtherType::IPv6)
    } else {
        None
    }
}

/// The raw value of an EtherType.
pub open spec fn spec_ethertype_value(t: EtherType) -> u16 {
    match t {
        EtherType::IPv4 => 0x0800,
        EtherType::ARP => 0x0806,
        EtherType::IPv6 => 0x86DD,
    }
}

impl EtherType {
    /// The EtherType a raw value stands for.
    pub fn from_u16(value: u16) -> (r: Option<Self>)
        ensures
            r == spec_ethertype(value as int),
    {
        match value {
            0x0800 => Some(EtherType::IPv4),
            0x0806 => Some(EtherType::ARP),
            0x86DD => Some(EtherType::IPv6),
            _ => None,
        }
    }

    /// The raw value of the EtherType.
    pub fn to_be_u16(self) -> (r: u16)
        ensures
            r == spec_ethertype_value(self),
    {
        match self {
            EtherType::IPv4 => 0x0800,
            EtherType::ARP => 0x0806,
            EtherType::IPv6 => 0x86DD,
        }
    }
}

/// A hardware address.
#[derive(Debug, Clone, Copy, PartialEq, Eq)]
pub struct MacAddress(pub [u8; 6]);

impl MacAddress {
    /// The address with the given bytes.
    pub fn new(bytes: [u8; 6]) -> (r: Self)
        ensures
            r.0@ == bytes@,
    {
        MacAddress(bytes)
    }

    /// The broadcast address ff:ff:ff:ff:ff:ff.
    pub fn broadcast() -> (r: Self)
        ensures
            r.0@ == seq![0xffu8, 0xffu8, 0xffu8, 0xffu8, 0xffu8, 0xffu8],
    {
        let r = MacAddress([0xff, 0xff, 0xff, 0xff, 0xff, 0xff]);
        assert(r.0@ =~= seq![0xffu8, 0xffu8, 0xffu8, 0xffu8, 0xffu8, 0xffu8]);
        r
    }

    /// Whether this is the broadcast address.
    pub fn is_broadcast(&self) -> (r: bool)
        ensures
            r == (self.0@ == seq![0xffu8, 0xffu8, 0xffu8, 0xffu8, 0xffu8, 0xffu8]),
    {
        let b = &self.0;
        let r = b[0] == 0xff && b[1] == 0xff && b[2] == 0xff && b[3] == 0xff && b[4] == 0xff && b[5] == 0xff;
        proof {
            if r {
                assert(self.0@ =~= seq![0xffu8, 0xffu8, 0xffu8, 0xffu8, 0xffu8, 0xffu8]);
            }
        }
        r
    }

    /// Whether this is a multicast address (low bit of the first byte set).
    pub fn is_multicast(&self) -> (r: bool)
        ensures
            r == (self.0@[0] & 1 != 0),
    {
        self.0[0] & 0x01 != 0
    }
}

/// The bytes of a frame with the given header fields and payload.
pub open spec fn spec_frame(dst: MacAddress, src: MacAddress, t: EtherType, payload: Seq<u8>) -> Seq<u8> {
    dst.0@ + src.0@ + spec_u16_be(spec_ethertype_value(t)) + payload
}

/// Parsing and building of Ethernet frames.
pub struct EthernetParser;

impl EthernetParser {
    /// Splits a frame into destination, source, EtherType and payload.
    /// Fails on frames shorter than 14 bytes and on unknown EtherTypes.
    pub fn parse(data: &[u8]) -> (r: Result<(MacAddress, MacAddress, EtherType, &[u8]), &'static str>)
        ensures
            data@.len() < 14 ==> r is Err && r->Err_0 == "Frame too short",
            data@.len() >= 14 && spec_ethertype(spec_be_u16(data@, 12)) is None ==> r is Err && r->Err_0 == "Unknown EtherType",
            data@.len() >= 14 && spec_ethertype(spec_be_u16(data@, 12)) is Some ==> (r matches Ok((dst, src, t, payload))
                && dst.0@ == data@.subrange(0, 6) && src.0@ == data@.subrange(6, 12)
                && Some(t) == spec_ethertype(spec_be_u16(data@, 12)) && payload@ == data@.subrange(14, data@.len() as int)),
    {
        if data.len() < 14 {
            return Err("Frame too short");
        }
        let dst_mac = [data[0], data[1], data[2], data[3], data[4], data[5]];
        let src_mac = [data[6], data[7], data[8], data[9], data[10], data[11]];
        assert(dst_mac@ =~= data@.subrange(0, 6));
        assert(src_mac@ =~= data@.subrange(6, 12));
        let ethertype = read_be_u16(data, 12);
        let ethertype = match EtherType::from_u16(ethertype) {
            Some(t) => t,
            None => return Err("Unknown EtherType"),
        };
        let payload = slice_from(data, 14);
        Ok((MacAddress(dst_mac), MacAddress(src_mac), ethertype, payload))
    }

    /// The frame with the given header fields and payload.
    pub fn build(dst_mac: MacAddress, src_mac: MacAddress, ethertype: EtherType, payload: &[u8]) -> (r: Vec<u8>)
        ensures
            r@ == spec_frame(dst_mac, src_mac, ethertype, payload@),
    {
        let mut frame: Vec<u8> = Vec::new();
        frame.extend_from_slice(&dst_mac.0);
        frame.extend_from_slice(&src_mac.0);
        let t = u16_to_be(ethertype.to_be_u16());
        frame.extend_from_slice(&t);
        frame.extend_from_slice(payload);
        assert(frame@ =~= spec_frame(dst_mac, src_mac, ethertype, payload@));
        frame
    }
}

/// The part of `data` from `start` on.
pub fn slice_from(data: &[u8], start: usize) -> (r: &[u8])
    requires
        start <= data@.len(),
    ensures
        r@ == data@.subrange(start as int, data@.len() as int),
{
    let n = data.len();
    vstd::slice::slice_subrange(data, start, n)
}

/// Parsing a built frame gives back its header fields and payload.
pub proof fn lemma_frame_roundtrip(dst: MacAddress, src: MacAddress, t: EtherType, payload: Seq<u8>)
    ensures
        ({
            let f = spec_frame(dst, src, t, payload);
            &&& f.len() >= 14
            &&& f.subrange(0, 6) == dst.0@
            &&& f.subrange(6, 12) == src.0@
            &&& spec_ethertype(spec_be_u16(f, 12)) == Some(t)
            &&& f.subrange(14, f.len() as int) == payload
        }),
{
    let f = spec_frame(dst, src, t, payload);
    assert(f.subrange(0, 6) =~= dst.0@);
    assert(f.subrange(6, 12) =~= src.0@);
    assert(f.subrange(14, f.len() as int) =~= payload);
    assert(f[12] == spec_u16_be(spec_ethertype_value(t))[0]);
    assert(f[13] == spec_u16_be(spec_ethertype_value(t))[1]);
}

} // verus!
