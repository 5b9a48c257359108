//! DHCP client: message types and the DISCOVER and REQUEST messages.

use vstd::prelude::*;
use super::arp::Ipv4Address;
use super::bytes::{spec_u32_be, u32_to_be};
use super::dhcp_options;
use super::ethernet::MacAddress;

verus! {

/// DHCP message types.
#[derive(Debug, Clone, Copy, PartialEq, Eq, Structural)]
pub enum DhcpMessageType {
    Discover,
    Offer,
    Request,
    Decline,
    Ack,
    Nak,
    Release,
    Inform,
}

/// The message type of a raw value.
pub open spec fn spec_dhcp_type(v: u8) -> Option<DhcpMessageType> {
    if v == 1 {
        Some(DhcpMessageType::Discover)
    } else if v == 2 {
        Some(DhcpMessageType::Offer)
    } else if v == 3 {
        Some(DhcpMessageType::Request)
    } else if v == 4 {
        Some(DhcpMessageType::Decline)
    } else if v == 5 {
        Some(DhcpMessageType::Ack)
    } else if v == 6 {
        Some(DhcpMessageType::Nak)
    } else if v == 7 {
        Some(DhcpMessageType::Release)
    } else if v == 8 {
        Some(DhcpMessageType::Inform)
    } else {
        None
    }
}

impl DhcpMessageType {
    /// The message type of a raw value.
    pub fn from_u8(value: u8) -> (r: Option<Self>)
        ensures
            r == spec_dhcp_type(value),
    {
        match value {
            1 => Some(DhcpMessageType::Discover),
            2 => Some(DhcpMessageType::Offer),
            3 => Some(DhcpMessageType::Request),
            4 => Some(DhcpMessageType::Decline),
            5 => Some(DhcpMessageType::Ack),
            6 => Some(DhcpMessageType::Nak),
            7 => Some(DhcpMessageType::Release),
            8 => Some(DhcpMessageType::Inform),
            _ => None,
        }
    }
}

/// A BOOTP/DHCP message.
pub struct DhcpPacket {
    pub op: u8,
    pub htype: u8,
    pub hlen: u8,
    pub hops: u8,
    pub xid: u32,
    pub secs: u16,
    pub flags: u16,
    pub ciaddr: [u8; 4],
    pub yiaddr: [u8; 4],
    pub siaddr: [u8; 4],
    pub giaddr: [u8; 4],
    pub chaddr: [u8; 16],
    pub sname: [u8; 64],
    pub file: [u8; 128],
}

/// Configuration obtained from a server.
#[derive(Debug, Clone, Copy)]
pub struct DhcpConfig {
    pub ip_address: Ipv4Address,
    pub subnet_mask: Ipv4Address,
    pub gateway: Option<Ipv4Address>,
    pub dns_server: Option<Ipv4Address>,
    pub lease_time: u32,
}

/// Client states.
#[derive(Debug, Clone, Copy, PartialEq, Eq, Structural)]
pub enum DhcpState {
    Init,
    Selecting,
    Requesting,
    Bound,
    Renewing,
    Rebinding,
}

/// `n` zero bytes.
pub open spec fn spec_zeros(n: nat) -> Seq<u8> {
    Seq::new(n, |i: int| 0u8)
}

/// The fixed part of a client message: BOOTREQUEST over Ethernet, the
/// transaction id, the broadcast flag, the given server address, the
/// client hardware address and the magic cookie.
pub open spec fn spec_bootp_request(xid: u32, siaddr: Seq<u8>, mac: MacAddress) -> Seq<u8> {
    seq![1u8, 1u8, 6u8, 0u8] + spec_u32_be(xid) + seq![0u8, 0u8, 0x80u8, 0u8] + spec_zeros(8) + siaddr + spec_zeros(4)
        + mac.0@ + spec_zeros(10) + spec_zeros(64) + spec_zeros(128) + seq![0x63u8, 0x82u8, 0x53u8, 0x63u8]
}

/// The DISCOVER message of a client.
pub open spec fn spec_discover(xid: u32, mac: MacAddress) -> Seq<u8> {
    spec_bootp_request(xid, spec_zeros(4), mac) + seq![53u8, 1u8, 1u8, 55u8, 3u8, 1u8, 3u8, 6u8, 255u8]
}

/// The REQUEST message of a client for `offered` from `server`.
pub open spec fn spec_request(xid: u32, mac: MacAddress, offered: Ipv4Address, server: Ipv4Address) -> Seq<u8> {
    spec_bootp_request(xid, server.0@, mac) + seq![53u8, 1u8, 3u8, 50u8, 4u8] + offered.0@ + seq![54u8, 4u8] + server.0@
        + seq![255u8]
}

fn push_zeros(v: &mut Vec<u8>, n: usize)
    ensures
        final(v)@ == old(v)@ + spec_zeros(n as nat),
{
    let mut i: usize = 0;
    while i < n
        invariant
            0 <= i <= n,
            v@ == old(v)@ + spec_zeros(i as nat),
        decreases n - i,
    {
        v.push(0);
        assert(v@ =~= old(v)@ + spec_zeros(i as nat + 1));
        i = i + 1;
    }
}

/// A DHCP client.
pub struct DhcpClient {
    pub state: DhcpState,
    pub mac_address: MacAddress,
    pub transaction_id: u32,
    pub config: Option<DhcpConfig>,
}

impl DhcpClient {
    /// A client in the initial state with transaction id 0x12345678.
    pub fn new(mac_address: MacAddress) -> (r: Self)
        ensures
            r.state == DhcpState::Init,
            r.mac_address == mac_address,
            r.transaction_id == 0x12345678,
            r.config is None,
    {
        DhcpClient { state: DhcpState::Init, mac_address, transaction_id: 0x12345678, config: None }
    }

    fn build_fixed(&self, siaddr: &[u8; 4]) -> (r: Vec<u8>)
        ensures
            r@ == spec_bootp_request(self.transaction_id, siaddr@, self.mac_address),
    {
        let mut packet: Vec<u8> = Vec::new();
        packet.push(1);
        packet.push(1);
        packet.push(6);
        packet.push(0);
        packet.extend_from_slice(&u32_to_be(self.transaction_id));
        packet.push(0);
        packet.push(0);
        packet.push(0x80);
        packet.push(0);
        push_zeros(&mut packet, 8);
        packet.extend_from_slice(siaddr);
        push_zeros(&mut packet, 4);
        packet.extend_from_slice(&self.mac_address.0);
        push_zeros(&mut packet, 10);
        push_zeros(&mut packet, 64);
        push_zeros(&mut packet, 128);
        packet.push(0x63);
        packet.push(0x82);
        packet.push(0x53);
        packet.push(0x63);
        assert(packet@ =~= spec_bootp_request(self.transaction_id, siaddr@, self.mac_address));
        packet
    }

    /// The DISCOVER message: message type 1 and a request for the subnet
    /// mask, router and DNS server options.
    pub fn build_discover(&self) -> (r: Vec<u8>)
        ensures
            r@ == spec_discover(self.transaction_id, self.mac_address),
    {
        let zero: [u8; 4] = [0, 0, 0, 0];
        assert(zero@ =~= spec_zeros(4));
        let mut packet = self.build_fixed(&zero);
        packet.push(dhcp_options::MESSAGE_TYPE);
        packet.push(1);
        packet.push(1);
        packet.push(dhcp_options::PARAM_REQUEST);
        packet.push(3);
        packet.push(dhcp_options::SUBNET_MASK);
        packet.push(dhcp_options::ROUTER);
        packet.push(dhcp_options::DNS_SERVER);
        packet.push(dhcp_options::END);
        assert(packet@ =~= spec_discover(self.transaction_id, self.mac_address));
        packet
    }

    /// The REQUEST message for `offered_ip` from `server_ip`: message type
    /// 3, the requested address and the server identifier.
    pub fn build_request(&self, offered_ip: Ipv4Address, server_ip: Ipv4Address) -> (r: Vec<u8>)
        ensures
            r@ == spec_request(self.transaction_id, self.mac_address, offered_ip, server_ip),
    {
        let mut packet = self.build_fixed(&server_ip.0);
        packet.push(dhcp_options::MESSAGE_TYPE);
        packet.push(1);
        packet.push(3);
        packet.push(dhcp_options::REQUESTED_IP);
        packet.push(4);
        packet.extend_from_slice(&offered_ip.0);
        packet.push(dhcp_options::SERVER_ID);
        packet.push(4);
        packet.extend_from_slice(&server_ip.0);
        packet.push(dhcp_options::END);
        assert(packet@ =~= spec_request(self.transaction_id, self.mac_address, offered_ip, server_ip));
        packet
    }

    /// Starts discovery: the client is selecting (the DISCOVER message is
    /// built; no device sends it yet).
    pub fn start_discovery(&mut self)
        ensures
            final(self).state == DhcpState::Selecting,
            final(self).mac_address == old(self).mac_address,
            final(self).transaction_id == old(self).transaction_id,
    {
        self.state = DhcpState::Selecting;
        let _discover = self.build_discover();
    }

    /// Handles a server message; not implemented, always an error.
    pub fn handle_packet(&mut self, _packet: &[u8]) -> (r: Result<(), &'static str>)
        ensures
            r is Err && r->Err_0 == "DHCP packet handling not implemented",
            *final(self) == *old(self),
    {
        Err("DHCP packet handling not implemented")
    }
}

/// Where the fields of a REQUEST sit: a BOOTREQUEST over Ethernet with the
/// transaction id at bytes 4..8, the server address at 20..24, the client
/// hardware address at 28..34 and the magic cookie at 236..240; then the
/// options: message type 3 (REQUEST), option 50 (requested address)
/// carrying the offered address, option 54 (server identifier) carrying
/// the server's address, and the end mark.
pub proof fn lemma_request_fields(xid: u32, mac: MacAddress, offered: Ipv4Address, server: Ipv4Address)
    ensures
        ({
            let m = spec_request(xid, mac, offered, server);
            &&& m.len() == 256
            &&& m[0] == 1 && m[1] == 1 && m[2] == 6
            &&& m.subrange(4, 8) == spec_u32_be(xid)
            &&& m.subrange(20, 24) == server.0@
            &&& m.subrange(28, 34) == mac.0@
            &&& m.subrange(236, 240) == seq![0x63u8, 0x82u8, 0x53u8, 0x63u8]
            &&& m[240] == 53 && m[241] == 1 && m[242] == 3
            &&& m[243] == 50 && m[244] == 4
            &&& m.subrange(245, 249) == offered.0@
            &&& m[249] == 54 && m[250] == 4
            &&& m.subrange(251, 255) == server.0@
            &&& m[255] == 255
        }),
{
    let m = spec_request(xid, mac, offered, server);
    assert(m.subrange(4, 8) =~= spec_u32_be(xid));
    assert(m.subrange(20, 24) =~= server.0@);
    assert(m.subrange(28, 34) =~= mac.0@);
    assert(m.subrange(236, 240) =~= seq![0x63u8, 0x82u8, 0x53u8, 0x63u8]);
    assert(m.subrange(245, 249) =~= offered.0@);
    assert(m.subrange(251, 255) =~= server.0@);
}

/// Where the fields of a DISCOVER sit: the fixed part as in a REQUEST with
/// a zero server address, then message type 1 (DISCOVER), the parameter
/// request list (subnet mask, router, DNS server) and the end mark.
pub proof fn lemma_discover_fields(xid: u32, mac: MacAddress)
    ensures
        ({
            let m = spec_discover(xid, mac);
            &&& m.len() == 249
            &&& m[0] == 1 && m[1] == 1 && m[2] == 6
            &&& m.subrange(4, 8) == spec_u32_be(xid)
            &&& m.subrange(20, 24) == seq![0u8, 0u8, 0u8, 0u8]
            &&& m.subrange(28, 34) == mac.0@
            &&& m.subrange(236, 240) == seq![0x63u8, 0x82u8, 0x53u8, 0x63u8]
            &&& m.subrange(240, 249) == seq![53u8, 1u8, 1u8, 55u8, 3u8, 1u8, 3u8, 6u8, 255u8]
        }),
{
    let m = spec_discover(xid, mac);
    assert(m.subrange(4, 8) =~= spec_u32_be(xid));
    assert(m.subrange(20, 24) =~= seq![0u8, 0u8, 0u8, 0u8]);
    assert(m.subrange(28, 34) =~= mac.0@);
    assert(m.subrange(236, 240) =~= seq![0x63u8, 0x82u8, 0x53u8, 0x63u8]);
    assert(m.subrange(240, 249) =~= seq![53u8, 1u8, 1u8, 55u8, 3u8, 1u8, 3u8, 6u8, 255u8]);
}

/// Both client messages are at least 236 bytes long and carry the client
/// hardware address at bytes 28..34.
pub proof fn lemma_dhcp_message_layout(xid: u32, mac: MacAddress, offered: Ipv4Address, server: Ipv4Address)
    ensures
        spec_discover(xid, mac).len() >= 236,
        spec_discover(xid, mac).subrange(28, 34) == mac.0@,
        spec_request(xid, mac, offered, server).len() >= 236,
        spec_request(xid, mac, offered, server).subrange(28, 34) == mac.0@,
{
    assert(spec_discover(xid, mac).subrange(28, 34) =~= mac.0@);
    assert(spec_request(xid, mac, offered, server).subrange(28, 34) =~= mac.0@);
}

} // verus!
