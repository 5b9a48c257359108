use fanga::net::drivers::e1000::{ctrl_bits, rctl_bits, registers, tctl_bits};
use fanga::net::arp::{ArpCache, ArpOperation, ArpParser, Ipv4Address};
use fanga::net::dhcp::{DhcpClient, DhcpMessageType, DhcpState};
use fanga::net::ethernet::{EtherType, EthernetParser, MacAddress};
use fanga::net::ipv4::{IpProtocol, Ipv4Parser, RouteEntry, RoutingTable};
use fanga::net::socket::{
    SocketAddr, SocketDomain, SocketManager, SocketProtocol, SocketState, SocketType, TcpSocket, UdpSocketWrapper,
};
use fanga::net::tcp::{TcpConnection, TcpHeader, TcpParser, TcpState};
use fanga::net::tcp_flags;
use fanga::net::udp::{UdpParser, UdpSocket};

#[test]
fn test_ipv4_address() {
    let ip = Ipv4Address::new(192, 168, 1, 1);
    assert_eq!(ip.0, [192, 168, 1, 1]);

    let ip2 = Ipv4Address::from_be_u32(ip.to_be_u32());
    assert_eq!(ip, ip2);
}

#[test]
fn ipv4_address_big_endian_value() {
    assert_eq!(Ipv4Address::new(192, 168, 1, 1).to_be_u32(), 0xC0A8_0101);
    assert_eq!(Ipv4Address::from_be_u32(0x0A00_0001).0, [10, 0, 0, 1]);
}

#[test]
fn test_arp_cache() {
    let mut cache = ArpCache::new();
    let ip = Ipv4Address::new(192, 168, 1, 1);
    let mac = MacAddress::new([0x00, 0x11, 0x22, 0x33, 0x44, 0x55]);

    assert!(cache.lookup(&ip).is_none());

    cache.insert(ip, mac);
    assert_eq!(cache.lookup(&ip), Some(mac));

    cache.clear();
    assert!(cache.lookup(&ip).is_none());
}

#[test]
fn test_arp_request_build() {
    let sender_mac = MacAddress::new([0x00, 0x11, 0x22, 0x33, 0x44, 0x55]);
    let sender_ip = Ipv4Address::new(192, 168, 1, 100);
    let target_ip = Ipv4Address::new(192, 168, 1, 1);

    let packet = ArpParser::build_request(sender_mac, sender_ip, target_ip);

    assert_eq!(u16::from_be_bytes([packet[6], packet[7]]), 1);
    assert_eq!(&packet[14..18], &[192, 168, 1, 100]);
    assert_eq!(&packet[24..28], &[192, 168, 1, 1]);
}

#[test]
fn arp_reply_parses_back() {
    let a = MacAddress::new([1, 2, 3, 4, 5, 6]);
    let b = MacAddress::new([7, 8, 9, 10, 11, 12]);
    let ip_a = Ipv4Address::new(10, 0, 0, 1);
    let ip_b = Ipv4Address::new(10, 0, 0, 2);
    let packet = ArpParser::build_reply(a, ip_a, b, ip_b);
    let parsed = ArpParser::parse(&packet).unwrap();
    assert_eq!(ArpOperation::from_u16(parsed.operation), Some(ArpOperation::Reply));
    assert_eq!(parsed.sender_hw_addr, a.0);
    assert_eq!(parsed.sender_proto_addr, ip_a.0);
    assert_eq!(parsed.target_hw_addr, b.0);
    assert_eq!(parsed.target_proto_addr, ip_b.0);
    assert!(ArpParser::parse(&packet[..27]).is_err());
}

#[test]
fn test_dhcp_message_type() {
    assert_eq!(DhcpMessageType::from_u8(1), Some(DhcpMessageType::Discover));
    assert_eq!(DhcpMessageType::from_u8(5), Some(DhcpMessageType::Ack));
    assert_eq!(DhcpMessageType::from_u8(99), None);
}

#[test]
fn test_dhcp_client_creation() {
    let mac = MacAddress::new([0x00, 0x11, 0x22, 0x33, 0x44, 0x55]);
    let client = DhcpClient::new(mac);

    assert_eq!(client.state, DhcpState::Init);
    assert_eq!(client.mac_address, mac);
    assert!(client.config.is_none());
}

#[test]
fn test_dhcp_discover_packet() {
    let mac = MacAddress::new([0x00, 0x11, 0x22, 0x33, 0x44, 0x55]);
    let client = DhcpClient::new(mac);

    let discover = client.build_discover();

    assert!(discover.len() >= 236);
    assert_eq!(discover[0], 1);
    assert_eq!(discover[1], 1);
    assert_eq!(discover[2], 6);
    assert_eq!(&discover[28..34], &mac.0);
}

#[test]
fn test_dhcp_request_packet() {
    let mac = MacAddress::new([0x00, 0x11, 0x22, 0x33, 0x44, 0x55]);
    let client = DhcpClient::new(mac);

    let offered_ip = Ipv4Address::new(192, 168, 1, 100);
    let server_ip = Ipv4Address::new(192, 168, 1, 1);

    let request = client.build_request(offered_ip, server_ip);

    assert!(request.len() >= 236);
    assert_eq!(request[0], 1);
    assert_eq!(&request[28..34], &mac.0);
}

#[test]
fn dhcp_start_discovery_moves_to_selecting() {
    let mut client = DhcpClient::new(MacAddress::new([0, 1, 2, 3, 4, 5]));
    client.start_discovery();
    assert_eq!(client.state, DhcpState::Selecting);
}

#[test]
fn test_mac_address() {
    let mac = MacAddress::new([0x00, 0x11, 0x22, 0x33, 0x44, 0x55]);
    assert!(!mac.is_broadcast());
    assert!(!mac.is_multicast());

    let broadcast = MacAddress::broadcast();
    assert!(broadcast.is_broadcast());

    let multicast = MacAddress::new([0x01, 0x00, 0x5e, 0x00, 0x00, 0x01]);
    assert!(multicast.is_multicast());
}

#[test]
fn test_ethertype() {
    assert_eq!(EtherType::from_u16(0x0800), Some(EtherType::IPv4));
    assert_eq!(EtherType::from_u16(0x0806), Some(EtherType::ARP));
    assert_eq!(EtherType::from_u16(0x86DD), Some(EtherType::IPv6));
    assert_eq!(EtherType::from_u16(0x1234), None);
}

#[test]
fn test_frame_parsing() {
    let frame_data = [
        0xff, 0xff, 0xff, 0xff, 0xff, 0xff, 0x00, 0x11, 0x22, 0x33, 0x44, 0x55, 0x08, 0x00, 0x45, 0x00,
    ];

    let result = EthernetParser::parse(&frame_data);
    assert!(result.is_ok());

    let (dst, src, ethertype, payload) = result.unwrap();
    assert!(dst.is_broadcast());
    assert_eq!(src.0, [0x00, 0x11, 0x22, 0x33, 0x44, 0x55]);
    assert_eq!(ethertype, EtherType::IPv4);
    assert_eq!(payload, &[0x45, 0x00]);
}

#[test]
fn ethernet_build_then_parse() {
    let dst = MacAddress::new([1, 2, 3, 4, 5, 6]);
    let src = MacAddress::new([6, 5, 4, 3, 2, 1]);
    let frame = EthernetParser::build(dst, src, EtherType::ARP, &[9, 8, 7]);
    assert_eq!(frame.len(), 17);
    assert_eq!(&frame[12..14], &[0x08, 0x06]);
    let (d, s, t, p) = EthernetParser::parse(&frame).unwrap();
    assert_eq!(d, dst);
    assert_eq!(s, src);
    assert_eq!(t, EtherType::ARP);
    assert_eq!(p, &[9, 8, 7]);
    assert!(EthernetParser::parse(&frame[..13]).is_err());
}

#[test]
fn test_ipv4_header_parsing() {
    let header_data = [
        0x45, 0x00, 0x00, 0x28, 0x00, 0x00, 0x40, 0x00, 0x40, 0x06, 0x00, 0x00, 192, 168, 1, 100, 192, 168, 1, 1,
    ];

    let result = Ipv4Parser::parse(&header_data);
    assert!(result.is_ok());

    let (header, _) = result.unwrap();
    assert_eq!(header.version(), 4);
    assert_eq!(header.header_length(), 20);
    assert_eq!(header.protocol, 6);
    assert_eq!(header.src_addr, [192, 168, 1, 100]);
    assert_eq!(header.dst_addr, [192, 168, 1, 1]);
}

#[test]
fn test_checksum_calculation() {
    let header = [
        0x45, 0x00, 0x00, 0x3c, 0x1c, 0x46, 0x40, 0x00, 0x40, 0x06, 0x00, 0x00, 0xac, 0x10, 0x0a, 0x63, 0xac, 0x10,
        0x0a, 0x0c,
    ];

    let checksum = Ipv4Parser::calculate_checksum(&header);
    assert_ne!(checksum, 0);
}

#[test]
fn ipv4_checksum_exact_value() {
    let header = [
        0x45, 0x00, 0x00, 0x3c, 0x1c, 0x46, 0x40, 0x00, 0x40, 0x06, 0x00, 0x00, 0xac, 0x10, 0x0a, 0x63, 0xac, 0x10,
        0x0a, 0x0c,
    ];
    assert_eq!(Ipv4Parser::calculate_checksum(&header), 0xB1E6);
}

#[test]
fn ipv4_build_then_parse() {
    let src = Ipv4Address::new(10, 0, 0, 1);
    let dst = Ipv4Address::new(10, 0, 0, 2);
    let packet = Ipv4Parser::build(src, dst, IpProtocol::UDP, &[1, 2, 3]);
    assert_eq!(packet.len(), 23);
    let (h, payload) = Ipv4Parser::parse(&packet).unwrap();
    assert_eq!(h.protocol, 17);
    assert_eq!(h.src_addr, [10, 0, 0, 1]);
    assert_eq!(h.dst_addr, [10, 0, 0, 2]);
    assert_eq!(payload, &[1, 2, 3]);
    assert_eq!(Ipv4Parser::calculate_checksum(&packet[..20]), 0);
}

#[test]
fn test_routing_table() {
    let mut table = RoutingTable::new();

    let default_route = RouteEntry {
        network: Ipv4Address::new(0, 0, 0, 0),
        netmask: Ipv4Address::new(0, 0, 0, 0),
        gateway: Some(Ipv4Address::new(192, 168, 1, 1)),
        interface_mac: MacAddress::new([0x00, 0x11, 0x22, 0x33, 0x44, 0x55]),
    };

    let local_route = RouteEntry {
        network: Ipv4Address::new(192, 168, 1, 0),
        netmask: Ipv4Address::new(255, 255, 255, 0),
        gateway: None,
        interface_mac: MacAddress::new([0x00, 0x11, 0x22, 0x33, 0x44, 0x55]),
    };

    table.add_route(default_route);
    table.add_route(local_route);

    let local_dst = Ipv4Address::new(192, 168, 1, 100);
    let route = table.lookup(&local_dst);
    assert!(route.is_some());
    assert_eq!(route.unwrap().netmask.0, [255, 255, 255, 0]);

    let remote_dst = Ipv4Address::new(8, 8, 8, 8);
    let route = table.lookup(&remote_dst);
    assert!(route.is_some());
}

#[test]
fn routing_table_without_match() {
    let mut table = RoutingTable::new();
    table.add_route(RouteEntry {
        network: Ipv4Address::new(10, 0, 0, 0),
        netmask: Ipv4Address::new(255, 0, 0, 0),
        gateway: None,
        interface_mac: MacAddress::new([0; 6]),
    });
    assert!(table.lookup(&Ipv4Address::new(11, 0, 0, 1)).is_none());
    assert!(table.lookup(&Ipv4Address::new(10, 9, 9, 9)).is_some());
    table.clear();
    assert!(table.lookup(&Ipv4Address::new(10, 9, 9, 9)).is_none());
}

#[test]
fn test_socket_addr() {
    let addr = SocketAddr::new(Ipv4Address::new(192, 168, 1, 1), 80);
    assert_eq!(addr.addr.0, [192, 168, 1, 1]);
    assert_eq!(addr.port, 80);
}

#[test]
fn test_tcp_socket() {
    let mut socket = TcpSocket::new();
    assert_eq!(socket.state, SocketState::Unbound);

    let local_addr = SocketAddr::new(Ipv4Address::new(192, 168, 1, 100), 1024);
    assert!(socket.bind(local_addr).is_ok());
    assert_eq!(socket.state, SocketState::Bound);

    assert!(socket.listen().is_ok());
    assert_eq!(socket.state, SocketState::Listening);
}

#[test]
fn tcp_socket_refuses_out_of_order_calls() {
    let mut socket = TcpSocket::new();
    assert!(socket.listen().is_err());
    let a = SocketAddr::new(Ipv4Address::new(1, 2, 3, 4), 5);
    socket.bind(a).unwrap();
    assert!(socket.bind(a).is_err());
    assert!(socket.send(&[1, 2]).is_err());
}

#[test]
fn socket_test_udp_socket() {
    let mut socket = UdpSocketWrapper::new();
    assert_eq!(socket.state, SocketState::Unbound);

    let local_addr = SocketAddr::new(Ipv4Address::new(192, 168, 1, 100), 1024);
    assert!(socket.bind(local_addr).is_ok());
    assert_eq!(socket.state, SocketState::Bound);
}

#[test]
fn test_socket_manager() {
    let mut manager = SocketManager::new();

    let tcp_fd = manager.socket(SocketDomain::Inet, SocketType::Stream, SocketProtocol::Tcp);
    assert!(tcp_fd.is_ok());
    assert_eq!(tcp_fd.unwrap(), 0);

    let udp_fd = manager.socket(SocketDomain::Inet, SocketType::Datagram, SocketProtocol::Udp);
    assert!(udp_fd.is_ok());
    assert_eq!(udp_fd.unwrap(), 1);

    assert!(manager.close(0).is_ok());
}

#[test]
fn socket_manager_close_unknown_fd_fails() {
    let mut manager = SocketManager::new();
    assert!(manager.close(3).is_err());
    assert!(manager.get_socket(0).is_none());
}

#[test]
fn test_tcp_parsing() {
    let tcp_data = [
        0x04, 0x00, 0x00, 0x50, 0x00, 0x00, 0x00, 0x01, 0x00, 0x00, 0x00, 0x00, 0x50, 0x02, 0x20, 0x00, 0x00, 0x00,
        0x00, 0x00,
    ];

    let result = TcpParser::parse(&tcp_data);
    assert!(result.is_ok());

    let (header, _) = result.unwrap();
    let src_port = header.src_port;
    let dst_port = header.dst_port;
    let seq_num = header.seq_num;

    assert_eq!(src_port, 1024);
    assert_eq!(dst_port, 80);
    assert_eq!(seq_num, 1);
    assert_eq!(header.data_offset(), 5);
    assert!(header.has_flag(tcp_flags::SYN));
}

#[test]
fn test_tcp_build() {
    let packet = TcpParser::build(1024, 80, 1000, 0, tcp_flags::SYN, 8192, &[]);

    assert_eq!(packet.len(), 20);
    assert_eq!(u16::from_be_bytes([packet[0], packet[1]]), 1024);
    assert_eq!(u16::from_be_bytes([packet[2], packet[3]]), 80);
    assert_eq!(u32::from_be_bytes([packet[4], packet[5], packet[6], packet[7]]), 1000);
}

#[test]
fn test_tcp_state_machine() {
    let local_addr = Ipv4Address::new(192, 168, 1, 100);
    let remote_addr = Ipv4Address::new(192, 168, 1, 1);
    let mut conn = TcpConnection::new(local_addr, 1024, remote_addr, 80);

    assert_eq!(conn.state, TcpState::Closed);

    conn.connect();
    assert_eq!(conn.state, TcpState::SynSent);

    let syn_ack = TcpHeader {
        src_port: 80,
        dst_port: 1024,
        seq_num: 2000,
        ack_num: 1001,
        data_offset_flags: (5u16 << 12) | (tcp_flags::SYN | tcp_flags::ACK) as u16,
        window_size: 8192,
        checksum: 0,
        urgent_ptr: 0,
    };

    conn.handle_packet(&syn_ack, &[]);
    assert_eq!(conn.state, TcpState::Established);
}

#[test]
fn tcp_close_from_established_goes_to_fin_wait() {
    let mut conn = TcpConnection::new(Ipv4Address::new(1, 1, 1, 1), 1, Ipv4Address::new(2, 2, 2, 2), 2);
    conn.connect();
    let syn_ack = TcpHeader {
        src_port: 2,
        dst_port: 1,
        seq_num: 7,
        ack_num: 1,
        data_offset_flags: (5u16 << 12) | (tcp_flags::SYN | tcp_flags::ACK) as u16,
        window_size: 100,
        checksum: 0,
        urgent_ptr: 0,
    };
    conn.handle_packet(&syn_ack, &[]);
    conn.close();
    assert_eq!(conn.state, TcpState::FinWait1);
}

#[test]
fn test_udp_parsing() {
    let udp_data = [0x04, 0x00, 0x00, 0x35, 0x00, 0x10, 0x00, 0x00, 0x01, 0x02, 0x03, 0x04, 0x05, 0x06, 0x07, 0x08];

    let result = UdpParser::parse(&udp_data);
    assert!(result.is_ok());

    let (header, payload) = result.unwrap();
    let src_port = header.src_port;
    let dst_port = header.dst_port;
    let length = header.length;

    assert_eq!(src_port, 1024);
    assert_eq!(dst_port, 53);
    assert_eq!(length, 16);
    assert_eq!(payload.len(), 8);
}

#[test]
fn test_udp_build() {
    let payload = [0x01, 0x02, 0x03, 0x04];
    let packet = UdpParser::build(1024, 53, &payload);

    assert_eq!(packet.len(), 12);
    assert_eq!(u16::from_be_bytes([packet[0], packet[1]]), 1024);
    assert_eq!(u16::from_be_bytes([packet[2], packet[3]]), 53);
    assert_eq!(u16::from_be_bytes([packet[4], packet[5]]), 12);
    assert_eq!(&packet[8..], &payload);
}

#[test]
fn udp_test_udp_socket() {
    let local_addr = Ipv4Address::new(192, 168, 1, 100);
    let mut socket = UdpSocket::new(local_addr, 1024);

    assert_eq!(socket.local_addr, local_addr);
    assert_eq!(socket.local_port, 1024);
    assert!(socket.remote_addr.is_none());

    let remote_addr = Ipv4Address::new(192, 168, 1, 1);
    socket.connect(remote_addr, 53);

    assert_eq!(socket.remote_addr, Some(remote_addr));
    assert_eq!(socket.remote_port, Some(53));
}

#[test]
fn test_e1000_probe() {
    let result = fanga::net::drivers::e1000::E1000Driver::probe();
    assert!(result.is_err());
}

#[test]
fn test_register_offsets() {
    assert_eq!(registers::CTRL, 0x0000);
    assert_eq!(registers::STATUS, 0x0008);
    assert_eq!(registers::RCTL, 0x0100);
    assert_eq!(registers::TCTL, 0x0400);
}

#[test]
fn control_bits_match_bit_positions() {
    assert_eq!(ctrl_bits::RST, 1 << 26);
    assert_eq!(ctrl_bits::SLU, 1 << 6);
    assert_eq!(rctl_bits::BAM, 1 << 15);
    assert_eq!(rctl_bits::SECRC, 1 << 26);
    assert_eq!(tctl_bits::PSP, 1 << 3);
}

#[test]
fn network_stack_init_fails_without_card() {
    let mut stack = fanga::net::NetworkStack::new();
    assert_eq!(stack.init(), Err("E1000 device not found or PCI scanning not implemented"));
}

#[test]
fn tcp_socket_second_listen_leaves_socket_unchanged() {
    let mut socket = TcpSocket::new();
    let a = SocketAddr::new(Ipv4Address::new(192, 168, 1, 100), 1024);
    socket.bind(a).unwrap();
    socket.listen().unwrap();
    assert_eq!(socket.listen(), Err("Socket must be bound before listening"));
    assert_eq!(socket.state, SocketState::Listening);
    assert!(socket.local_addr.is_some());
    assert!(socket.remote_addr.is_none());
    assert!(socket.connection.is_none());
}
