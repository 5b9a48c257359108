//! Network stack: Ethernet, ARP, IPv4, UDP, TCP, sockets and DHCP, and
//! the network device drivers.

use vstd::prelude::*;

pub mod bytes;
pub mod ethernet;
pub mod arp;
pub mod ipv4;
pub mod udp;
pub mod tcp_flags;
pub mod tcp;
pub mod socket;
pub mod dhcp_options;
pub mod dhcp;
pub mod drivers;

verus! {

/// The network stack: the interface, if a card was found, the ARP cache,
/// the routing table and the open sockets.
pub struct NetworkStack {
    interface: Option<drivers::NetworkInterface>,
    arp_cache: arp::ArpCache,
    routing_table: ipv4::RoutingTable,
    sockets: Vec<socket::Socket>,
}

impl NetworkStack {
    /// Whether a network card is attached.
    pub closed spec fn has_interface(&self) -> bool {
        self.interface is Some
    }

    /// The ARP cache.
    pub closed spec fn arp_entries(&self) -> Map<u32, ethernet::MacAddress> {
        self.arp_cache@
    }

    /// The routes.
    pub closed spec fn routes(&self) -> Seq<ipv4::RouteEntry> {
        self.routing_table@
    }

    /// The number of open sockets.
    pub closed spec fn socket_count(&self) -> nat {
        self.sockets@.len()
    }

    /// A stack without interface, cache entries, routes or sockets.
    pub fn new() -> (r: Self)
        ensures
            !r.has_interface(),
            r.arp_entries() == Map::<u32, ethernet::MacAddress>::empty(),
            r.routes() == Seq::<ipv4::RouteEntry>::empty(),
            r.socket_count() == 0,
    {
        NetworkStack {
            interface: None,
            arp_cache: arp::ArpCache::new(),
            routing_table: ipv4::RoutingTable::new(),
            sockets: Vec::new(),
        }
    }

    /// Attaches the network card the driver probe finds, or passes on the
    /// probe's error; no card is ever found, so this always fails and
    /// leaves the stack as it was.
    pub fn init(&mut self) -> (r: Result<(), &'static str>)
        ensures
            r matches Err(e) && e == "E1000 device not found or PCI scanning not implemented",
            final(self).has_interface() == old(self).has_interface(),
            final(self).arp_entries() == old(self).arp_entries(),
            final(self).routes() == old(self).routes(),
            final(self).socket_count() == old(self).socket_count(),
    {
        match drivers::e1000::E1000Driver::probe() {
            Ok(driver) => {
                self.interface = Some(drivers::NetworkInterface::E1000(driver));
                Ok(())
            },
            Err(e) => Err(e),
        }
    }
}

} // verus!
