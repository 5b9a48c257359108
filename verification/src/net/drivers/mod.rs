//! Network card drivers and the interface that dispatches to them.

pub mod e1000;

use vstd::prelude::*;
use super::ethernet::MacAddress;

verus! {

/// A network card.
pub trait NetworkDevice {
    /// The card's MAC address.
    fn mac_address(&self) -> MacAddress;

    /// Sends a packet.
    fn send_packet(&mut self, data: &[u8]) -> Result<(), &'static str>;

    /// Takes a received packet, if one is waiting.
    fn receive_packet(&mut self) -> Option<Vec<u8>>;

    /// Whether a received packet is waiting.
    fn has_packet(&self) -> bool;
}

/// The network interface: one of the supported cards.
pub enum NetworkInterface {
    /// An E1000 card.
    E1000(e1000::E1000Driver),
}

impl NetworkInterface {
    /// The card's MAC address.
    pub fn mac_address(&self) -> (r: MacAddress)
        ensures
            match self {
                NetworkInterface::E1000(d) => r == d.spec_mac(),
            },
    {
        match self {
            NetworkInterface::E1000(driver) => driver.mac_address(),
        }
    }

    /// Sends a packet through the card.
    pub fn send_packet(&mut self, data: &[u8]) -> (r: Result<(), &'static str>)
        ensures
            match *old(self) {
                NetworkInterface::E1000(_) => r matches Err(e) && e == "E1000 send not implemented",
            },
            *final(self) == *old(self),
    {
        match self {
            NetworkInterface::E1000(driver) => driver.send_packet(data),
        }
    }

    /// Takes a received packet from the card.
    pub fn receive_packet(&mut self) -> (r: Option<Vec<u8>>)
        ensures
            match *old(self) {
                NetworkInterface::E1000(_) => r is None,
            },
            *final(self) == *old(self),
    {
        match self {
            NetworkInterface::E1000(driver) => driver.receive_packet(),
        }
    }

    /// Whether the card holds a received packet.
    pub fn has_packet(&self) -> (r: bool)
        ensures
            match self {
                NetworkInterface::E1000(_) => !r,
            },
    {
        match self {
            NetworkInterface::E1000(driver) => driver.has_packet(),
        }
    }
}

} // verus!
