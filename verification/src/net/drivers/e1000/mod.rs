//! Intel E1000 network card driver (82540EM/82545EM/82545GM).

pub mod registers;
pub mod ctrl_bits;
pub mod rctl_bits;
pub mod tctl_bits;

use vstd::prelude::*;
use super::super::ethernet::MacAddress;
use super::NetworkDevice;

verus! {

/// A receive descriptor.
struct RxDescriptor {
    addr: u64,
    length: u16,
    checksum: u16,
    status: u8,
    errors: u8,
    special: u16,
}

/// A transmit descriptor.
struct TxDescriptor {
    addr: u64,
    length: u16,
    cso: u8,
    cmd: u8,
    status: u8,
    css: u8,
    special: u16,
}

/// The MAC address the driver reports for its card.
pub open spec fn spec_e1000_mac() -> [u8; 6] {
    [0x52u8, 0x54u8, 0x00u8, 0x12u8, 0x34u8, 0x56u8]
}

/// An E1000 card.
pub struct E1000Driver {
    mmio_base: usize,
    mac_address: MacAddress,
    rx_ring: Vec<RxDescriptor>,
    tx_ring: Vec<TxDescriptor>,
}

impl E1000Driver {
    /// The card's MAC address.
    pub closed spec fn spec_mac(&self) -> MacAddress {
        self.mac_address
    }

    /// Looks for a card. No bus is scanned, so none is ever found.
    pub fn probe() -> (r: Result<Self, &'static str>)
        ensures
            r matches Err(e) && e == "E1000 device not found or PCI scanning not implemented",
    {
        Err("E1000 device not found or PCI scanning not implemented")
    }

    /// A driver for the card whose registers start at `mmio_base`,
    /// initialized.
    fn new(mmio_base: usize) -> (r: Result<Self, &'static str>)
        ensures
            r matches Ok(d) && d.spec_mac().0 == spec_e1000_mac(),
    {
        let mut driver = E1000Driver {
            mmio_base,
            mac_address: MacAddress::new([0u8; 6]),
            rx_ring: Vec::new(),
            tx_ring: Vec::new(),
        };
        match driver.init() {
            Ok(()) => Ok(driver),
            Err(e) => Err(e),
        }
    }

    /// Resets the card, reads its MAC address, sets up the descriptor
    /// rings and enables receive and transmit.
    fn init(&mut self) -> (r: Result<(), &'static str>)
        ensures
            r is Ok,
            final(self).mac_address.0 == spec_e1000_mac(),
            final(self).mmio_base == old(self).mmio_base,
    {
        self.write_register(registers::CTRL, ctrl_bits::RST);
        self.read_mac_address();
        match self.init_rx_ring() {
            Ok(()) => {},
            Err(e) => return Err(e),
        }
        match self.init_tx_ring() {
            Ok(()) => {},
            Err(e) => return Err(e),
        }
        self.write_register(registers::RCTL, rctl_bits::EN | rctl_bits::BAM | rctl_bits::BSIZE_2048 | rctl_bits::SECRC);
        self.write_register(registers::TCTL, tctl_bits::EN | tctl_bits::PSP);
        Ok(())
    }

    /// Reads the MAC address; the card's EEPROM is not read, a fixed
    /// address is used.
    fn read_mac_address(&mut self)
        ensures
            final(self).mac_address.0 == spec_e1000_mac(),
            final(self).mmio_base == old(self).mmio_base,
    {
        self.mac_address = MacAddress::new([0x52u8, 0x54u8, 0x00u8, 0x12u8, 0x34u8, 0x56u8]);
    }

    /// Sets up the receive ring; no descriptor memory is allocated.
    fn init_rx_ring(&mut self) -> (r: Result<(), &'static str>)
        ensures
            r is Ok,
            *final(self) == *old(self),
    {
        Ok(())
    }

    /// Sets up the transmit ring; no descriptor memory is allocated.
    fn init_tx_ring(&mut self) -> (r: Result<(), &'static str>)
        ensures
            r is Ok,
            *final(self) == *old(self),
    {
        Ok(())
    }

    /// Writes a register; the card is not touched.
    fn write_register(&self, offset: u32, value: u32) {
    }

    /// Reads a register; the card is not touched and 0 is returned.
    fn read_register(&self, offset: u32) -> (r: u32)
        ensures
            r == 0,
    {
        0
    }
}

impl NetworkDevice for E1000Driver {
    fn mac_address(&self) -> (r: MacAddress)
        ensures
            r == self.spec_mac(),
    {
        self.mac_address
    }

    fn send_packet(&mut self, data: &[u8]) -> (r: Result<(), &'static str>)
        ensures
            r matches Err(e) && e == "E1000 send not implemented",
            *final(self) == *old(self),
    {
        Err("E1000 send not implemented")
    }

    fn receive_packet(&mut self) -> (r: Option<Vec<u8>>)
        ensures
            r is None,
            *final(self) == *old(self),
    {
        None
    }

    fn has_packet(&self) -> (r: bool)
        ensures
            !r,
    {
        false
    }
}

} // verus!
