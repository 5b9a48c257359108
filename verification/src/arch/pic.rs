//! The legacy 8259 PIC pair: which chip an IRQ belongs to and the mask
//! values that disable or enable it.

use vstd::prelude::*;

verus! {

/// Command port of the first PIC.
pub const PIC1_COMMAND: u16 = 0x20;
/// Data port of the first PIC.
pub const PIC1_DATA: u16 = 0x21;
/// Command port of the second PIC.
pub const PIC2_COMMAND: u16 = 0xA0;
/// Data port of the second PIC.
pub const PIC2_DATA: u16 = 0xA1;
/// The end-of-interrupt command.
pub const PIC_EOI: u8 = 0x20;

/// The data port of the chip an IRQ belongs to.
pub fn data_port(irq: u8) -> (r: u16)
    ensures
        r == (if irq < 8 { PIC1_DATA } else { PIC2_DATA }),
{
    if irq < 8 {
        PIC1_DATA
    } else {
        PIC2_DATA
    }
}

/// The IRQ's bit in its chip's mask.
pub open spec fn spec_irq_bit(irq: u8) -> u8 {
    if irq % 8 == 0 {
        1u8
    } else if irq % 8 == 1 {
        2u8
    } else if irq % 8 == 2 {
        4u8
    } else if irq % 8 == 3 {
        8u8
    } else if irq % 8 == 4 {
        16u8
    } else if irq % 8 == 5 {
        32u8
    } else if irq % 8 == 6 {
        64u8
    } else {
        128u8
    }
}

/// The mask with the IRQ's bit set (IRQ disabled).
pub fn masked(current: u8, irq: u8) -> (r: u8)
    ensures
        r == current | spec_irq_bit(irq),
{
    let bit: u8 = 1u8 << (irq % 8);
    assert(bit == spec_irq_bit(irq)) by (bit_vector)
        requires
            bit == 1u8 << (irq % 8),
    ;
    current | bit
}

/// The mask with the IRQ's bit cleared (IRQ enabled).
pub fn unmasked(current: u8, irq: u8) -> (r: u8)
    ensures
        r == current & !spec_irq_bit(irq),
{
    let bit: u8 = 1u8 << (irq % 8);
    assert(bit == spec_irq_bit(irq)) by (bit_vector)
        requires
            bit == 1u8 << (irq % 8),
    ;
    current & !bit
}

/// Whether an end-of-interrupt also goes to the second chip.
pub fn eoi_needs_secondary(irq: u8) -> (r: bool)
    ensures
        r == (irq >= 8),
{
    irq >= 8
}

/// Masking and then unmasking an IRQ leaves the other IRQs' bits as they
/// were and the IRQ enabled.
pub proof fn lemma_mask_unmask(current: u8, irq: u8)
    ensures
        (current | spec_irq_bit(irq)) & !spec_irq_bit(irq) == current & !spec_irq_bit(irq),
{
    let b = spec_irq_bit(irq);
    assert((current | b) & !b == current & !b) by (bit_vector);
}

} // verus!
