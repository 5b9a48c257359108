//! Interrupt Descriptor Table entries, the vector numbers the kernel uses
//! and the frame the CPU pushes on an interrupt.

use vstd::prelude::*;
use super::gdt::KERNEL_CODE_SELECTOR;

verus! {

/// Number of IDT entries.
pub const IDT_LEN: usize = 256;

/// Breakpoint vector.
pub const VEC_BREAKPOINT: u8 = 3;
/// Double fault vector.
pub const VEC_DOUBLE_FAULT: u8 = 8;
/// General protection fault vector.
pub const VEC_GENERAL_PROTECTION: u8 = 13;
/// Page fault vector.
pub const VEC_PAGE_FAULT: u8 = 14;

/// Vector of IRQ 0 (IRQs 0-7 use 32-39).
pub const PIC1_OFFSET: u8 = 32;
/// Vector of IRQ 8 (IRQs 8-15 use 40-47).
pub const PIC2_OFFSET: u8 = 40;

/// Timer IRQ.
pub const IRQ_TIMER: u8 = 0;
/// Keyboard IRQ.
pub const IRQ_KEYBOARD: u8 = 1;

/// Present, privilege 0, 64-bit interrupt gate.
pub const INTERRUPT_GATE: u8 = 0x8E;

/// A gate: handler offset bits 0-15, selector, IST slot, type and
/// attributes, offset bits 16-31, offset bits 32-63, reserved.
pub type IdtEntryView = (u16, u16, u8, u8, u16, u32, u32);

/// An IDT gate.
#[derive(Clone, Copy)]
pub struct IdtEntry {
    offset_low: u16,
    selector: u16,
    ist: u8,
    type_attr: u8,
    offset_mid: u16,
    offset_high: u32,
    zero: u32,
}

impl View for IdtEntry {
    type V = IdtEntryView;

    closed spec fn view(&self) -> IdtEntryView {
        (self.offset_low, self.selector, self.ist, self.type_attr, self.offset_mid, self.offset_high, self.zero)
    }
}

/// An interrupt gate for `handler` with stack slot `ist`.
pub open spec fn spec_gate(handler: u64, ist: u8) -> IdtEntryView {
    (
        (handler % 0x10000) as u16,
        KERNEL_CODE_SELECTOR,
        ist,
        INTERRUPT_GATE,
        ((handler / 0x10000) % 0x10000) as u16,
        (handler / 0x100000000) as u32,
        0u32,
    )
}

/// The handler address a gate holds.
pub open spec fn spec_gate_address(e: IdtEntryView) -> int {
    e.0 + e.4 * 0x10000 + e.5 * 0x100000000
}

impl IdtEntry {
    /// The parts of this entry, as its view gives them.
    pub fn fields(&self) -> (r: IdtEntryView)
        ensures
            r == self@,
    {
        (self.offset_low, self.selector, self.ist, self.type_attr, self.offset_mid, self.offset_high, self.zero)
    }

    /// A gate without handler.
    pub fn missing() -> (r: Self)
        ensures
            r@ == (0u16, 0u16, 0u8, 0u8, 0u16, 0u32, 0u32),
    {
        IdtEntry { offset_low: 0, selector: 0, ist: 0, type_attr: 0, offset_mid: 0, offset_high: 0, zero: 0 }
    }

    /// Installs a handler on the current stack.
    pub fn set_handler(&mut self, handler: u64)
        ensures
            final(self)@ == spec_gate(handler, 0),
    {
        self.set_handler_with_ist(handler, 0);
    }

    /// Installs a handler that runs on interrupt stack `ist`.
    pub fn set_handler_with_ist(&mut self, handler: u64, ist: u8)
        ensures
            final(self)@ == spec_gate(handler, ist),
    {
        let lo = handler as u16;
        let mid = (handler >> 16) as u16;
        let hi = (handler >> 32) as u32;
        assert(lo == handler % 0x10000 && mid == (handler / 0x10000) % 0x10000 && hi == handler / 0x100000000)
            by (bit_vector)
            requires
                lo == handler as u16,
                mid == (handler >> 16) as u16,
                hi == (handler >> 32) as u32,
        ;
        self.offset_low = lo;
        self.offset_mid = mid;
        self.offset_high = hi;
        self.selector = KERNEL_CODE_SELECTOR;
        self.ist = ist;
        self.type_attr = INTERRUPT_GATE;
        self.zero = 0;
    }
}

/// A gate gives back the handler address it was set to.
pub proof fn lemma_gate_address(handler: u64, ist: u8)
    ensures
        spec_gate_address(spec_gate(handler, ist)) == handler,
{
    let h = handler as int;
    let lo = h % 0x10000;
    let mid = (h / 0x10000) % 0x10000;
    let hi = h / 0x100000000;
    assert(h == lo + mid * 0x10000 + hi * 0x100000000) by (nonlinear_arith)
        requires
            0 <= h,
            lo == h % 0x10000,
            mid == (h / 0x10000) % 0x10000,
            hi == h / 0x100000000,
    ;
}

/// The operand of `lidt`: table size minus one and address.
pub struct Idtr {
    limit: u16,
    base: u64,
}

impl Idtr {
    /// The limit and base.
    pub closed spec fn spec_fields(&self) -> (u16, u64) {
        (self.limit, self.base)
    }

    /// The limit: the table's size less one.
    pub fn limit(&self) -> (r: u16)
        ensures
            r == self.spec_fields().0,
    {
        self.limit
    }

    /// The table's address.
    pub fn base(&self) -> (r: u64)
        ensures
            r == self.spec_fields().1,
    {
        self.base
    }

    /// The operand for a table of `size` bytes at `base`.
    pub fn for_table(size: u16, base: u64) -> (r: Self)
        requires
            size > 0,
        ensures
            r.spec_fields() == ((size - 1) as u16, base),
    {
        Idtr { limit: size - 1, base }
    }
}

/// What the CPU pushes when it takes an interrupt.
#[derive(Debug, Clone, Copy)]
pub struct InterruptStackFrame {
    pub rip: u64,
    pub cs: u64,
    pub rflags: u64,
    pub rsp: u64,
    pub ss: u64,
}

/// The vector an IRQ arrives on.
pub fn irq_vector(irq: u8) -> (r: u8)
    requires
        irq < 16,
    ensures
        r == PIC1_OFFSET + irq,
{
    PIC1_OFFSET + irq
}

} // verus!
