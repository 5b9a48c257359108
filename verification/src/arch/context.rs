//! The saved CPU state of a task, in the layout the context switch code
//! reads and writes.

use vstd::prelude::*;

verus! {

/// The kernel code segment selector.
pub const KERNEL_CODE_SELECTOR: u64 = 0x08;

/// The kernel data segment selector.
pub const KERNEL_DATA_SELECTOR: u64 = 0x10;

/// RFLAGS with only the interrupt flag (and the always-set bit 1) set.
pub const RFLAGS_IF: u64 = 0x202;

/// The registers of a task.
#[derive(Debug, Clone, Copy, PartialEq, Eq, Structural)]
pub struct TaskContext {
    pub rax: u64,
    pub rbx: u64,
    pub rcx: u64,
    pub rdx: u64,
    pub rsi: u64,
    pub rdi: u64,
    pub rbp: u64,
    pub r8: u64,
    pub r9: u64,
    pub r10: u64,
    pub r11: u64,
    pub r12: u64,
    pub r13: u64,
    pub r14: u64,
    pub r15: u64,
    pub rip: u64,
    pub rsp: u64,
    pub rflags: u64,
    pub cs: u64,
    pub ss: u64,
}

impl TaskContext {
    /// All registers zero but the flags (interrupts on) and the kernel
    /// code and data segments.
    pub fn new() -> (r: Self)
        ensures
            r == (TaskContext {
                rax: 0,
                rbx: 0,
                rcx: 0,
                rdx: 0,
                rsi: 0,
                rdi: 0,
                rbp: 0,
                r8: 0,
                r9: 0,
                r10: 0,
                r11: 0,
                r12: 0,
                r13: 0,
                r14: 0,
                r15: 0,
                rip: 0,
                rsp: 0,
                rflags: RFLAGS_IF,
                cs: KERNEL_CODE_SELECTOR,
                ss: KERNEL_DATA_SELECTOR,
            }),
    {
        TaskContext {
            rax: 0,
            rbx: 0,
            rcx: 0,
            rdx: 0,
            rsi: 0,
            rdi: 0,
            rbp: 0,
            r8: 0,
            r9: 0,
            r10: 0,
            r11: 0,
            r12: 0,
            r13: 0,
            r14: 0,
            r15: 0,
            rip: 0,
            rsp: 0,
            rflags: RFLAGS_IF,
            cs: KERNEL_CODE_SELECTOR,
            ss: KERNEL_DATA_SELECTOR,
        }
    }

    /// Prepares the context to start a task at `entry_point` on the stack
    /// at `stack_pointer`, in kernel mode with interrupts on; the general
    /// registers are kept.
    pub fn init(&mut self, entry_point: u64, stack_pointer: u64)
        ensures
            *final(self) == (TaskContext {
                rip: entry_point,
                rsp: stack_pointer,
                rflags: RFLAGS_IF,
                cs: KERNEL_CODE_SELECTOR,
                ss: KERNEL_DATA_SELECTOR,
                ..*old(self)
            }),
    {
        self.rip = entry_point;
        self.rsp = stack_pointer;
        self.rflags = RFLAGS_IF;
        self.cs = KERNEL_CODE_SELECTOR;
        self.ss = KERNEL_DATA_SELECTOR;
    }
}

} // verus!
