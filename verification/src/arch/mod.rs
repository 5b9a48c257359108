//! x86_64 architecture support: keyboard and mouse input, keyboard
//! layouts, timer, interrupt tables, segment descriptors, task context
//! and the system call interface.

pub mod keyboard;
pub mod keyboard_layout;
pub mod pit;
pub mod context;
pub mod mouse;
pub mod gdt;
pub mod idt;
pub mod syscall;
pub mod apic;
pub mod handlers;
pub mod pic;
