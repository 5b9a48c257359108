use fanga::arch::apic::{cpuid_has_apic, eoi_goes_to_apic, Apic};
use fanga::arch::context::TaskContext;
use fanga::arch::gdt::{standard_entries, GdtEntry, Tss, TssEntry, TSS_SIZE};
use fanga::arch::handlers::{irq_vector, HandlerRegistry};
use fanga::arch::idt::IdtEntry;
use fanga::arch::keyboard::{KeyCode, KeyEvent, Keyboard};
use fanga::arch::keyboard_layout::{DeLayout, FrLayout, KeyboardLayout, LayoutManager, LayoutType, UkLayout, UsLayout};
use fanga::arch::mouse::{check_ack, Mouse};
use fanga::arch::pic::{masked, unmasked};
use fanga::arch::pit::{calculate_divisor, counter_from_bytes, get_frequency, programming_bytes, PIT_BASE_FREQ};
use fanga::arch::syscall::{
    dispatch, star_value, sys_kill, sys_lseek, sys_mmap, sys_munmap, sys_pipe, sys_read, sys_shmget, sys_write,
    SyscallAction, EBADF, EFAULT, EINVAL, ENOMEM, ENOSYS, EPERM, ESRCH, SYS_EXEC, SYS_EXIT, SYS_FORK, SYS_KILL,
    SYS_MSGGET, SYS_MSGRCV, SYS_MSGSND, SYS_PIPE, SYS_READ, SYS_SHMAT, SYS_SHMCTL, SYS_SHMDT, SYS_SHMGET, SYS_WRITE,
    SYS_CLOSE, SYS_GETDENTS, SYS_LSEEK, SYS_MKDIR, SYS_MMAP, SYS_OPEN, SYS_RMDIR, SYS_UNLINK,
};

#[test]
fn test_context_creation() {
    let ctx = TaskContext::new();
    assert_eq!(ctx.rip, 0);
    assert_eq!(ctx.rsp, 0);
    assert_eq!(ctx.rflags, 0x202);
    assert_eq!(ctx.cs, 0x08);
    assert_eq!(ctx.ss, 0x10);
}

#[test]
fn test_context_init() {
    let mut ctx = TaskContext::new();
    ctx.init(0x1000, 0x2000);
    assert_eq!(ctx.rip, 0x1000);
    assert_eq!(ctx.rsp, 0x2000);
}

#[test]
fn test_calculate_divisor() {
    assert_eq!(calculate_divisor(100), 11931);
    assert_eq!(calculate_divisor(1000), 1193);
    assert_eq!(calculate_divisor(18), 65535);
    assert_eq!(calculate_divisor(0), 1);
    assert_eq!(calculate_divisor(PIT_BASE_FREQ), 1);
    assert_eq!(calculate_divisor(1), 65535);
}

#[test]
fn test_get_frequency() {
    assert_eq!(get_frequency(11931), 100);
    assert_eq!(get_frequency(1193), 1000);
    assert_eq!(get_frequency(1), PIT_BASE_FREQ);
    assert_eq!(get_frequency(0), PIT_BASE_FREQ);
}

#[test]
fn test_round_trip() {
    for freq in [50u32, 100, 500, 1000, 10000] {
        let divisor = calculate_divisor(freq);
        let actual_freq = get_frequency(divisor);
        let error = if freq > actual_freq { freq - actual_freq } else { actual_freq - freq };
        let max_error = core::cmp::max(1, freq / 20);
        assert!(
            error <= max_error,
            "Frequency {} Hz -> divisor {} -> {} Hz (error: {} Hz)",
            freq,
            divisor,
            actual_freq,
            error
        );
    }
}

#[test]
fn pit_programming_bytes_split_divisor() {
    assert_eq!(programming_bytes(100), [0x36, (11931 % 256) as u8, (11931 / 256) as u8]);
    assert_eq!(counter_from_bytes(0x34, 0x12), 0x1234);
}

#[test]
fn test_us_layout() {
    let layout = UsLayout;
    assert_eq!(layout.name(), "US");
    assert_eq!(layout.to_char(KeyCode::Char('a'), false, false), Some('a'));
    assert_eq!(layout.to_char(KeyCode::Char('a'), true, false), Some('A'));
    assert_eq!(layout.to_char(KeyCode::Char('1'), false, false), Some('1'));
    assert_eq!(layout.to_char(KeyCode::Char('1'), true, false), Some('!'));
}

#[test]
fn test_uk_layout() {
    let layout = UkLayout;
    assert_eq!(layout.name(), "UK");
    assert_eq!(layout.to_char(KeyCode::Char('a'), false, false), Some('a'));
    assert_eq!(layout.to_char(KeyCode::Char('a'), true, false), Some('A'));
}

#[test]
fn test_layout_manager() {
    let mut mgr = LayoutManager::new();
    assert_eq!(mgr.current_layout(), LayoutType::Us);

    mgr.set_layout(LayoutType::Uk);
    assert_eq!(mgr.current_layout(), LayoutType::Uk);
    assert_eq!(mgr.current_layout_name(), "UK");

    let result = mgr.to_char(KeyCode::Char('a'), false, false);
    assert_eq!(result, Some('a'));
}

#[test]
fn other_layouts_map_key_positions() {
    assert_eq!(DeLayout.to_char(KeyCode::Char('y'), false, false), Some('z'));
    assert_eq!(DeLayout.to_char(KeyCode::Char('3'), true, false), Some('\u{a7}'));
    assert_eq!(FrLayout.to_char(KeyCode::Char('q'), false, false), Some('a'));
    assert_eq!(FrLayout.to_char(KeyCode::Char('2'), true, false), Some('\u{e9}'));
    assert_eq!(UkLayout.to_char(KeyCode::Char('3'), true, false), Some('\u{a3}'));
    assert_eq!(UsLayout.to_char(KeyCode::Char('a'), false, true), Some('A'));
    assert_eq!(UsLayout.to_char(KeyCode::Char('a'), true, true), Some('a'));
    assert_eq!(UsLayout.to_char(KeyCode::Enter, false, false), Some('\n'));
    assert_eq!(UsLayout.to_char(KeyCode::F1, false, false), None);
}

#[test]
fn keyboard_scancodes_and_modifiers() {
    let mut kbd = Keyboard::new();
    assert_eq!(kbd.process_scancode(0x1E), Some(KeyEvent::Press(KeyCode::Char('a'))));
    assert_eq!(kbd.process_scancode(0x2A), Some(KeyEvent::Press(KeyCode::LeftShift)));
    assert!(kbd.is_shift_pressed());
    assert_eq!(kbd.to_ascii(KeyCode::Char('a')), Some('A'));
    assert_eq!(kbd.process_scancode(0xAA), Some(KeyEvent::Release(KeyCode::LeftShift)));
    assert!(!kbd.is_shift_pressed());
    assert_eq!(kbd.process_scancode(0xE0), None);
    assert_eq!(kbd.process_scancode(0x48), Some(KeyEvent::Press(KeyCode::Up)));
    assert_eq!(kbd.process_scancode(0x3A), Some(KeyEvent::Press(KeyCode::CapsLock)));
    assert!(kbd.is_caps_lock());
    assert_eq!(kbd.to_ascii(KeyCode::Char('b')), Some('B'));
    assert_eq!(kbd.to_ascii(KeyCode::Char('1')), Some('1'));
    assert_eq!(kbd.to_ascii(KeyCode::Backspace), Some('\x08'));
}

#[test]
fn keyboard_shift_gives_symbols() {
    let mut kbd = Keyboard::new();
    kbd.process_scancode(0x2A);
    assert_eq!(kbd.to_ascii(KeyCode::Char('1')), Some('!'));
    assert_eq!(kbd.to_ascii(KeyCode::Char('/')), Some('?'));
    assert_eq!(kbd.to_ascii(KeyCode::Char('a')), Some('A'));
    kbd.process_scancode(0x3A);
    assert_eq!(kbd.to_ascii(KeyCode::Char('a')), Some('a'));
    assert_eq!(kbd.to_ascii(KeyCode::Char('1')), Some('!'));
}

#[test]
fn mouse_assembles_three_byte_packets() {
    let mut mouse = Mouse::new();
    assert!(mouse.process_byte(0x00).is_none());
    assert!(mouse.process_byte(0x09).is_none());
    assert!(mouse.process_byte(0x05).is_none());
    let p = mouse.process_byte(0x03).unwrap();
    assert!(p.buttons.left);
    assert!(!p.buttons.right);
    assert_eq!(p.x_movement, 5);
    assert_eq!(p.y_movement, -3);
    assert_eq!(mouse.position(), (5, -3));
    assert_eq!(mouse.take_movement(), (5, -3, 0));
    assert_eq!(mouse.take_movement(), (0, 0, 0));
    // Negative horizontal movement (sign bit 4).
    mouse.process_byte(0x18);
    mouse.process_byte(0xFE);
    let q = mouse.process_byte(0x00).unwrap();
    assert_eq!(q.x_movement, -2);
    assert_eq!(q.y_movement, 0);
    assert_eq!(check_ack(0xFA), Ok(()));
    assert!(check_ack(0x00).is_err());
}

#[test]
fn gdt_and_tss_descriptors() {
    let entries = standard_entries();
    assert_eq!(entries.len(), 5);
    let _ = GdtEntry::null();
    let _ = TssEntry::new(0xFFFF_8000_1234_5678, 103);
    assert_eq!(Tss::new().iomap_base, TSS_SIZE);
}

#[test]
fn idt_entry_and_irq_vectors() {
    let mut e = IdtEntry::missing();
    e.set_handler_with_ist(0xFFFF_8000_0000_1234, 1);
    e.set_handler(0x1234);
    assert_eq!(irq_vector(1), Ok(33));
    assert_eq!(irq_vector(9), Ok(41));
    assert!(irq_vector(16).is_err());
}

#[test]
fn handler_registry_limits_and_removal() {
    let mut reg = HandlerRegistry::new();
    for h in 1..=4u64 {
        assert!(reg.register(32, h).is_ok());
    }
    assert_eq!(reg.register(32, 5), Err("Maximum number of handlers reached for this vector"));
    assert_eq!(reg.handler_count(32), 4);
    assert!(reg.unregister(32, 2).is_ok());
    assert_eq!(reg.handlers(32), vec![1, 3, 4]);
    assert_eq!(reg.unregister(32, 2), Err("Handler not found in registry"));
    assert!(reg.has_handlers(32));
    assert!(!reg.has_handlers(33));
}

#[test]
fn pic_masks_and_apic() {
    assert_eq!(masked(0b0000_0000, 3), 0b0000_1000);
    assert_eq!(unmasked(0xFF, 9), 0xFD);
    assert!(cpuid_has_apic(1 << 9));
    let mut apic = Apic::new();
    assert_eq!(apic.init(false, 0xFEE0_0900), Err("APIC not supported by CPU"));
    assert!(apic.init(true, 0xFEE0_0900).is_ok());
    assert!(apic.msr_enabled());
    assert_eq!(apic.base_address(), 0xFEE0_0000);
    assert_eq!(apic.register_address(0xB0), 0xFEE0_00B0);
    assert!(!apic.is_enabled());
    assert_eq!(apic.get_id(0x0500_0000), 0);
    assert!(!eoi_goes_to_apic(Some(&apic)));
    assert!(!eoi_goes_to_apic(None));
}

#[test]
fn test_syscall_numbers() {
    assert_eq!(SYS_READ, 0);
    assert_eq!(SYS_WRITE, 1);
    assert_eq!(SYS_EXIT, 60);
    assert_eq!(SYS_FORK, 57);
    assert_eq!(SYS_EXEC, 59);
    assert_eq!(SYS_PIPE, 22);
    assert_eq!(SYS_KILL, 62);
    assert_eq!(SYS_SHMGET, 29);
    assert_eq!(SYS_SHMAT, 30);
    assert_eq!(SYS_SHMDT, 67);
    assert_eq!(SYS_SHMCTL, 31);
    assert_eq!(SYS_MSGGET, 68);
    assert_eq!(SYS_MSGSND, 69);
    assert_eq!(SYS_MSGRCV, 70);
}

#[test]
fn test_error_codes() {
    assert!(EINVAL < 0);
    assert!(EBADF < 0);
    assert!(ENOMEM < 0);
    assert!(ENOSYS < 0);
    assert!(EFAULT < 0);
    assert!(EPERM < 0);
    assert!(ESRCH < 0);
}

#[test]
fn test_sys_write_null_buffer() {
    assert_eq!(sys_write(1, 0, 10), EFAULT);
}

#[test]
fn test_sys_write_invalid_fd() {
    let buf = b"test";
    assert_eq!(sys_write(99, buf.as_ptr() as u64, buf.len()), EBADF);
}

#[test]
fn test_sys_read_null_buffer() {
    assert_eq!(sys_read(0, 0, 10), EFAULT);
}

#[test]
fn test_sys_read_invalid_fd() {
    let mut buf = [0u8; 10];
    assert_eq!(sys_read(99, buf.as_mut_ptr() as u64, buf.len()), EBADF);
}

#[test]
fn test_sys_pipe_null_ptr() {
    assert_eq!(sys_pipe(0).0, EFAULT);
}

#[test]
fn test_sys_pipe_basic() {
    let mut pipefd = [0i32; 2];
    let (result, fds) = sys_pipe(pipefd.as_mut_ptr() as u64);
    assert_eq!(result, 0);
    let (r, w) = fds.unwrap();
    pipefd[0] = r;
    pipefd[1] = w;
    assert!(pipefd[0] > 0);
    assert!(pipefd[1] > 0);
    assert_ne!(pipefd[0], pipefd[1]);
}

#[test]
fn test_sys_kill_invalid_pid() {
    assert_eq!(sys_kill(-1, 9), EINVAL);
}

#[test]
fn test_sys_kill_invalid_signal() {
    assert_eq!(sys_kill(1, -1), EINVAL);
}

#[test]
fn test_sys_shmget_zero_size() {
    assert_eq!(sys_shmget(1, 0, 0), EINVAL);
}

#[test]
fn test_sys_shmget_basic() {
    assert!(sys_shmget(1, 4096, 0) > 0);
}

#[test]
fn test_sys_mmap_anonymous() {
    const MAP_ANON: i32 = 0x20;
    const PROT_READ: i32 = 0x1;
    const PROT_WRITE: i32 = 0x2;
    let result = sys_mmap(0, 4096, PROT_READ | PROT_WRITE, MAP_ANON, -1, 0);
    assert!(result > 0);
}

#[test]
fn test_sys_mmap_zero_length() {
    const MAP_ANON: i32 = 0x20;
    const PROT_READ: i32 = 0x1;
    assert_eq!(sys_mmap(0, 0, PROT_READ, MAP_ANON, -1, 0), EINVAL);
}

#[test]
fn test_sys_mmap_fixed_address() {
    const MAP_ANON: i32 = 0x20;
    const MAP_FIXED: i32 = 0x10;
    const PROT_READ: i32 = 0x1;
    let addr = 0x4000_0000u64;
    assert_eq!(sys_mmap(addr, 4096, PROT_READ, MAP_ANON | MAP_FIXED, -1, 0), addr as i64);
}

#[test]
fn test_sys_munmap_valid() {
    assert_eq!(sys_munmap(0x4000_0000, 4096), 0);
}

#[test]
fn test_sys_munmap_zero_length() {
    assert_eq!(sys_munmap(0x4000_0000, 0), EINVAL);
}

#[test]
fn test_sys_munmap_unaligned() {
    assert_eq!(sys_munmap(0x4000_0001, 4096), EINVAL);
}

#[test]
fn syscall_dispatch_routes_calls() {
    assert_eq!(dispatch(SYS_READ, 0, 0, 10, 0, 0, 0), SyscallAction::Return(EFAULT));
    assert_eq!(dispatch(SYS_WRITE, 1, 0x1000, 5, 0, 0, 0), SyscallAction::Write { buf: 0x1000, count: 5, result: 5 });
    assert_eq!(dispatch(SYS_PIPE, 0x2000, 0, 0, 0, 0, 0), SyscallAction::StorePipe {
        addr: 0x2000,
        read_fd: 3,
        write_fd: 4,
    });
    assert_eq!(dispatch(SYS_EXIT, 7, 0, 0, 0, 0, 0), SyscallAction::Exit(7));
    assert_eq!(dispatch(999, 0, 0, 0, 0, 0, 0), SyscallAction::Return(ENOSYS));
    assert_eq!(sys_mmap(0, 4096, 1, 0, -1, 0), ENOSYS);
    assert_eq!(sys_lseek(3, 0, 5), EINVAL);
    assert_eq!(star_value(), 0x0018_0008_0000_0000);
}

#[test]
fn syscall_dispatch_routes_file_and_ipc_calls() {
    assert_eq!(dispatch(SYS_OPEN, 0, 0, 0, 0, 0, 0), SyscallAction::Return(EFAULT));
    assert_eq!(dispatch(SYS_OPEN, 0x1000, 0, 0, 0, 0, 0), SyscallAction::Return(ENOSYS));
    assert_eq!(dispatch(SYS_CLOSE, 0xFFFF_FFFF, 0, 0, 0, 0, 0), SyscallAction::Return(EBADF));
    assert_eq!(dispatch(SYS_CLOSE, 3, 0, 0, 0, 0, 0), SyscallAction::Return(ENOSYS));
    assert_eq!(dispatch(SYS_LSEEK, 3, 0, 7, 0, 0, 0), SyscallAction::Return(EINVAL));
    assert_eq!(dispatch(SYS_MMAP, 0, 4096, 3, 0x22, 0xFFFF_FFFF, 0), SyscallAction::Return(0x4000_0000));
    assert_eq!(dispatch(SYS_MMAP, 0, 0, 3, 0x22, 0, 0), SyscallAction::Return(EINVAL));
    assert_eq!(dispatch(SYS_MKDIR, 0, 0, 0, 0, 0, 0), SyscallAction::Return(EFAULT));
    assert_eq!(dispatch(SYS_RMDIR, 0x10, 0, 0, 0, 0, 0), SyscallAction::Return(ENOSYS));
    assert_eq!(dispatch(SYS_UNLINK, 0, 0, 0, 0, 0, 0), SyscallAction::Return(EFAULT));
    assert_eq!(dispatch(SYS_GETDENTS, 1, 0, 0, 0, 0, 0), SyscallAction::Return(EFAULT));
    assert_eq!(dispatch(SYS_SHMAT, 1, 0, 0, 0, 0, 0), SyscallAction::Return(EINVAL));
    assert_eq!(dispatch(SYS_SHMDT, 0x1000, 0, 0, 0, 0, 0), SyscallAction::Return(0));
    assert_eq!(dispatch(SYS_SHMCTL, 0xFFFF_FFFF, 0, 0, 0, 0, 0), SyscallAction::Return(EINVAL));
    assert_eq!(dispatch(SYS_MSGGET, 0, 0, 0, 0, 0, 0), SyscallAction::Return(1));
    assert_eq!(dispatch(SYS_MSGSND, 1, 0x1000, 8, 0, 0, 0), SyscallAction::Return(0));
    assert_eq!(dispatch(SYS_MSGRCV, 1, 0, 8, 0, 0, 0), SyscallAction::Return(EINVAL));
}
