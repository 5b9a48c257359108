//! The system call interface: call numbers, error codes, the checks each
//! call makes on its arguments, and the dispatch from a call number to
//! its result or to the work the caller has to do.
//!
//! User pointers are passed as addresses; address 0 is the null pointer.

use vstd::prelude::*;
use super::gdt::KERNEL_CODE_SELECTOR;

verus! {

pub const SYS_READ: u64 = 0;
pub const SYS_WRITE: u64 = 1;
pub const SYS_OPEN: u64 = 2;
pub const SYS_CLOSE: u64 = 3;
pub const SYS_LSEEK: u64 = 8;
pub const SYS_EXIT: u64 = 60;
pub const SYS_FORK: u64 = 57;
pub const SYS_EXEC: u64 = 59;
pub const SYS_MKDIR: u64 = 83;
pub const SYS_RMDIR: u64 = 84;
pub const SYS_GETDENTS: u64 = 78;
pub const SYS_UNLINK: u64 = 87;
pub const SYS_PIPE: u64 = 22;
pub const SYS_KILL: u64 = 62;
pub const SYS_SHMGET: u64 = 29;
pub const SYS_SHMAT: u64 = 30;
pub const SYS_SHMDT: u64 = 67;
pub const SYS_SHMCTL: u64 = 31;
pub const SYS_MSGGET: u64 = 68;
pub const SYS_MSGSND: u64 = 69;
pub const SYS_MSGRCV: u64 = 70;
pub const SYS_MMAP: u64 = 9;
pub const SYS_MUNMAP: u64 = 11;

/// Invalid argument.
pub const EINVAL: i64 = -22;
/// Bad file descriptor.
pub const EBADF: i64 = -9;
/// Out of memory.
pub const ENOMEM: i64 = -12;
/// Function not implemented.
pub const ENOSYS: i64 = -38;
/// Bad address.
pub const EFAULT: i64 = -14;
/// Permission denied.
pub const EACCES: i64 = -13;
/// Operation not permitted.
pub const EPERM: i64 = -1;
/// No such process.
pub const ESRCH: i64 = -3;
/// No such file or directory.
pub const ENOENT: i64 = -2;
/// File exists.
pub const EEXIST: i64 = -17;
/// Not a directory.
pub const ENOTDIR: i64 = -20;
/// Is a directory.
pub const EISDIR: i64 = -21;
/// Directory not empty.
pub const ENOTEMPTY: i64 = -39;

/// The `mmap` flag for anonymous mappings.
pub const MAP_ANONYMOUS: i32 = 0x20;

/// The address an anonymous mapping without a requested address gets.
pub const MMAP_DEFAULT_ADDR: i64 = 0x4000_0000;

/// The descriptors a new pipe gets: read end, write end.
pub const PIPE_READ_FD: i32 = 3;
pub const PIPE_WRITE_FD: i32 = 4;

/// The interrupt, trap and direction flags, cleared on system call entry.
pub const SYSCALL_FMASK: u64 = 0x700;

/// The STAR register: user segment base selector 0x18 in bits 48-63, the
/// kernel code selector in bits 32-47.
pub fn star_value() -> (r: u64)
    ensures
        r == 0x18 * 0x1_0000_0000_0000 + KERNEL_CODE_SELECTOR * 0x1_0000_0000,
{
    let r = (0x18u64 << 48) | ((KERNEL_CODE_SELECTOR as u64) << 32);
    assert(r == 0x18 * 0x1_0000_0000_0000 + 0x08 * 0x1_0000_0000) by (bit_vector)
        requires
            r == (0x18u64 << 48) | (0x08u64 << 32),
    ;
    r
}

/// `read`: only standard input, which has nothing to give.
pub fn sys_read(fd: i32, buf: u64, count: usize) -> (r: i64)
    ensures
        r == (if buf == 0 { EFAULT } else if fd != 0 { EBADF } else { 0 }),
{
    if buf == 0 {
        return EFAULT;
    }
    if fd != 0 {
        return EBADF;
    }
    0
}

/// `write`: only standard output and error; the result is the byte count
/// (the caller copies the bytes out).
pub fn sys_write(fd: i32, buf: u64, count: usize) -> (r: i64)
    ensures
        r == (if buf == 0 { EFAULT } else if fd != 1 && fd != 2 { EBADF } else { count as i64 }),
{
    if buf == 0 {
        return EFAULT;
    }
    if fd != 1 && fd != 2 {
        return EBADF;
    }
    count as i64
}

/// `open`: not implemented.
pub fn sys_open(pathname: u64, flags: i32, mode: i32) -> (r: i64)
    ensures
        r == (if pathname == 0 { EFAULT } else { ENOSYS }),
{
    if pathname == 0 {
        return EFAULT;
    }
    ENOSYS
}

/// `close`: not implemented.
pub fn sys_close(fd: i32) -> (r: i64)
    ensures
        r == (if fd < 0 { EBADF } else { ENOSYS }),
{
    if fd < 0 {
        return EBADF;
    }
    ENOSYS
}

/// `lseek`: not implemented.
pub fn sys_lseek(fd: i32, offset: i64, whence: i32) -> (r: i64)
    ensures
        r == (if fd < 0 { EBADF } else if whence < 0 || whence > 2 { EINVAL } else { ENOSYS }),
{
    if fd < 0 {
        return EBADF;
    }
    if whence < 0 || whence > 2 {
        return EINVAL;
    }
    ENOSYS
}

/// `mkdir`: not implemented.
pub fn sys_mkdir(pathname: u64, mode: i32) -> (r: i64)
    ensures
        r == (if pathname == 0 { EFAULT } else { ENOSYS }),
{
    if pathname == 0 {
        return EFAULT;
    }
    ENOSYS
}

/// `rmdir`: not implemented.
pub fn sys_rmdir(pathname: u64) -> (r: i64)
    ensures
        r == (if pathname == 0 { EFAULT } else { ENOSYS }),
{
    if pathname == 0 {
        return EFAULT;
    }
    ENOSYS
}

/// `getdents`: not implemented.
pub fn sys_getdents(fd: i32, dirp: u64, count: usize) -> (r: i64)
    ensures
        r == (if fd < 0 { EBADF } else if dirp == 0 { EFAULT } else { ENOSYS }),
{
    if fd < 0 {
        return EBADF;
    }
    if dirp == 0 {
        return EFAULT;
    }
    ENOSYS
}

/// `unlink`: not implemented.
pub fn sys_unlink(pathname: u64) -> (r: i64)
    ensures
        r == (if pathname == 0 { EFAULT } else { ENOSYS }),
{
    if pathname == 0 {
        return EFAULT;
    }
    ENOSYS
}

/// `mmap`: anonymous mappings only; the requested address, or a fixed
/// default when none is requested.
pub fn sys_mmap(addr: u64, length: usize, prot: i32, flags: i32, fd: i32, offset: i64) -> (r: i64)
    ensures
        r == (if length == 0 {
            EINVAL
        } else if (flags as u32) & 0x20 == 0 {
            ENOSYS
        } else if addr == 0 {
            MMAP_DEFAULT_ADDR
        } else {
            addr as i64
        }),
{
    if length == 0 {
        return EINVAL;
    }
    if (flags as u32) & 0x20 == 0 {
        return ENOSYS;
    }
    if addr == 0 {
        MMAP_DEFAULT_ADDR
    } else {
        addr as i64
    }
}

/// `munmap`: a page-aligned address and a nonzero length succeed.
pub fn sys_munmap(addr: u64, length: usize) -> (r: i64)
    ensures
        r == (if length == 0 || addr % 4096 != 0 { EINVAL } else { 0 }),
{
    if length == 0 {
        return EINVAL;
    }
    if addr % 4096 != 0 {
        return EINVAL;
    }
    0
}

/// `fork`: not implemented.
pub fn sys_fork() -> (r: i64)
    ensures
        r == ENOSYS,
{
    ENOSYS
}

/// `exec`: not implemented.
pub fn sys_exec(path: u64, argv: u64) -> (r: i64)
    ensures
        r == ENOSYS,
{
    ENOSYS
}

/// `pipe`: the result and, on success, the two descriptors to store at
/// the address (read end first).
pub fn sys_pipe(pipefd: u64) -> (r: (i64, Option<(i32, i32)>))
    ensures
        r == (if pipefd == 0 { (EFAULT, None) } else { (0i64, Some((PIPE_READ_FD, PIPE_WRITE_FD))) }),
{
    if pipefd == 0 {
        return (EFAULT, None);
    }
    (0, Some((PIPE_READ_FD, PIPE_WRITE_FD)))
}

/// `kill`: a positive process and a signal in 0..=31 are accepted, but no
/// process exists.
pub fn sys_kill(pid: i32, sig: i32) -> (r: i64)
    ensures
        r == (if pid <= 0 || sig < 0 || sig > 31 { EINVAL } else { ESRCH }),
{
    if pid <= 0 {
        return EINVAL;
    }
    if sig < 0 || sig > 31 {
        return EINVAL;
    }
    ESRCH
}

/// `shmget`: a nonzero size gets segment 1.
pub fn sys_shmget(key: i32, size: usize, shmflg: i32) -> (r: i64)
    ensures
        r == (if size == 0 { EINVAL } else { 1 }),
{
    if size == 0 {
        return EINVAL;
    }
    1
}

/// `shmat`: no segment can be attached.
pub fn sys_shmat(shmid: i32, shmaddr: u64, shmflg: i32) -> (r: i64)
    ensures
        r == EINVAL,
{
    if shmid < 0 {
        return EINVAL;
    }
    EINVAL
}

/// `shmdt`: a non-null address is detached.
pub fn sys_shmdt(shmaddr: u64) -> (r: i64)
    ensures
        r == (if shmaddr == 0 { EINVAL } else { 0 }),
{
    if shmaddr == 0 {
        return EINVAL;
    }
    0
}

/// `shmctl`: not implemented.
pub fn sys_shmctl(shmid: i32, cmd: i32, buf: u64) -> (r: i64)
    ensures
        r == (if shmid < 0 { EINVAL } else { ENOSYS }),
{
    if shmid < 0 {
        return EINVAL;
    }
    ENOSYS
}

/// `msgget`: always queue 1.
pub fn sys_msgget(key: i32, msgflg: i32) -> (r: i64)
    ensures
        r == 1,
{
    1
}

/// `msgsnd`: a message at a non-null address to a nonnegative queue is
/// accepted.
pub fn sys_msgsnd(msqid: i32, msgp: u64, msgsz: usize, msgflg: i32) -> (r: i64)
    ensures
        r == (if msgp == 0 || msqid < 0 { EINVAL } else { 0 }),
{
    if msgp == 0 || msqid < 0 {
        return EINVAL;
    }
    0
}

/// `msgrcv`: a buffer at a non-null address for a nonnegative queue gets
/// nothing.
pub fn sys_msgrcv(msqid: i32, msgp: u64, msgsz: usize, msgtyp: i64, msgflg: i32) -> (r: i64)
    ensures
        r == (if msgp == 0 || msqid < 0 { EINVAL } else { 0 }),
{
    if msgp == 0 || msqid < 0 {
        return EINVAL;
    }
    0
}

/// What the system call entry has to do after dispatch.
#[derive(Debug, Clone, Copy, PartialEq, Eq, Structural)]
pub enum SyscallAction {
    /// Return the value.
    Return(i64),
    /// Copy `count` bytes from `buf` to the console, then return the value.
    Write { buf: u64, count: usize, result: i64 },
    /// Store the two descriptors at `addr`, then return 0.
    StorePipe { addr: u64, read_fd: i32, write_fd: i32 },
    /// Stop the calling task with the status.
    Exit(i32),
}

/// Dispatches a system call: the call number picks the call, and the
/// arguments are taken from the registers with the call's types (the low
/// 32 bits for `i32` arguments). Unknown numbers give `ENOSYS`.
pub fn dispatch(number: u64, arg1: u64, arg2: u64, arg3: u64, arg4: u64, arg5: u64, arg6: u64) -> (r: SyscallAction)
    ensures
        number == SYS_READ ==> r == SyscallAction::Return(
            if arg2 == 0 { EFAULT } else if arg1 as i32 != 0 { EBADF } else { 0 },
        ),
        number == SYS_WRITE ==> r == (if arg2 == 0 {
            SyscallAction::Return(EFAULT)
        } else if arg1 as i32 != 1 && arg1 as i32 != 2 {
            SyscallAction::Return(EBADF)
        } else {
            SyscallAction::Write { buf: arg2, count: arg3 as usize, result: (arg3 as usize) as i64 }
        }),
        number == SYS_PIPE ==> r == (if arg1 == 0 {
            SyscallAction::Return(EFAULT)
        } else {
            SyscallAction::StorePipe { addr: arg1, read_fd: PIPE_READ_FD, write_fd: PIPE_WRITE_FD }
        }),
        number == SYS_EXIT ==> r == SyscallAction::Exit(arg1 as i32),
        number == SYS_KILL ==> r == SyscallAction::Return(
            if (arg1 as i32) <= 0 || (arg2 as i32) < 0 || (arg2 as i32) > 31 { EINVAL } else { ESRCH },
        ),
        number == SYS_MUNMAP ==> r == SyscallAction::Return(
            if arg2 as usize == 0 || arg1 % 4096 != 0 { EINVAL } else { 0 },
        ),
        number == SYS_SHMGET ==> r == SyscallAction::Return(if arg2 as usize == 0 { EINVAL } else { 1 }),
        number == SYS_FORK || number == SYS_EXEC ==> r == SyscallAction::Return(ENOSYS),
        number == SYS_OPEN ==> r == SyscallAction::Return(if arg1 == 0 { EFAULT } else { ENOSYS }),
        number == SYS_CLOSE ==> r == SyscallAction::Return(if (arg1 as i32) < 0 { EBADF } else { ENOSYS }),
        number == SYS_LSEEK ==> r == SyscallAction::Return(
            if (arg1 as i32) < 0 { EBADF } else if (arg3 as i32) < 0 || (arg3 as i32) > 2 { EINVAL } else { ENOSYS },
        ),
        number == SYS_MMAP ==> r == SyscallAction::Return(
            if arg2 as usize == 0 {
                EINVAL
            } else if ((arg4 as i32) as u32) & 0x20 == 0 {
                ENOSYS
            } else if arg1 == 0 {
                MMAP_DEFAULT_ADDR
            } else {
                arg1 as i64
            },
        ),
        number == SYS_MKDIR || number == SYS_RMDIR || number == SYS_UNLINK ==> r == SyscallAction::Return(
            if arg1 == 0 { EFAULT } else { ENOSYS },
        ),
        number == SYS_GETDENTS ==> r == SyscallAction::Return(
            if (arg1 as i32) < 0 { EBADF } else if arg2 == 0 { EFAULT } else { ENOSYS },
        ),
        number == SYS_SHMAT ==> r == SyscallAction::Return(EINVAL),
        number == SYS_SHMDT ==> r == SyscallAction::Return(if arg1 == 0 { EINVAL } else { 0 }),
        number == SYS_SHMCTL ==> r == SyscallAction::Return(if (arg1 as i32) < 0 { EINVAL } else { ENOSYS }),
        number == SYS_MSGGET ==> r == SyscallAction::Return(1),
        number == SYS_MSGSND || number == SYS_MSGRCV ==> r == SyscallAction::Return(
            if arg2 == 0 || (arg1 as i32) < 0 { EINVAL } else { 0 },
        ),
        !(number == SYS_READ || number == SYS_WRITE || number == SYS_OPEN || number == SYS_CLOSE || number == SYS_LSEEK
            || number == SYS_MMAP || number == SYS_MUNMAP || number == SYS_EXIT || number == SYS_FORK || number
            == SYS_EXEC || number == SYS_MKDIR || number == SYS_RMDIR || number == SYS_GETDENTS || number == SYS_UNLINK
            || number == SYS_PIPE || number == SYS_KILL || number == SYS_SHMGET || number == SYS_SHMAT || number
            == SYS_SHMDT || number == SYS_SHMCTL || number == SYS_MSGGET || number == SYS_MSGSND || number
            == SYS_MSGRCV) ==> r == SyscallAction::Return(ENOSYS),
{
    if number == SYS_READ {
        SyscallAction::Return(sys_read(arg1 as i32, arg2, arg3 as usize))
    } else if number == SYS_WRITE {
        let res = sys_write(arg1 as i32, arg2, arg3 as usize);
        if arg2 == 0 || (arg1 as i32 != 1 && arg1 as i32 != 2) {
            SyscallAction::Return(res)
        } else {
            SyscallAction::Write { buf: arg2, count: arg3 as usize, result: res }
        }
    } else if number == SYS_OPEN {
        SyscallAction::Return(sys_open(arg1, arg2 as i32, arg3 as i32))
    } else if number == SYS_CLOSE {
        SyscallAction::Return(sys_close(arg1 as i32))
    } else if number == SYS_LSEEK {
        SyscallAction::Return(sys_lseek(arg1 as i32, arg2 as i64, arg3 as i32))
    } else if number == SYS_MMAP {
        SyscallAction::Return(sys_mmap(arg1, arg2 as usize, arg3 as i32, arg4 as i32, arg5 as i32, arg6 as i64))
    } else if number == SYS_MUNMAP {
        SyscallAction::Return(sys_munmap(arg1, arg2 as usize))
    } else if number == SYS_EXIT {
        SyscallAction::Exit(arg1 as i32)
    } else if number == SYS_FORK {
        SyscallAction::Return(sys_fork())
    } else if number == SYS_EXEC {
        SyscallAction::Return(sys_exec(arg1, arg2))
    } else if number == SYS_MKDIR {
        SyscallAction::Return(sys_mkdir(arg1, arg2 as i32))
    } else if number == SYS_RMDIR {
        SyscallAction::Return(sys_rmdir(arg1))
    } else if number == SYS_GETDENTS {
        SyscallAction::Return(sys_getdents(arg1 as i32, arg2, arg3 as usize))
    } else if number == SYS_UNLINK {
        SyscallAction::Return(sys_unlink(arg1))
    } else if number == SYS_PIPE {
        match sys_pipe(arg1) {
            (_, Some((read_fd, write_fd))) => SyscallAction::StorePipe { addr: arg1, read_fd, write_fd },
            (res, None) => SyscallAction::Return(res),
        }
    } else if number == SYS_KILL {
        SyscallAction::Return(sys_kill(arg1 as i32, arg2 as i32))
    } else if number == SYS_SHMGET {
        SyscallAction::Return(sys_shmget(arg1 as i32, arg2 as usize, arg3 as i32))
    } else if number == SYS_SHMAT {
        SyscallAction::Return(sys_shmat(arg1 as i32, arg2, arg3 as i32))
    } else if number == SYS_SHMDT {
        SyscallAction::Return(sys_shmdt(arg1))
    } else if number == SYS_SHMCTL {
        SyscallAction::Return(sys_shmctl(arg1 as i32, arg2 as i32, arg3))
    } else if number == SYS_MSGGET {
        SyscallAction::Return(sys_msgget(arg1 as i32, arg2 as i32))
    } else if number == SYS_MSGSND {
        SyscallAction::Return(sys_msgsnd(arg1 as i32, arg2, arg3 as usize, arg4 as i32))
    } else if number == SYS_MSGRCV {
        SyscallAction::Return(sys_msgrcv(arg1 as i32, arg2, arg3 as usize, arg4 as i64, arg5 as i32))
    } else {
        SyscallAction::Return(ENOSYS)
    }
}

} // verus!
