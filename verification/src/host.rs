//! What the machine takes from its host's C library: the numbers of the
//! system calls and the flags of `open` that it offers to programs by name.

use vstd::prelude::*;

verus! {

/// The kernel's numbers for the system calls that the dictionary names.
#[derive(Clone, Copy, PartialEq, Eq, Debug, Structural)]
pub struct SyscallNumbers {
    pub exit: i32,
    pub open: i32,
    pub close: i32,
    pub read: i32,
    pub write: i32,
    pub creat: i32,
    pub brk: i32,
}

/// The flags of `open` that the dictionary names.
#[derive(Clone, Copy, PartialEq, Eq, Debug, Structural)]
pub struct OpenFlags {
    pub rdonly: i32,
    pub wronly: i32,
    pub rdwr: i32,
    pub creat: i32,
    pub excl: i32,
    pub trunc: i32,
    pub append: i32,
    pub nonblock: i32,
}

/// Everything the machine takes from its host.
#[derive(Clone, Copy, PartialEq, Eq, Debug, Structural)]
pub struct HostConstants {
    pub syscalls: SyscallNumbers,
    pub flags: OpenFlags,
}

/// Reads the constants `SYS_exit`, `SYS_open`, `SYS_close`, `SYS_read`,
/// `SYS_write`, `SYS_creat` and `SYS_brk` of the `libc` crate, each cut from
/// C's `long` to the 32 bits of a cell. Their values differ from one target
/// to the next, so nothing is claimed of them.
#[verifier::external_body]
fn host_syscall_numbers() -> (numbers: SyscallNumbers) {
    SyscallNumbers {
        exit: libc::SYS_exit as i32,
        open: libc::SYS_open as i32,
        close: libc::SYS_close as i32,
        read: libc::SYS_read as i32,
        write: libc::SYS_write as i32,
        creat: libc::SYS_creat as i32,
        brk: libc::SYS_brk as i32,
    }
}

/// Reads the constants `O_RDONLY`, `O_WRONLY`, `O_RDWR`, `O_CREAT`, `O_EXCL`,
/// `O_TRUNC`, `O_APPEND` and `O_NONBLOCK` of the `libc` crate. Their values
/// differ from one target to the next, so nothing is claimed of them.
#[verifier::external_body]
fn host_open_flags() -> (flags: OpenFlags) {
    OpenFlags {
        rdonly: libc::O_RDONLY,
        wronly: libc::O_WRONLY,
        rdwr: libc::O_RDWR,
        creat: libc::O_CREAT,
        excl: libc::O_EXCL,
        trunc: libc::O_TRUNC,
        append: libc::O_APPEND,
        nonblock: libc::O_NONBLOCK,
    }
}

impl HostConstants {
    /// The constants of the host that this library was built for.
    pub fn of_host() -> HostConstants {
        HostConstants { syscalls: host_syscall_numbers(), flags: host_open_flags() }
    }
}

} // verus!
