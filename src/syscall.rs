//! The system-call layer: the kernel state and one handler per call.
use vstd::prelude::*;
use crate::fs::{open, open_spec, read_range, written, Inode, RamFS};
use crate::bytes::le_bytes;
use crate::memory::{splice, UserMemory};
use crate::sched::{admitted, current_index, same_but_fds, with_state, Scheduler};
use crate::task::{first_free, open_in, FdSlot, FileDescriptor, Pid, TaskState};
use crate::elf::{
    e_entry, e_phentsize, e_phnum, elf_error, load_elf, loaded_bytes, load_segments, phdr_address,
    segment_ranges, wrap64, wrap_add,
};
use crate::stack::{
    setup_user_stack, stack_sp, stack_strings, stack_words, str_pos, AuxvEntry, AT_ENTRY, AT_PAGESZ,
    AT_PHDR, AT_PHENT, AT_PHNUM, AT_RANDOM,
};

verus! {

pub const SYS_READ: usize = 0;

pub const SYS_WRITE: usize = 1;

pub const SYS_OPEN: usize = 2;

pub const SYS_CLOSE: usize = 3;

pub const SYS_STAT: usize = 4;

pub const SYS_FSTAT: usize = 5;

pub const SYS_LSEEK: usize = 8;

pub const SYS_MMAP: usize = 9;

pub const SYS_MUNMAP: usize = 11;

pub const SYS_BRK: usize = 12;

pub const SYS_IOCTL: usize = 16;

pub const SYS_PIPE: usize = 22;

pub const SYS_DUP: usize = 32;

pub const SYS_DUP2: usize = 33;

pub const SYS_NANOSLEEP: usize = 35;

pub const SYS_GETPID: usize = 39;

pub const SYS_CLONE: usize = 56;

pub const SYS_FORK: usize = 57;

pub const SYS_EXECVE: usize = 59;

pub const SYS_EXIT: usize = 60;

pub const SYS_WAIT4: usize = 61;

pub const SYS_UNAME: usize = 63;

pub const SYS_GETCWD: usize = 79;

pub const SYS_CHDIR: usize = 80;

pub const SYS_GETTIMEOFDAY: usize = 96;

pub const SYS_GETUID: usize = 102;

pub const SYS_GETGID: usize = 104;

pub const SYS_GETEUID: usize = 107;

pub const SYS_GETEGID: usize = 108;

pub const SYS_CLOCK_GETTIME: usize = 228;

pub const EPERM: isize = -1;

pub const ENOENT: isize = -2;

pub const E2BIG: isize = -7;

pub const ENOEXEC: isize = -8;

pub const EBADF: isize = -9;

pub const ECHILD: isize = -10;

pub const ENOMEM: isize = -12;

pub const EFAULT: isize = -14;

pub const EINVAL: isize = -22;

pub const ENOTTY: isize = -25;

pub const ERANGE: isize = -34;

pub const ENOSYS: isize = -38;

/// Longest path or argument string read from user memory.
pub const MAX_USER_STRING: usize = 1024;

/// Bounds and start of the program break.
pub const BRK_START: u64 = 0x800000;

pub const BRK_END: u64 = 0x1000000;

/// What a system call hands back to the trap path.
#[derive(Debug, Clone, Copy, PartialEq, Eq, Structural)]
pub enum Outcome {
    /// Return this value to the caller.
    Return(isize),
    /// Enter user mode at `entry` with stack pointer `sp`; nothing returns.
    EnterUser { entry: u64, sp: u64 },
    /// The task exited: stop running it.
    Halt,
}

/// The kernel's state: tasks, files, the program break, the clock, the
/// bytes written to the console and not yet shown, and the bytes typed at it
/// and not yet read.
pub struct Kernel {
    pub sched: Scheduler,
    pub fs: RamFS,
    pub program_break: u64,
    pub clock: u64,
    pub console: Vec<u8>,
    /// Bytes typed at the console and not yet read.
    pub input: Vec<u8>,
    /// Top of the stack that `execve` builds.
    pub user_stack_top: u64,
}

pub const TCGETS: usize = 0x5401;

pub const TCSETS: usize = 0x5402;

pub const TIOCGWINSZ: usize = 0x5413;

/// `t` grown with free slots to at least `n` slots.
pub open spec fn grown(t: Seq<FdSlot>, n: int) -> Seq<FdSlot> {
    if t.len() >= n {
        t
    } else {
        Seq::new(n as nat, |x: int| if x < t.len() { t[x] } else { FdSlot::Free })
    }
}

/// `len` rounded up to a multiple of the page size.
pub open spec fn page_round(len: int) -> int {
    (len + 4095) / 4096 * 4096
}

/// Size of the identification record and of each of its fields.
pub const UTS_SIZE: u64 = 325;

/// Size of the stat record.
pub const STAT_SIZE: u64 = 56;

/// Mode of a regular file with permissions 0644.
pub const S_IFREG_0644: u64 = 0o100644;

pub open spec fn uts_sysname() -> Seq<u8> {
    seq![65u8, 101, 116, 104, 101, 114, 0]
}

pub open spec fn uts_nodename() -> Seq<u8> {
    seq![97u8, 101, 116, 104, 101, 114, 0]
}

pub open spec fn uts_release() -> Seq<u8> {
    seq![48u8, 46, 49, 46, 48, 0]
}

pub open spec fn uts_version() -> Seq<u8> {
    seq![35u8, 49, 32, 83, 77, 80, 0]
}

pub open spec fn uts_machine() -> Seq<u8> {
    seq![120u8, 56, 54, 95, 54, 52, 0]
}

/// `b` with the identification fields written from index `d` on, each at a
/// 65-byte stride.
pub open spec fn uname_image(b: Seq<u8>, d: int) -> Seq<u8> {
    splice(
        splice(
            splice(splice(splice(b, d, uts_sysname()), d + 65, uts_nodename()), d + 130, uts_release()),
            d + 195,
            uts_version(),
        ),
        d + 260,
        uts_machine(),
    )
}

/// What storing the clock at `at` does: nothing for a null pointer, a fault
/// outside memory, and otherwise the clock advances by one and is written
/// with a zero word after it.
pub open spec fn clock_stored(k0: Kernel, k1: Kernel, m0: UserMemory, m1: UserMemory, at: int, r: isize) -> bool {
    &&& m1.wf()
    &&& m1.base == m0.base
    &&& m1.mapped@ == m0.mapped@
    &&& k1.sched == k0.sched
    &&& k1.fs == k0.fs
    &&& k1.console@ == k0.console@
    &&& k1.program_break == k0.program_break
    &&& if at == 0 {
        r == 0 && k1.clock == k0.clock && m1 == m0
    } else if !m0.contains(at, 16) {
        r == EFAULT && k1.clock == k0.clock && m1 == m0
    } else {
        &&& r == 0
        &&& k1.clock == wrap64(k0.clock + 1)
        &&& m1.bytes@ == splice(
            splice(m0.bytes@, at - m0.base, le_bytes(k1.clock as nat, 8)),
            at + 8 - m0.base,
            le_bytes(0, 8),
        )
    }
}

/// Largest image `execve` reads.
pub const EXEC_MAX: usize = 65536;

/// Whether `nr` has a handler.
pub open spec fn is_implemented(nr: usize) -> bool {
    nr == SYS_READ || nr == SYS_WRITE || nr == SYS_OPEN || nr == SYS_CLOSE || nr == SYS_STAT || nr
        == SYS_FSTAT || nr == SYS_LSEEK || nr == SYS_MMAP || nr == SYS_MUNMAP || nr == SYS_BRK || nr
        == SYS_IOCTL || nr == SYS_DUP || nr == SYS_DUP2 || nr == SYS_PIPE || nr == SYS_GETPID || nr
        == SYS_FORK || nr == SYS_CLONE || nr == SYS_EXECVE || nr == SYS_EXIT || nr == SYS_WAIT4 || nr
        == SYS_GETTIMEOFDAY || nr == SYS_NANOSLEEP || nr == SYS_CLOCK_GETTIME || nr == SYS_UNAME || nr
        == SYS_GETCWD || nr == SYS_CHDIR || nr == SYS_GETUID || nr == SYS_GETGID || nr == SYS_GETEUID
        || nr == SYS_GETEGID
}

/// The bytes of each string of a list.
pub open spec fn vec_views(v: Seq<Vec<u8>>) -> Seq<Seq<u8>> {
    v.map_values(|x: Vec<u8>| x@)
}

/// The strings of the NULL-terminated pointer array at `addr`, if every
/// pointer and every string can be read.
pub open spec fn user_argv(m: UserMemory, addr: int) -> Option<Seq<Seq<u8>>>
    decreases m.end() - addr,
{
    if !m.contains(addr, 8) {
        None
    } else if m.u64_at(addr) == 0 {
        Some(Seq::empty())
    } else {
        match user_cstr(m, m.u64_at(addr) as int) {
            None => None,
            Some(s) => match user_argv(m, addr + 8) {
                None => None,
                Some(rest) => Some(seq![s] + rest),
            },
        }
    }
}

/// `done` followed by the strings of `rest`, if any.
pub open spec fn join_args(done: Seq<Seq<u8>>, rest: Option<Seq<Seq<u8>>>) -> Option<Seq<Seq<u8>>> {
    match rest {
        Some(r) => Some(done + r),
        None => None,
    }
}

/// Reads the NULL-terminated array of string pointers at `addr`.
pub fn read_user_argv(mem: &UserMemory, addr: u64) -> (r: Option<Vec<Vec<u8>>>)
    requires
        mem.wf(),
    ensures
        r matches Some(v) ==> user_argv(*mem, addr as int) == Some(vec_views(v@)),
        r is None ==> user_argv(*mem, addr as int) is None,
{
    let mut out: Vec<Vec<u8>> = Vec::new();
    let mut a: u64 = addr;
    assert(vec_views(out@) =~= Seq::<Seq<u8>>::empty());
    loop
        invariant
            mem.wf(),
            user_argv(*mem, addr as int) == join_args(vec_views(out@), user_argv(*mem, a as int)),
        decreases mem.end() - a,
    {
        if !mem.in_window(a, 8) {
            return None;
        }
        let p = mem.read_u64(a);
        if p == 0 {
            assert(vec_views(out@) + Seq::<Seq<u8>>::empty() =~= vec_views(out@));
            return Some(out);
        }
        match read_user_cstr(mem, p) {
            None => {
                return None;
            },
            Some(s) => {
                let ghost before = vec_views(out@);
                let ghost sv = s@;
                out.push(s);
                proof {
                    assert(vec_views(out@) =~= before.push(sv));
                    match user_argv(*mem, a + 8) {
                        Some(rest) => {
                            assert(before + (seq![sv] + rest) =~= before.push(sv) + rest);
                        },
                        None => {},
                    }
                }
                a = a + 8;
            },
        }
    }
}

/// The bytes `execve` reads from inode `ino`.
pub open spec fn exec_image(k: Kernel, ino: int) -> Seq<u8> {
    match k.fs.nodes@[ino].file_content() {
        Some(c) => read_range(c, 0, EXEC_MAX as int),
        None => Seq::empty(),
    }
}

/// What `sys_read` guarantees, from the kernel `k0` and memory `m0` before
/// to `k1` and `m1` after, with result `r`.
pub open spec fn sys_read_post(k0: Kernel, k1: Kernel, m0: UserMemory, m1: UserMemory, fd: usize, buf: usize, count: usize, r: isize) -> bool {
    &&& k1.wf()
    &&& m1.wf()
    &&& m1.base == m0.base
    &&& m1.mapped@ == m0.mapped@
    &&& if fd == 1 || fd == 2 {
        if count > isize::MAX {
            r == EINVAL && k1 == k0 && m1 == m0
        } else if !m0.contains(buf as int, count as int) {
            r == EFAULT && k1 == k0 && m1 == m0
        } else {
            let n = if count < k0.input@.len() {
                count as int
            } else {
                k0.input@.len() as int
            };
            &&& r == n
            &&& m1.bytes@ == splice(m0.bytes@, buf - m0.base, k0.input@.subrange(0, n))
            &&& k1.input@ == k0.input@.subrange(n, k0.input@.len() as int)
            &&& k1.sched == k0.sched
            &&& k1.fs == k0.fs
            &&& k1.console@ == k0.console@
            &&& k1.program_break == k0.program_break
            &&& k1.clock == k0.clock
            &&& k1.user_stack_top == k0.user_stack_top
        }
    } else {
        &&& others_same(k0, k1)
        &&& ({
        let k = k0;
        match current_fd(k, fd as int) {
            None => r == EBADF && k1 == k0 && m1 == m0,
            Some(f) => if f.inode >= k.fs.nodes@.len() {
                r == EBADF && k1 == k0 && m1 == m0
            } else if count > isize::MAX {
                r == EINVAL && k1 == k0 && m1 == m0
            } else if !m0.contains(buf as int, count as int) {
                r == EFAULT && k1 == k0 && m1 == m0
            } else {
                let d = transfer(k, f, count as int);
                &&& r == d.len()
                &&& m1.bytes@ == splice(m0.bytes@, buf - m0.base, d)
                &&& fd_updated(
                    k,
                    k1,
                    current_index(k.sched).unwrap(),
                    fd as int,
                    FdSlot::Open(FileDescriptor { offset: (f.offset + d.len()) as u64, ..f }),
                )
            },
        }
    })
    }
}

/// What `sys_write` guarantees, from the kernel `k0` and memory `m0` before
/// to `k1` and `m1` after, with result `r`.
pub open spec fn sys_write_post(k0: Kernel, k1: Kernel, m0: UserMemory, m1: UserMemory, fd: usize, buf: usize, count: usize, r: isize) -> bool {
    &&& k1.wf()
    &&& ({
        let k = k0;
        if fd == 1 || fd == 2 {
            if count > isize::MAX {
                r == EINVAL && k1 == k0
            } else if !m0.contains(buf as int, count as int) {
                r == EFAULT && k1 == k0
            } else {
                &&& r == count
                &&& k1.console@ == k0.console@ + m0.bytes@.subrange(
                    buf - m0.base,
                    buf - m0.base + count,
                )
                &&& k1.sched == k0.sched
                &&& k1.fs == k0.fs
                &&& k1.input@ == k0.input@
                &&& k1.program_break == k0.program_break
                &&& k1.clock == k0.clock
                &&& k1.user_stack_top == k0.user_stack_top
            }
        } else {
            match current_fd(k, fd as int) {
                None => r == EBADF && k1 == k0,
                Some(f) => if f.inode >= k.fs.nodes@.len() {
                    r == EBADF && k1 == k0
                } else if count > isize::MAX {
                    r == EINVAL && k1 == k0
                } else if !m0.contains(buf as int, count as int) {
                    r == EFAULT && k1 == k0
                } else {
                    let d = m0.bytes@.subrange(buf - m0.base, buf - m0.base + count);
                    let n: int = match k.fs.nodes@[f.inode as int].file_content() {
                        Some(c) => if f.offset + count <= usize::MAX {
                            count as int
                        } else {
                            0
                        },
                        None => 0,
                    };
                    &&& r == n
                    &&& k1.fs.nodes@.len() == k.fs.nodes@.len()
                    &&& (match k.fs.nodes@[f.inode as int].file_content() {
                        Some(c) => k1.fs.nodes@[f.inode as int].file_content()
                            == Some(if f.offset + count <= usize::MAX {
                            written(c, f.offset as int, d)
                        } else {
                            c
                        }),
                        None => k1.fs.nodes@[f.inode as int] == k.fs.nodes@[f.inode as int],
                    })
                    &&& forall|x: int|
                        0 <= x < k.fs.nodes@.len() && x != f.inode
                            ==> #[trigger] k1.fs.nodes@[x] == k.fs.nodes@[x]
                    &&& fd_updated(
                        k,
                        k1,
                        current_index(k.sched).unwrap(),
                        fd as int,
                        FdSlot::Open(FileDescriptor { offset: (f.offset + n) as u64, ..f }),
                    )
                    &&& k1.console@ == k.console@
                },
            }
        }
    })
    &&& m1 == m0
}

/// What `sys_open` guarantees, from the kernel `k0` and memory `m0` before
/// to `k1` and `m1` after, with result `r`.
pub open spec fn sys_open_post(k0: Kernel, k1: Kernel, m0: UserMemory, m1: UserMemory, path: usize, flags: usize, r: isize) -> bool {
    &&& k1.wf()
    &&& others_same(k0, k1)
    &&& ({
        let k = k0;
        match user_cstr(m0, path as int) {
            None => r == ENOENT && k1 == k,
            Some(p) => match open_spec(&k.fs, p) {
                Err(_) => r == ENOENT && k1 == k,
                Ok(ino) => match current_index(k.sched) {
                    None => r == EPERM && k1 == k,
                    Some(i) => {
                        let t = k.sched.tasks@[i].fd_table@;
                        let f = FileDescriptor { inode: ino, offset: 0, flags: flags as u32 };
                        if t.len() == usize::MAX {
                            r == ENOMEM && k1 == k
                        } else {
                            &&& r == first_free(t) as isize
                            &&& k1.sched.tasks@[i].fd_table@ == (if first_free(t) < t.len() {
                                t.update(first_free(t), FdSlot::Open(f))
                            } else {
                                t.push(FdSlot::Open(f))
                            })
                            &&& k1.sched.wf()
                            &&& same_but_fds(k1.sched.tasks@[i], k.sched.tasks@[i])
                            &&& forall|j: int|
                                0 <= j < k.sched.tasks@.len() && j != i
                                    ==> #[trigger] k1.sched.tasks@[j] == k.sched.tasks@[j]
                        }
                    },
                },
            },
        }
    })
    &&& m1 == m0
}

/// What `sys_close` guarantees, from the kernel `k0` before to `k1` after,
/// with result `r`.
pub open spec fn sys_close_post(k0: Kernel, k1: Kernel, fd: usize, r: isize) -> bool {
    &&& k1.wf()
    &&& others_same(k0, k1)
    &&& ({
        let k = k0;
        match current_index(k.sched) {
            None => r == EBADF && k1 == k,
            Some(i) => if fd < k.sched.tasks@[i].fd_table@.len() {
                r == 0 && fd_updated(k, k1, i, fd as int, FdSlot::Free)
            } else {
                r == EBADF && k1 == k
            },
        }
    })
}

/// What `sys_dup` guarantees, from the kernel `k0` before to `k1` after,
/// with result `r`.
pub open spec fn sys_dup_post(k0: Kernel, k1: Kernel, oldfd: usize, r: isize) -> bool {
    &&& k1.wf()
    &&& others_same(k0, k1)
    &&& ({
        let k = k0;
        match current_fd(k, oldfd as int) {
            None => r == EBADF && k1 == k,
            Some(f) => {
                let i = current_index(k.sched).unwrap();
                let t = k.sched.tasks@[i].fd_table@;
                if t.len() == usize::MAX {
                    r == ENOMEM && k1 == k
                } else {
                &&& r == first_free(t) as isize
                &&& k1.sched.tasks@[i].fd_table@ == (if first_free(t) < t.len() {
                    t.update(first_free(t), FdSlot::Open(f))
                } else {
                    t.push(FdSlot::Open(f))
                })
                &&& same_but_fds(k1.sched.tasks@[i], k.sched.tasks@[i])
                &&& forall|j: int|
                    0 <= j < k.sched.tasks@.len() && j != i
                        ==> #[trigger] k1.sched.tasks@[j] == k.sched.tasks@[j]
                }
            },
        }
    })
}

/// What `sys_dup2` guarantees, from the kernel `k0` before to `k1` after,
/// with result `r`.
pub open spec fn sys_dup2_post(k0: Kernel, k1: Kernel, oldfd: usize, newfd: usize, r: isize) -> bool {
    &&& k1.wf()
    &&& others_same(k0, k1)
    &&& ({
        let k = k0;
        match current_fd(k, oldfd as int) {
            None => r == EBADF && k1 == k,
            Some(f) => if newfd == usize::MAX {
                r == ENOMEM && k1 == k
            } else {
                let i = current_index(k.sched).unwrap();
                let t = k.sched.tasks@[i].fd_table@;
                &&& r == newfd as isize
                &&& k1.sched.tasks@[i].fd_table@ == grown(t, newfd + 1).update(
                    newfd as int,
                    FdSlot::Open(f),
                )
                &&& same_but_fds(k1.sched.tasks@[i], k.sched.tasks@[i])
                &&& forall|j: int|
                    0 <= j < k.sched.tasks@.len() && j != i
                        ==> #[trigger] k1.sched.tasks@[j] == k.sched.tasks@[j]
            },
        }
    })
}

/// What `sys_lseek` guarantees, from the kernel `k0` before to `k1` after,
/// with result `r`.
pub open spec fn sys_lseek_post(k0: Kernel, k1: Kernel, fd: usize, offset: i64, whence: usize, r: isize) -> bool {
    &&& k1.wf()
    &&& others_same(k0, k1)
    &&& ({
        let k = k0;
        match current_fd(k, fd as int) {
            None => r == EBADF && k1 == k,
            Some(f) => if whence > 2 {
                r == EINVAL && k1 == k
            } else {
                let o: u64 = if whence == 0 {
                    offset as u64
                } else if whence == 1 {
                    wrap64(f.offset + (offset as u64))
                } else {
                    f.offset
                };
                &&& r == o as isize
                &&& fd_updated(
                    k,
                    k1,
                    current_index(k.sched).unwrap(),
                    fd as int,
                    FdSlot::Open(FileDescriptor { offset: o, ..f }),
                )
            },
        }
    })
}

/// What `sys_brk` guarantees, from the kernel `k0` and memory `m0` before
/// to `k1` and `m1` after, with result `r`.
pub open spec fn sys_brk_post(k0: Kernel, k1: Kernel, m0: UserMemory, m1: UserMemory, addr: usize, r: isize) -> bool {
    &&& k1.wf()
    &&& k1.sched == k0.sched
    &&& k1.fs == k0.fs
    &&& m1.bytes@ == m0.bytes@
    &&& m1.base == m0.base
    &&& if addr == 0 {
        r == k0.program_break as isize && k1 == k0 && m1
            == m0
    } else if BRK_START <= addr <= BRK_END {
        &&& r == addr as isize
        &&& k1.program_break == addr
        &&& m1.mapped@ == (if addr > k0.program_break {
            m0.mapped@.push(
                (k0.program_break, (addr - k0.program_break) as u64),
            )
        } else {
            m0.mapped@
        })
    } else {
        r == ENOMEM && k1 == k0 && m1 == m0
    }
}

/// What `sys_mmap` guarantees, from the kernel `k0` and memory `m0` before
/// to `k1` and `m1` after, with result `r`.
pub open spec fn sys_mmap_post(k0: Kernel, k1: Kernel, m0: UserMemory, m1: UserMemory, addr: usize, len: usize, r: isize) -> bool {
    &&& k1.wf()
    &&& k1.sched == k0.sched
    &&& k1.fs == k0.fs
    &&& m1.bytes@ == m0.bytes@
    &&& m1.base == m0.base
    &&& ({
        let pages = page_round(len as int);
        if pages > u64::MAX || (addr == 0 && k0.program_break + pages > u64::MAX) {
            r == ENOMEM && k1 == k0 && m1 == m0
        } else if addr == 0 {
            &&& r == k0.program_break as isize
            &&& k1.program_break == k0.program_break + pages
            &&& m1.mapped@ == m0.mapped@.push(
                (k0.program_break, pages as u64),
            )
        } else {
            &&& r == addr as isize
            &&& k1.program_break == k0.program_break
            &&& m1.mapped@ == m0.mapped@.push((addr as u64, pages as u64))
        }
    })
}

/// What `sys_fork` guarantees, from the kernel `k0` before to `k1` after,
/// with result `r`.
pub open spec fn sys_fork_post(k0: Kernel, k1: Kernel, r: isize) -> bool {
    &&& k1.wf()
    &&& others_same(k0, k1)
    &&& ({
        let k = k0;
        match k.sched.current {
            None => r == EPERM && k1 == k,
            Some(p) => if current_index(k.sched).is_some() && k.sched.next_pid < usize::MAX {
                &&& r == k.sched.next_pid as isize
                &&& admitted(k.sched, k1.sched, k.sched.next_pid)
                &&& k1.sched.tasks@.last().parent_id == p
                &&& k1.sched.tasks@.last().saved_rsp == 0
                &&& k1.sched.tasks@.last().saved_rip == 0
                &&& k1.sched.tasks@.last().fd_table@ == k.sched.tasks@[current_index(
                    k.sched,
                ).unwrap()].fd_table@
                &&& k1.sched.tasks@.last().stack@ == k.sched.tasks@[current_index(
                    k.sched,
                ).unwrap()].stack@
            } else {
                r == ENOMEM && k1 == k
            },
        }
    })
}

/// What `sys_exit` guarantees, from the kernel `k0` before to `k1` after,
/// with result `r`.
pub open spec fn sys_exit_post(k0: Kernel, k1: Kernel, r: Outcome) -> bool {
    &&& k1.wf()
    &&& others_same(k0, k1)
    &&& r == Outcome::Halt
    &&& k1.sched.tasks@.len() == k0.sched.tasks@.len()
    &&& k1.sched.current == k0.sched.current
    &&& k1.sched.run_queue@ == match current_index(k0.sched) {
        Some(i) => k0.sched.run_queue@.filter(|q: Pid| q != k0.sched.tasks@[i].id),
        None => k0.sched.run_queue@,
    }
    &&& forall|j: int|
        0 <= j < k0.sched.tasks@.len() ==> #[trigger] k1.sched.tasks@[j] == if Some(
            j,
        ) == current_index(k0.sched) {
            with_state(k0.sched.tasks@[j], TaskState::Terminated)
        } else {
            k0.sched.tasks@[j]
        }
}

/// What `sys_uname` guarantees, from the kernel `k0` and memory `m0` before
/// to `k1` and `m1` after, with result `r`.
pub open spec fn sys_uname_post(k0: Kernel, k1: Kernel, m0: UserMemory, m1: UserMemory, buf: usize, r: isize) -> bool {
    &&& m1.wf()
    &&& m1.base == m0.base
    &&& m1.mapped@ == m0.mapped@
    &&& if buf == 0 {
        r == 0 && m1 == m0
    } else if !m0.contains(buf as int, UTS_SIZE as int) {
        r == EFAULT && m1 == m0
    } else {
        r == 0 && m1.bytes@ == uname_image(m0.bytes@, buf - m0.base)
    }
    &&& k1 == k0
}

/// What `sys_getcwd` guarantees, from the kernel `k0` and memory `m0` before
/// to `k1` and `m1` after, with result `r`.
pub open spec fn sys_getcwd_post(k0: Kernel, k1: Kernel, m0: UserMemory, m1: UserMemory, buf: usize, size: usize, r: isize) -> bool {
    &&& m1.wf()
    &&& m1.base == m0.base
    &&& m1.mapped@ == m0.mapped@
    &&& if buf == 0 || size <= 1 {
        r == ERANGE && m1 == m0
    } else if !m0.contains(buf as int, 2) {
        r == EFAULT && m1 == m0
    } else {
        r == buf as isize && m1.bytes@ == splice(
            m0.bytes@,
            buf - m0.base,
            seq![0x2fu8, 0u8],
        )
    }
    &&& k1 == k0
}

/// What `sys_fstat` guarantees, from the kernel `k0` and memory `m0` before
/// to `k1` and `m1` after, with result `r`.
pub open spec fn sys_fstat_post(k0: Kernel, k1: Kernel, m0: UserMemory, m1: UserMemory, statbuf: usize, r: isize) -> bool {
    &&& m1.wf()
    &&& m1.base == m0.base
    &&& m1.mapped@ == m0.mapped@
    &&& if statbuf == 0 {
        r == 0 && m1 == m0
    } else if !m0.contains(statbuf as int, STAT_SIZE as int) {
        r == EFAULT && m1 == m0
    } else {
        r == 0 && m1.bytes@ == splice(
            splice(m0.bytes@, statbuf + 8 - m0.base, le_bytes(S_IFREG_0644 as nat, 8)),
            statbuf + 48 - m0.base,
            le_bytes(0, 8),
        )
    }
    &&& k1 == k0
}

/// What `sys_execve` guarantees, from the kernel `k0` and memory `m0` before
/// to `k1` and `m1` after, with result `r`.
pub open spec fn sys_execve_post(k0: Kernel, k1: Kernel, m0: UserMemory, m1: UserMemory, path: usize, argv: usize, envp: usize, r: Outcome) -> bool {
    &&& k1.wf()
    &&& k1 == k0
    &&& m1.wf()
    &&& m1.base == m0.base
    &&& r != Outcome::Halt
    &&& ({
        let k = k0;
        let m = m0;
        match user_cstr(m, path as int) {
            None => r == Outcome::Return(EFAULT) && m1 == m,
            Some(p) => match (if argv == 0 {
                Some(Seq::<Seq<u8>>::empty())
            } else {
                user_argv(m, argv as int)
            }) {
                None => r == Outcome::Return(EFAULT) && m1 == m,
                Some(a) => match (if envp == 0 {
                    Some(Seq::<Seq<u8>>::empty())
                } else {
                    user_argv(m, envp as int)
                }) {
                    None => r == Outcome::Return(EFAULT) && m1 == m,
                    Some(e) => if a.len() + e.len() > usize::MAX {
                        r == Outcome::Return(E2BIG) && m1 == m
                    } else {
                        match open_spec(&k.fs, p) {
                            Err(_) => r == Outcome::Return(ENOENT) && m1 == m,
                            Ok(ino) => {
                                let image = exec_image(k, ino as int);
                                let top = k.user_stack_top as int;
                                let strtop = top - RANDOM_BYTES;
                                let l = a + e;
                                let aux = exec_auxv(image, top);
                                let sp = stack_sp(strtop, a.len(), l, aux);
                                let loaded = loaded_bytes(image, 0, m.base as int, m.bytes@, e_phnum(image) as int);
                                if image.len() == 0 || elf_error(image, 0, m.base as int, m.end()).is_some() {
                                    r == Outcome::Return(ENOEXEC) && m1 == m
                                } else if top < USER_STACK_SIZE {
                                    r == Outcome::Return(EFAULT)
                                } else if strtop <= m.end() && sp >= m.base {
                                    let words = stack_words(strtop, a.len(), l, aux);
                                    &&& r == Outcome::EnterUser { entry: wrap64(e_entry(image) as int), sp: sp as u64 }
                                    &&& sp % 16 == 0
                                    &&& forall|w: int|
                                        0 <= w < words.len() ==> #[trigger] m1.u64_at(sp + 8 * w) == words[w]
                                    &&& forall|j: int, t: int|
                                        0 <= j < l.len() && 0 <= t < l[j].len() ==> #[trigger] m1.byte_at(
                                            str_pos(strtop, l, j) + t,
                                        ) == l[j][t]
                                    &&& forall|j: int|
                                        0 <= j < l.len() ==> #[trigger] m1.byte_at(str_pos(strtop, l, j) + l[j].len()) == 0
                                    &&& forall|x: int|
                                        m.contains(x, 1) && !(sp <= x < strtop) ==> #[trigger] m1.byte_at(x)
                                            == loaded[x - m.base]
                                    &&& m1.mapped@ == m.mapped@ + segment_ranges(
                                        load_segments(image, 0, e_phnum(image) as int),
                                    ).push(((top - USER_STACK_SIZE) as u64, USER_STACK_SIZE))
                                } else {
                                    r == Outcome::Return(EFAULT)
                                }
                            },
                        }
                    },
                },
            },
        }
    })
}

/// The auxiliary vector `execve` passes for `image`, with the stack top
/// `top`: where the program headers are, their size and number, the entry
/// point, the page size, and the 16 bytes just under `top`.
pub open spec fn exec_auxv(image: Seq<u8>, top: int) -> Seq<AuxvEntry> {
    seq![
        AuxvEntry { key: AT_PHDR, val: phdr_address(image, 0, e_phnum(image) as int) },
        AuxvEntry { key: AT_PHENT, val: e_phentsize(image) as u64 },
        AuxvEntry { key: AT_PHNUM, val: e_phnum(image) as u64 },
        AuxvEntry { key: AT_ENTRY, val: wrap64(e_entry(image) as int) },
        AuxvEntry { key: AT_PAGESZ, val: PAGE_SIZE },
        AuxvEntry { key: AT_RANDOM, val: (top - RANDOM_BYTES) as u64 },
    ]
}

/// Bytes kept free under the stack top for `AT_RANDOM` to point at. This
/// kernel has no entropy source: they hold what memory held there.
pub const RANDOM_BYTES: u64 = 16;

/// The page size that `AT_PAGESZ` reports.
pub const PAGE_SIZE: u64 = 4096;


/// Where `execve` puts the new stack.
pub const USER_STACK_TOP: u64 = 0x7FFFFF000000;

/// Size of that stack.
pub const USER_STACK_SIZE: u64 = 8 * 4096;

/// The descriptor open in slot `fd` of the current task, if any.
pub open spec fn current_fd(k: Kernel, fd: int) -> Option<FileDescriptor> {
    match current_index(k.sched) {
        Some(i) => open_in(k.sched.tasks@[i].fd_table@, fd),
        None => None,
    }
}

/// The bytes a read of `count` bytes through `f` transfers.
pub open spec fn transfer(k: Kernel, f: FileDescriptor, count: int) -> Seq<u8> {
    match k.fs.nodes@[f.inode as int].file_content() {
        Some(c) => read_range(c, f.offset as int, count),
        None => Seq::empty(),
    }
}

/// `k` with slot `fd` of the current task (at index `i`) set to `s`, nothing
/// else changed.
pub open spec fn fd_updated(k0: Kernel, k1: Kernel, i: int, fd: int, s: FdSlot) -> bool {
    &&& k1.sched.wf()
    &&& k1.sched.tasks@.len() == k0.sched.tasks@.len()
    &&& same_but_fds(k1.sched.tasks@[i], k0.sched.tasks@[i])
    &&& k1.sched.tasks@[i].fd_table@ == (if fd < k0.sched.tasks@[i].fd_table@.len() {
        k0.sched.tasks@[i].fd_table@.update(fd, s)
    } else {
        k0.sched.tasks@[i].fd_table@
    })
    &&& forall|j: int|
        0 <= j < k0.sched.tasks@.len() && j != i ==> #[trigger] k1.sched.tasks@[j] == k0.sched.tasks@[j]
    &&& k1.sched.run_queue@ == k0.sched.run_queue@
    &&& k1.sched.current == k0.sched.current
    &&& k1.sched.next_pid == k0.sched.next_pid
}

/// Everything but the task table is unchanged.
pub open spec fn others_same(k0: Kernel, k1: Kernel) -> bool {
    &&& k1.fs == k0.fs
    &&& k1.program_break == k0.program_break
    &&& k1.clock == k0.clock
    &&& k1.console@ == k0.console@
    &&& k1.input@ == k0.input@
    &&& k1.user_stack_top == k0.user_stack_top
}

/// `s` holds a NUL at `n` and no NUL before it, all inside memory.
pub open spec fn cstr_len(m: UserMemory, addr: int, n: int) -> bool {
    &&& 0 <= n <= MAX_USER_STRING
    &&& m.contains(addr, n + 1)
    &&& m.byte_at(addr + n) == 0
    &&& forall|j: int| 0 <= j < n ==> #[trigger] m.byte_at(addr + j) != 0
}

/// The NUL-terminated string at `addr`, if it ends within memory and within
/// `MAX_USER_STRING` bytes.
pub open spec fn user_cstr(m: UserMemory, addr: int) -> Option<Seq<u8>> {
    if exists|n: int| cstr_len(m, addr, n) {
        let n = choose|n: int| cstr_len(m, addr, n);
        Some(m.bytes@.subrange(addr - m.base, addr - m.base + n))
    } else {
        None
    }
}

/// Reads the NUL-terminated string at `addr`.
pub fn read_user_cstr(mem: &UserMemory, addr: u64) -> (r: Option<Vec<u8>>)
    requires
        mem.wf(),
    ensures
        r matches Some(v) ==> user_cstr(*mem, addr as int) == Some(v@),
        r is None ==> user_cstr(*mem, addr as int) is None,
{
    let mut out: Vec<u8> = Vec::new();
    let mut k: u64 = 0;
    while k <= MAX_USER_STRING as u64
        invariant
            mem.wf(),
            k <= MAX_USER_STRING + 1,
            out@.len() == k,
            k > 0 ==> mem.contains(addr as int, k as int),
            forall|j: int| 0 <= j < k ==> #[trigger] mem.byte_at(addr + j) != 0,
            forall|j: int| 0 <= j < k ==> out@[j] == mem.byte_at(addr + j),
        decreases MAX_USER_STRING + 1 - k,
    {
        if addr > u64::MAX - k || !mem.in_window(addr + k, 1) {
            proof {
                assert forall|n: int| !cstr_len(*mem, addr as int, n) by {
                    if cstr_len(*mem, addr as int, n) && n >= k {
                        assert(mem.contains(addr + k, 1));
                    } else if cstr_len(*mem, addr as int, n) {
                        assert(mem.byte_at(addr + n) != 0);
                    }
                }
            }
            return None;
        }
        let b = mem.read_byte(addr + k);
        if b == 0 {
            proof {
                assert(cstr_len(*mem, addr as int, k as int));
                let n = choose|n: int| cstr_len(*mem, addr as int, n);
                if n < k {
                    assert(mem.byte_at(addr + n) != 0);
                } else if n > k {
                    assert(mem.byte_at(addr + k) != 0);
                }
                assert(out@ =~= mem.bytes@.subrange(addr - mem.base, addr - mem.base + k));
            }
            return Some(out);
        }
        out.push(b);
        k = k + 1;
    }
    proof {
        assert forall|n: int| !cstr_len(*mem, addr as int, n) by {
            if cstr_len(*mem, addr as int, n) {
                assert(mem.byte_at(addr + n) != 0);
            }
        }
    }
    None
}

impl Kernel {
    pub open spec fn wf(&self) -> bool {
        self.sched.wf() && self.fs.wf()
    }

    /// A kernel with no tasks, the given filesystem and an empty console.
    pub fn new(fs: RamFS) -> (k: Kernel)
        requires
            fs.wf(),
        ensures
            k.wf(),
            k.fs == fs,
            k.sched.tasks@.len() == 0,
            k.sched.current.is_none(),
            k.sched.next_pid == 1,
            k.program_break == BRK_START,
            k.clock == 0,
            k.console@.len() == 0,
            k.input@.len() == 0,
            k.user_stack_top == USER_STACK_TOP,
    {
        Kernel {
            sched: Scheduler::new(),
            fs,
            program_break: BRK_START,
            clock: 0,
            console: Vec::new(),
            input: Vec::new(),
            user_stack_top: USER_STACK_TOP,
        }
    }

    /// Sets slot `fd` of the task at index `i` to `s`.
    fn put_fd(&mut self, i: usize, fd: usize, s: FdSlot)
        requires
            old(self).wf(),
            i < old(self).sched.tasks@.len(),
        ensures
            final(self).wf(),
            fd_updated(*old(self), *final(self), i as int, fd as int, s),
            others_same(*old(self), *final(self)),
    {
        let mut fds = self.sched.fd_table_of(i);
        if fd < fds.len() {
            fds.set(fd, s);
        }
        self.sched.set_fd_table(i, fds);
    }

    /// `read(fd, buf, count)`: reads from the descriptor's inode at its offset
    /// into user memory and advances the offset by the bytes read.
    pub fn sys_read(&mut self, mem: &mut UserMemory, fd: usize, buf: usize, count: usize) -> (r: isize)
        requires
            old(self).wf(),
            old(mem).wf(),
        ensures
            final(self).wf(),
            sys_read_post(*old(self), *final(self), *old(mem), *final(mem), fd, buf, count, r),
            final(mem).wf(),
            final(mem).base == old(mem).base,
    {
        if fd == 1 || fd == 2 {
            if count > isize::MAX as usize {
                return EINVAL;
            }
            if !mem.in_window(buf as u64, count as u64) {
                return EFAULT;
            }
            let avail = self.input.len();
            let n = if count < avail {
                count
            } else {
                avail
            };
            mem.write_bytes(buf as u64, self.input.as_slice(), 0, n);
            let mut rest: Vec<u8> = Vec::new();
            let mut k: usize = n;
            while k < avail
                invariant
                    n <= k <= avail,
                    avail == self.input@.len(),
                    rest@ == self.input@.subrange(n as int, k as int),
                decreases avail - k,
            {
                rest.push(self.input[k]);
                k = k + 1;
                assert(rest@ =~= self.input@.subrange(n as int, k as int));
            }
            self.input = rest;
            return n as isize;
        }
        let i = match self.sched.current_task() {
            Some(i) => i,
            None => {
                return EBADF;
            },
        };
        let f = match self.sched.tasks[i].get_file(fd) {
            Some(f) => f,
            None => {
                return EBADF;
            },
        };
        if f.inode >= self.fs.nodes.len() {
            return EBADF;
        }
        if count > isize::MAX as usize {
            return EINVAL;
        }
        if !mem.in_window(buf as u64, count as u64) {
            return EFAULT;
        }
        let data = self.fs.read_at(f.inode, f.offset, count);
        mem.write_bytes(buf as u64, data.as_slice(), 0, data.len());
        proof {
            assert(data@.subrange(0, data@.len() as int) =~= data@);
        }
        let n = data.len();
        proof {
            if n > 0 {
                let c = self.fs.nodes@[f.inode as int].file_content().unwrap();
                assert(c.len() <= usize::MAX);
                assert(f.offset + n <= c.len());
            }
        }
        let nf = FileDescriptor { offset: f.offset + n as u64, ..f };
        self.put_fd(i, fd, FdSlot::Open(nf));
        n as isize
    }

    /// `write(fd, buf, count)`: descriptors 1 and 2 go to the console;
    /// others write to the descriptor's inode at its offset and advance it by
    /// the bytes written.
    pub fn sys_write(&mut self, mem: &UserMemory, fd: usize, buf: usize, count: usize) -> (r: isize)
        requires
            old(self).wf(),
            mem.wf(),
        ensures
            final(self).wf(),
            sys_write_post(*old(self), *final(self), *mem, *mem, fd, buf, count, r),
    {
        if fd == 1 || fd == 2 {
            if count > isize::MAX as usize {
                return EINVAL;
            }
            if !mem.in_window(buf as u64, count as u64) {
                return EFAULT;
            }
            let start = (buf as u64 - mem.base) as usize;
            let mut k: usize = 0;
            let ghost c0 = self.console@;
            let size = mem.bytes.len();
            while k < count
                invariant
                    k <= count,
                    size == mem.bytes@.len(),
                    start + count <= mem.bytes@.len(),
                    start == buf - mem.base,
                    self.console@ == c0 + mem.bytes@.subrange(start as int, start + k),
                    self.sched == old(self).sched,
                    self.fs == old(self).fs,
                    self.input@ == old(self).input@,
                    self.program_break == old(self).program_break,
                    self.clock == old(self).clock,
                    self.user_stack_top == old(self).user_stack_top,
                decreases count - k,
            {
                self.console.push(mem.bytes[start + k]);
                k = k + 1;
                assert(self.console@ =~= c0 + mem.bytes@.subrange(start as int, start + k));
            }
            return count as isize;
        }
        let i = match self.sched.current_task() {
            Some(i) => i,
            None => {
                return EBADF;
            },
        };
        let f = match self.sched.tasks[i].get_file(fd) {
            Some(f) => f,
            None => {
                return EBADF;
            },
        };
        if f.inode >= self.fs.nodes.len() {
            return EBADF;
        }
        if count > isize::MAX as usize {
            return EINVAL;
        }
        if !mem.in_window(buf as u64, count as u64) {
            return EFAULT;
        }
        let start = (buf as u64 - mem.base) as usize;
        let size = mem.bytes.len();
        let mut data: Vec<u8> = Vec::new();
        let mut k: usize = 0;
        while k < count
            invariant
                k <= count,
                size == mem.bytes@.len(),
                start + count <= mem.bytes@.len(),
                data@ == mem.bytes@.subrange(start as int, start + k),
            decreases count - k,
        {
            data.push(mem.bytes[start + k]);
            k = k + 1;
            assert(data@ =~= mem.bytes@.subrange(start as int, start + k));
        }
        let ghost fs0 = self.fs;
        let n = self.fs.write_at(f.inode, f.offset, data.as_slice());
        proof {
            match fs0.nodes@[f.inode as int].file_content() {
                Some(c) => {
                    if f.offset + count <= usize::MAX {
                        assert(n == count);
                    } else {
                        assert(n == 0);
                    }
                },
                None => {
                    assert(n == 0);
                },
            }
        }
        let nf = FileDescriptor { offset: f.offset + n as u64, ..f };
        let ghost k1 = *self;
        self.put_fd(i, fd, FdSlot::Open(nf));
        proof {
            assert(fd_updated(*old(self), *self, i as int, fd as int, FdSlot::Open(nf)));
            assert(self.fs == k1.fs);
            assert(self.console@ == old(self).console@);
        }
        n as isize
    }

    /// `open(path, flags)`: resolves the path and puts a descriptor at offset
    /// 0 in the current task's lowest free slot.
    pub fn sys_open(&mut self, mem: &UserMemory, path: usize, flags: usize) -> (r: isize)
        requires
            old(self).wf(),
            mem.wf(),
        ensures
            final(self).wf(),
            sys_open_post(*old(self), *final(self), *mem, *mem, path, flags, r),
    {
        let name = match read_user_cstr(mem, path as u64) {
            Some(n) => n,
            None => {
                return ENOENT;
            },
        };
        let ino = match open(&self.fs, name.as_slice()) {
            Ok(ino) => ino,
            Err(_) => {
                return ENOENT;
            },
        };
        let i = match self.sched.current_task() {
            Some(i) => i,
            None => {
                return EPERM;
            },
        };
        if self.sched.tasks[i].fd_table.len() == usize::MAX {
            return ENOMEM;
        }
        let f = FileDescriptor { inode: ino, offset: 0, flags: flags as u32 };
        let r = self.sched.add_file_at(i, f);
        r as isize
    }

    /// `close(fd)`: frees slot `fd` of the current task.
    pub fn sys_close(&mut self, fd: usize) -> (r: isize)
        requires
            old(self).wf(),
        ensures
            final(self).wf(),
            sys_close_post(*old(self), *final(self), fd, r),
    {
        let i = match self.sched.current_task() {
            Some(i) => i,
            None => {
                return EBADF;
            },
        };
        if fd < self.sched.tasks[i].fd_table.len() {
            self.put_fd(i, fd, FdSlot::Free);
            0
        } else {
            EBADF
        }
    }

    /// `dup(oldfd)`: copies the descriptor into the lowest free slot.
    pub fn sys_dup(&mut self, oldfd: usize) -> (r: isize)
        requires
            old(self).wf(),
        ensures
            final(self).wf(),
            sys_dup_post(*old(self), *final(self), oldfd, r),
    {
        let i = match self.sched.current_task() {
            Some(i) => i,
            None => {
                return EBADF;
            },
        };
        let f = match self.sched.tasks[i].get_file(oldfd) {
            Some(f) => f,
            None => {
                return EBADF;
            },
        };
        if self.sched.tasks[i].fd_table.len() == usize::MAX {
            return ENOMEM;
        }
        let r = self.sched.add_file_at(i, f);
        r as isize
    }

    /// `dup2(oldfd, newfd)`: copies the descriptor into slot `newfd`, growing
    /// the table with free slots as needed. Only a table that cannot grow to
    /// `newfd + 1` slots refuses, with `ENOMEM`.
    pub fn sys_dup2(&mut self, oldfd: usize, newfd: usize) -> (r: isize)
        requires
            old(self).wf(),
        ensures
            final(self).wf(),
            sys_dup2_post(*old(self), *final(self), oldfd, newfd, r),
    {
        let i = match self.sched.current_task() {
            Some(i) => i,
            None => {
                return EBADF;
            },
        };
        let f = match self.sched.tasks[i].get_file(oldfd) {
            Some(f) => f,
            None => {
                return EBADF;
            },
        };
        if newfd == usize::MAX {
            return ENOMEM;
        }
        let mut fds = self.sched.fd_table_of(i);
        let ghost t = fds@;
        while fds.len() <= newfd
            invariant
                newfd < usize::MAX,
                t.len() <= fds@.len(),
                fds@.len() <= t.len() || fds@.len() <= newfd + 1,
                forall|x: int| 0 <= x < t.len() ==> fds@[x] == t[x],
                forall|x: int| t.len() <= x < fds@.len() ==> fds@[x] == FdSlot::Free,
            decreases newfd + 1 - fds@.len(),
        {
            fds.push(FdSlot::Free);
        }
        assert(fds@ =~= grown(t, newfd + 1));
        fds.set(newfd, FdSlot::Open(f));
        self.sched.set_fd_table(i, fds);
        newfd as isize
    }

    /// `lseek(fd, offset, whence)`: sets the offset (`SEEK_SET`), moves it
    /// (`SEEK_CUR`, wrapping) or leaves it (`SEEK_END`, whose file size is not
    /// consulted), and returns it.
    pub fn sys_lseek(&mut self, fd: usize, offset: i64, whence: usize) -> (r: isize)
        requires
            old(self).wf(),
        ensures
            final(self).wf(),
            sys_lseek_post(*old(self), *final(self), fd, offset, whence, r),
    {
        let i = match self.sched.current_task() {
            Some(i) => i,
            None => {
                return EBADF;
            },
        };
        let f = match self.sched.tasks[i].get_file(fd) {
            Some(f) => f,
            None => {
                return EBADF;
            },
        };
        let o: u64 = if whence == 0 {
            offset as u64
        } else if whence == 1 {
            wrap_add(f.offset, offset as u64)
        } else if whence == 2 {
            f.offset
        } else {
            return EINVAL;
        };
        self.put_fd(i, fd, FdSlot::Open(FileDescriptor { offset: o, ..f }));
        o as isize
    }

    /// `brk(addr)`: 0 queries the break; an address inside the break window
    /// moves it there, mapping what it grows by.
    pub fn sys_brk(&mut self, mem: &mut UserMemory, addr: usize) -> (r: isize)
        requires
            old(self).wf(),
            old(mem).wf(),
        ensures
            final(self).wf(),
            sys_brk_post(*old(self), *final(self), *old(mem), *final(mem), addr, r),
            final(mem).wf(),
            final(mem).base == old(mem).base,
    {
        if addr == 0 {
            return self.program_break as isize;
        }
        let a = addr as u64;
        if a >= BRK_START && a <= BRK_END {
            let old_break = self.program_break;
            if a > old_break {
                mem.make_user_accessible(old_break, a - old_break);
            }
            self.program_break = a;
            return addr as isize;
        }
        ENOMEM
    }

    /// `mmap(addr, len, prot)`: anonymous mappings only. Address 0 takes the
    /// next `len` bytes, rounded up to pages, from the program break; another
    /// address is mapped as asked.
    pub fn sys_mmap(&mut self, mem: &mut UserMemory, addr: usize, len: usize, prot: usize) -> (r: isize)
        requires
            old(self).wf(),
            old(mem).wf(),
        ensures
            final(self).wf(),
            sys_mmap_post(*old(self), *final(self), *old(mem), *final(mem), addr, len, r),
            final(mem).wf(),
            final(mem).base == old(mem).base,
    {
        let l = len as u64;
        if l > u64::MAX - 4095 {
            return ENOMEM;
        }
        let pages = (l + 4095) / 4096 * 4096;
        if addr == 0 {
            if self.program_break > u64::MAX - pages {
                return ENOMEM;
            }
            let start = self.program_break;
            self.program_break = start + pages;
            mem.make_user_accessible(start, pages);
            return start as isize;
        }
        mem.make_user_accessible(addr as u64, pages);
        addr as isize
    }

    /// `getpid()`: the current task's pid, or 1 when there is none.
    pub fn sys_getpid(&self) -> (r: isize)
        ensures
            r == match self.sched.current {
                Some(p) => p as isize,
                None => 1,
            },
    {
        match self.sched.current {
            Some(p) => p as isize,
            None => 1,
        }
    }

    /// `fork()`: queues a duplicate of the current task under a new pid and
    /// returns that pid. The child's saved context is zero.
    pub fn sys_fork(&mut self) -> (r: isize)
        requires
            old(self).wf(),
        ensures
            final(self).wf(),
            sys_fork_post(*old(self), *final(self), r),
    {
        let p = match self.sched.current {
            Some(p) => p,
            None => {
                return EPERM;
            },
        };
        match self.sched.fork(p, 0, 0) {
            Some(c) => c as isize,
            None => ENOMEM,
        }
    }

    /// `exit(code)`: the current task becomes terminated and stops running.
    pub fn sys_exit(&mut self, code: usize) -> (r: Outcome)
        requires
            old(self).wf(),
        ensures
            final(self).wf(),
            sys_exit_post(*old(self), *final(self), r),
    {
        if let Some(i) = self.sched.current_task() {
            self.sched.terminate_at(i);
        }
        Outcome::Halt
    }

    /// `ioctl(fd, cmd, arg)`: terminal queries succeed; other commands are
    /// refused.
    pub fn sys_ioctl(&self, fd: usize, cmd: usize, arg: usize) -> (r: isize)
        ensures
            r == (if cmd == TCGETS || cmd == TCSETS || cmd == TIOCGWINSZ {
                0
            } else {
                ENOTTY
            }),
    {
        if cmd == TCGETS || cmd == TCSETS || cmd == TIOCGWINSZ {
            0
        } else {
            ENOTTY
        }
    }

    /// `gettimeofday(tv, tz)`: advances the clock by one and stores it as
    /// seconds, with zero microseconds, at `tv` (when not null).
    pub fn sys_gettimeofday(&mut self, mem: &mut UserMemory, tv: usize, tz: usize) -> (r: isize)
        requires
            old(self).wf(),
            old(mem).wf(),
        ensures
            final(self).wf(),
            clock_stored(*old(self), *final(self), *old(mem), *final(mem), tv as int, r),
    {
        self.store_clock(mem, tv)
    }

    /// `clock_gettime(clock, tp)`: as `gettimeofday`, for any clock.
    pub fn sys_clock_gettime(&mut self, mem: &mut UserMemory, clock: usize, tp: usize) -> (r: isize)
        requires
            old(self).wf(),
            old(mem).wf(),
        ensures
            final(self).wf(),
            clock_stored(*old(self), *final(self), *old(mem), *final(mem), tp as int, r),
    {
        self.store_clock(mem, tp)
    }

    fn store_clock(&mut self, mem: &mut UserMemory, at: usize) -> (r: isize)
        requires
            old(self).wf(),
            old(mem).wf(),
        ensures
            final(self).wf(),
            clock_stored(*old(self), *final(self), *old(mem), *final(mem), at as int, r),
    {
        if at == 0 {
            return 0;
        }
        if !mem.in_window(at as u64, 16) {
            return EFAULT;
        }
        let now = wrap_add(self.clock, 1);
        self.clock = now;
        mem.write_u64(at as u64, now);
        mem.write_u64(at as u64 + 8, 0);
        0
    }

    /// `uname(buf)`: stores the five fixed 65-byte identification fields at
    /// `buf` (when not null).
    pub fn sys_uname(&self, mem: &mut UserMemory, buf: usize) -> (r: isize)
        requires
            old(mem).wf(),
        ensures
            sys_uname_post(*self, *self, *old(mem), *final(mem), buf, r),
            final(mem).wf(),
            final(mem).base == old(mem).base,
    {
        if buf == 0 {
            return 0;
        }
        if !mem.in_window(buf as u64, UTS_SIZE) {
            return EFAULT;
        }
        let b = buf as u64;
        let f0: Vec<u8> = vec![65u8, 101, 116, 104, 101, 114, 0];
        let f1: Vec<u8> = vec![97u8, 101, 116, 104, 101, 114, 0];
        let f2: Vec<u8> = vec![48u8, 46, 49, 46, 48, 0];
        let f3: Vec<u8> = vec![35u8, 49, 32, 83, 77, 80, 0];
        let f4: Vec<u8> = vec![120u8, 56, 54, 95, 54, 52, 0];
        mem.write_bytes(b, f0.as_slice(), 0, f0.len());
        mem.write_bytes(b + 65, f1.as_slice(), 0, f1.len());
        mem.write_bytes(b + 130, f2.as_slice(), 0, f2.len());
        mem.write_bytes(b + 195, f3.as_slice(), 0, f3.len());
        mem.write_bytes(b + 260, f4.as_slice(), 0, f4.len());
        proof {
            assert(f0@.subrange(0, 7) =~= uts_sysname());
            assert(f1@.subrange(0, 7) =~= uts_nodename());
            assert(f2@.subrange(0, 6) =~= uts_release());
            assert(f3@.subrange(0, 7) =~= uts_version());
            assert(f4@.subrange(0, 7) =~= uts_machine());
        }
        0
    }

    /// `getcwd(buf, size)`: the working directory is always `/`.
    pub fn sys_getcwd(&self, mem: &mut UserMemory, buf: usize, size: usize) -> (r: isize)
        requires
            old(mem).wf(),
        ensures
            sys_getcwd_post(*self, *self, *old(mem), *final(mem), buf, size, r),
            final(mem).wf(),
            final(mem).base == old(mem).base,
    {
        if buf == 0 || size <= 1 {
            return ERANGE;
        }
        if !mem.in_window(buf as u64, 2) {
            return EFAULT;
        }
        let root: Vec<u8> = vec![0x2fu8, 0];
        mem.write_bytes(buf as u64, root.as_slice(), 0, 2);
        proof {
            assert(root@.subrange(0, 2) =~= seq![0x2fu8, 0u8]);
        }
        buf as isize
    }

    /// `fstat(fd, statbuf)`: reports a regular file of size 0 (when `statbuf`
    /// is not null).
    pub fn sys_fstat(&self, mem: &mut UserMemory, fd: usize, statbuf: usize) -> (r: isize)
        requires
            old(mem).wf(),
        ensures
            sys_fstat_post(*self, *self, *old(mem), *final(mem), statbuf, r),
            final(mem).wf(),
            final(mem).base == old(mem).base,
    {
        if statbuf == 0 {
            return 0;
        }
        if !mem.in_window(statbuf as u64, STAT_SIZE) {
            return EFAULT;
        }
        mem.write_u64(statbuf as u64 + 8, S_IFREG_0644);
        mem.write_u64(statbuf as u64 + 48, 0);
        0
    }

    /// `stat(path, statbuf)`: accepted and not filled in.
    pub fn sys_stat(&self, path: usize, statbuf: usize) -> (r: isize)
        ensures
            r == 0,
    {
        0
    }

    /// `pipe(fds)`: not provided.
    pub fn sys_pipe(&self, fds: usize) -> (r: isize)
        ensures
            r == ENOSYS,
    {
        ENOSYS
    }

    /// `munmap(addr, len)`: mappings are never taken back.
    pub fn sys_munmap(&self, addr: usize, len: usize) -> (r: isize)
        ensures
            r == 0,
    {
        0
    }

    /// `wait4(pid, status, options)`: there is never a child to wait for.
    pub fn sys_wait4(&self, pid: i32, status: usize, options: usize) -> (r: isize)
        ensures
            r == ECHILD,
    {
        ECHILD
    }

    /// `nanosleep(req, rem)`: returns at once.
    pub fn sys_nanosleep(&self, req: usize, rem: usize) -> (r: isize)
        ensures
            r == 0,
    {
        0
    }

    /// `chdir(path)`: the working directory stays `/`.
    pub fn sys_chdir(&self, path: usize) -> (r: isize)
        ensures
            r == 0,
    {
        0
    }

    /// The single user is root.
    pub fn sys_getuid(&self) -> (r: isize)
        ensures
            r == 0,
    {
        0
    }

    pub fn sys_getgid(&self) -> (r: isize)
        ensures
            r == 0,
    {
        0
    }

    pub fn sys_geteuid(&self) -> (r: isize)
        ensures
            r == 0,
    {
        0
    }

    pub fn sys_getegid(&self) -> (r: isize)
        ensures
            r == 0,
    {
        0
    }

    /// `clone(flags, stack, parent_tid)`: a `fork`; the arguments are not used.
    pub fn sys_clone(&mut self, flags: usize, stack: usize, parent_tid: usize) -> (r: isize)
        requires
            old(self).wf(),
        ensures
            final(self).wf(),
            sys_fork_post(*old(self), *final(self), r),
    {
        self.sys_fork()
    }

    /// `execve(path, argv, envp)`: reads the path, the argument strings and
    /// the environment strings, loads the file's image at address 0, maps and
    /// builds a new stack with the strings and the auxiliary vector of
    /// `exec_auxv` below 16 bytes left free under the stack top, and enters
    /// user mode at the image's entry point.
    pub fn sys_execve(&mut self, mem: &mut UserMemory, path: usize, argv: usize, envp: usize) -> (r:
        Outcome)
        requires
            old(self).wf(),
            old(mem).wf(),
        ensures
            final(self).wf(),
            sys_execve_post(*old(self), *final(self), *old(mem), *final(mem), path, argv, envp, r),
            final(mem).wf(),
            final(mem).base == old(mem).base,
    {
        let name = match read_user_cstr(mem, path as u64) {
            Some(n) => n,
            None => {
                return Outcome::Return(EFAULT);
            },
        };
        let args: Vec<Vec<u8>> = if argv == 0 {
            Vec::new()
        } else {
            match read_user_argv(mem, argv as u64) {
                Some(a) => a,
                None => {
                    return Outcome::Return(EFAULT);
                },
            }
        };
        let envs: Vec<Vec<u8>> = if envp == 0 {
            Vec::new()
        } else {
            match read_user_argv(mem, envp as u64) {
                Some(e) => e,
                None => {
                    return Outcome::Return(EFAULT);
                },
            }
        };
        proof {
            if argv == 0 {
                assert(vec_views(args@) =~= Seq::<Seq<u8>>::empty());
            }
            if envp == 0 {
                assert(vec_views(envs@) =~= Seq::<Seq<u8>>::empty());
            }
        }
        if args.len() > usize::MAX - envs.len() {
            return Outcome::Return(E2BIG);
        }
        let ino = match open(&self.fs, name.as_slice()) {
            Ok(i) => i,
            Err(_) => {
                return Outcome::Return(ENOENT);
            },
        };
        let image = self.fs.read_at(ino, 0, EXEC_MAX);
        if image.len() == 0 {
            return Outcome::Return(ENOEXEC);
        }
        let loaded = match load_elf(image.as_slice(), 0, mem) {
            Ok(l) => l,
            Err(_) => {
                return Outcome::Return(ENOEXEC);
            },
        };
        let top = self.user_stack_top;
        if top < USER_STACK_SIZE {
            return Outcome::Return(EFAULT);
        }
        mem.make_user_accessible(top - USER_STACK_SIZE, USER_STACK_SIZE);
        let random_at = top - RANDOM_BYTES;
        let aux: Vec<AuxvEntry> = vec![
            AuxvEntry { key: AT_PHDR, val: loaded.phdr_vaddr },
            AuxvEntry { key: AT_PHENT, val: loaded.phentsize as u64 },
            AuxvEntry { key: AT_PHNUM, val: loaded.phnum as u64 },
            AuxvEntry { key: AT_ENTRY, val: loaded.entry_point },
            AuxvEntry { key: AT_PAGESZ, val: PAGE_SIZE },
            AuxvEntry { key: AT_RANDOM, val: random_at },
        ];
        proof {
            assert(stack_strings(args@, envs@) =~= vec_views(args@) + vec_views(envs@));
            assert(aux@ =~= exec_auxv(image@, top as int));
        }
        match setup_user_stack(top - RANDOM_BYTES, &args, &envs, &aux, mem) {
            Some(sp) => Outcome::EnterUser { entry: loaded.entry_point, sp },
            None => Outcome::Return(EFAULT),
        }
    }

    /// Decodes system call `nr` with its arguments and runs its handler.
    /// Unknown numbers return `ENOSYS` and change nothing.
    pub fn dispatch(&mut self, mem: &mut UserMemory, nr: usize, arg0: usize, arg1: usize, arg2: usize) -> (r:
        Outcome)
        requires
            old(self).wf(),
            old(mem).wf(),
        ensures
            final(self).wf(),
            final(mem).wf(),
            final(mem).base == old(mem).base,
            !is_implemented(nr) ==> r == Outcome::Return(ENOSYS) && *final(self) == *old(self) && *final(mem) == *old(mem),
            nr != SYS_EXIT && nr != SYS_EXECVE ==> r is Return,
            nr == SYS_READ ==> (r matches Outcome::Return(v) && sys_read_post(*old(self), *final(self), *old(mem), *final(mem), arg0, arg1, arg2, v)),
            nr == SYS_WRITE ==> (r matches Outcome::Return(v) && sys_write_post(*old(self), *final(self), *old(mem), *final(mem), arg0, arg1, arg2, v)),
            nr == SYS_OPEN ==> (r matches Outcome::Return(v) && sys_open_post(*old(self), *final(self), *old(mem), *final(mem), arg0, arg1, v)),
            nr == SYS_CLOSE ==> (r matches Outcome::Return(v) && sys_close_post(*old(self), *final(self), arg0, v) && *final(mem) == *old(mem)),
            nr == SYS_DUP ==> (r matches Outcome::Return(v) && sys_dup_post(*old(self), *final(self), arg0, v) && *final(mem) == *old(mem)),
            nr == SYS_DUP2 ==> (r matches Outcome::Return(v) && sys_dup2_post(*old(self), *final(self), arg0, arg1, v) && *final(mem) == *old(mem)),
            nr == SYS_LSEEK ==> (r matches Outcome::Return(v) && sys_lseek_post(*old(self), *final(self), arg0, arg1 as i64, arg2, v) && *final(mem) == *old(mem)),
            nr == SYS_BRK ==> (r matches Outcome::Return(v) && sys_brk_post(*old(self), *final(self), *old(mem), *final(mem), arg0, v)),
            nr == SYS_MMAP ==> (r matches Outcome::Return(v) && sys_mmap_post(*old(self), *final(self), *old(mem), *final(mem), arg0, arg1, v)),
            nr == SYS_FORK || nr == SYS_CLONE ==> (r matches Outcome::Return(v) && sys_fork_post(*old(self), *final(self), v) && *final(mem) == *old(mem)),
            nr == SYS_GETTIMEOFDAY ==> (r matches Outcome::Return(v) && clock_stored(*old(self), *final(self), *old(mem), *final(mem), arg0 as int, v)),
            nr == SYS_CLOCK_GETTIME ==> (r matches Outcome::Return(v) && clock_stored(*old(self), *final(self), *old(mem), *final(mem), arg1 as int, v)),
            nr == SYS_UNAME ==> (r matches Outcome::Return(v) && sys_uname_post(*old(self), *final(self), *old(mem), *final(mem), arg0, v)),
            nr == SYS_GETCWD ==> (r matches Outcome::Return(v) && sys_getcwd_post(*old(self), *final(self), *old(mem), *final(mem), arg0, arg1, v)),
            nr == SYS_FSTAT ==> (r matches Outcome::Return(v) && sys_fstat_post(*old(self), *final(self), *old(mem), *final(mem), arg1, v)),
            nr == SYS_EXIT ==> sys_exit_post(*old(self), *final(self), r) && *final(mem) == *old(mem),
            nr == SYS_EXECVE ==> sys_execve_post(*old(self), *final(self), *old(mem), *final(mem), arg0, arg1, arg2, r),
            nr == SYS_IOCTL ==> r == Outcome::Return(if arg1 == TCGETS || arg1 == TCSETS || arg1 == TIOCGWINSZ { 0 } else { ENOTTY })
                && *final(self) == *old(self) && *final(mem) == *old(mem),
            nr == SYS_GETPID ==> r == Outcome::Return(old(self).sys_getpid_spec()) && *final(self) == *old(self) && *final(mem) == *old(mem),
            nr == SYS_GETUID || nr == SYS_GETGID || nr == SYS_GETEUID || nr == SYS_GETEGID || nr == SYS_STAT
                || nr == SYS_MUNMAP || nr == SYS_NANOSLEEP || nr == SYS_CHDIR ==> r == Outcome::Return(0) && *final(self) == *old(self) && *final(mem) == *old(mem),
            nr == SYS_PIPE ==> r == Outcome::Return(ENOSYS) && *final(self) == *old(self) && *final(mem) == *old(mem),
            nr == SYS_WAIT4 ==> r == Outcome::Return(ECHILD) && *final(self) == *old(self) && *final(mem) == *old(mem),
    {
        let ret: isize = if nr == SYS_READ {
            self.sys_read(mem, arg0, arg1, arg2)
        } else if nr == SYS_WRITE {
            self.sys_write(mem, arg0, arg1, arg2)
        } else if nr == SYS_OPEN {
            self.sys_open(mem, arg0, arg1)
        } else if nr == SYS_CLOSE {
            self.sys_close(arg0)
        } else if nr == SYS_STAT {
            self.sys_stat(arg0, arg1)
        } else if nr == SYS_FSTAT {
            self.sys_fstat(mem, arg0, arg1)
        } else if nr == SYS_LSEEK {
            self.sys_lseek(arg0, arg1 as i64, arg2)
        } else if nr == SYS_MMAP {
            self.sys_mmap(mem, arg0, arg1, arg2)
        } else if nr == SYS_MUNMAP {
            self.sys_munmap(arg0, arg1)
        } else if nr == SYS_BRK {
            self.sys_brk(mem, arg0)
        } else if nr == SYS_IOCTL {
            self.sys_ioctl(arg0, arg1, arg2)
        } else if nr == SYS_DUP {
            self.sys_dup(arg0)
        } else if nr == SYS_DUP2 {
            self.sys_dup2(arg0, arg1)
        } else if nr == SYS_PIPE {
            self.sys_pipe(arg0)
        } else if nr == SYS_GETPID {
            self.sys_getpid()
        } else if nr == SYS_FORK {
            self.sys_fork()
        } else if nr == SYS_CLONE {
            self.sys_clone(arg0, arg1, arg2)
        } else if nr == SYS_EXECVE {
            return self.sys_execve(mem, arg0, arg1, arg2);
        } else if nr == SYS_EXIT {
            return self.sys_exit(arg0);
        } else if nr == SYS_WAIT4 {
            self.sys_wait4(arg0 as i32, arg1, arg2)
        } else if nr == SYS_GETTIMEOFDAY {
            self.sys_gettimeofday(mem, arg0, arg1)
        } else if nr == SYS_NANOSLEEP {
            self.sys_nanosleep(arg0, arg1)
        } else if nr == SYS_CLOCK_GETTIME {
            self.sys_clock_gettime(mem, arg0, arg1)
        } else if nr == SYS_UNAME {
            self.sys_uname(mem, arg0)
        } else if nr == SYS_GETCWD {
            self.sys_getcwd(mem, arg0, arg1)
        } else if nr == SYS_CHDIR {
            self.sys_chdir(arg0)
        } else if nr == SYS_GETUID {
            self.sys_getuid()
        } else if nr == SYS_GETGID {
            self.sys_getgid()
        } else if nr == SYS_GETEUID {
            self.sys_geteuid()
        } else if nr == SYS_GETEGID {
            self.sys_getegid()
        } else {
            ENOSYS
        };
        Outcome::Return(ret)
    }

    /// What `getpid` returns.
    pub open spec fn sys_getpid_spec(&self) -> isize {
        match self.sched.current {
            Some(p) => p as isize,
            None => 1,
        }
    }
}

} // verus!
