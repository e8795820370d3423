use aether_kernel::fs::init as fs_init;
use aether_kernel::memory::UserMemory;
use aether_kernel::sched::init as sched_init;
use aether_kernel::syscall::{
    Kernel, Outcome, EBADF, ECHILD, EFAULT, EINVAL, ENOENT, ENOEXEC, ENOMEM, ENOSYS, ENOTTY, ERANGE,
    SYS_BRK, SYS_CLOCK_GETTIME, SYS_CLOSE, SYS_DUP, SYS_DUP2, SYS_EXECVE, SYS_EXIT, SYS_FORK,
    SYS_FSTAT, SYS_GETCWD, SYS_GETPID, SYS_GETTIMEOFDAY, SYS_GETUID, SYS_IOCTL, SYS_LSEEK, SYS_MMAP,
    SYS_OPEN, SYS_PIPE, SYS_READ, SYS_UNAME, SYS_WAIT4, SYS_WRITE,
};
use aether_kernel::task::{FdSlot, TaskState};

const MEM: u64 = 0x1000;
const PATH: usize = 0x1000;
const BUF: usize = 0x1100;

/// A kernel whose filesystem holds `/init` = `content`, with pid 1 current,
/// and user memory at 0x1000 holding the string "/init".
fn setup(content: &[u8]) -> (Kernel, UserMemory) {
    let mut k = Kernel::new(fs_init(content.to_vec()));
    k.sched = sched_init();
    let mut mem = UserMemory::new(MEM, 0x1000);
    mem.write_bytes(PATH as u64, b"/init\0", 0, 6);
    (k, mem)
}

fn ret(o: Outcome) -> isize {
    match o {
        Outcome::Return(v) => v,
        other => panic!("unexpected {:?}", other),
    }
}

fn offset_of(k: &Kernel, fd: usize) -> u64 {
    k.sched.tasks[0].get_file(fd).unwrap().offset
}

#[test]
fn read_advances_offset_by_bytes_read() {
    let (mut k, mut mem) = setup(b"hello world");
    let fd = ret(k.dispatch(&mut mem, SYS_OPEN, PATH, 0, 0));
    assert_eq!(fd, 3);
    assert_eq!(ret(k.dispatch(&mut mem, SYS_READ, 3, BUF, 5)), 5);
    assert_eq!(offset_of(&k, 3), 5);
    assert_eq!(&mem.bytes[0x100..0x105], b"hello");
    assert_eq!(ret(k.dispatch(&mut mem, SYS_READ, 3, BUF, 100)), 6);
    assert_eq!(offset_of(&k, 3), 11);
    assert_eq!(&mem.bytes[0x100..0x106], b" world");
    assert_eq!(ret(k.dispatch(&mut mem, SYS_READ, 3, BUF, 100)), 0);
    assert_eq!(offset_of(&k, 3), 11);
}

#[test]
fn write_advances_offset_by_bytes_written() {
    let (mut k, mut mem) = setup(b"abc");
    ret(k.dispatch(&mut mem, SYS_OPEN, PATH, 0, 0));
    mem.write_bytes(BUF as u64, b"XY", 0, 2);
    assert_eq!(ret(k.dispatch(&mut mem, SYS_WRITE, 3, BUF, 2)), 2);
    assert_eq!(offset_of(&k, 3), 2);
    assert_eq!(k.fs.read_at(1, 0, 10), b"XYc".to_vec());
    assert_eq!(ret(k.dispatch(&mut mem, SYS_WRITE, 3, BUF, 2)), 2);
    assert_eq!(offset_of(&k, 3), 4);
    assert_eq!(k.fs.read_at(1, 0, 10), b"XYXY".to_vec());
}

#[test]
fn empty_slots_give_ebadf() {
    let (mut k, mut mem) = setup(b"abc");
    assert_eq!(ret(k.dispatch(&mut mem, SYS_READ, 0, BUF, 1)), EBADF);
    assert_eq!(ret(k.dispatch(&mut mem, SYS_READ, 3, BUF, 1)), EBADF);
    assert_eq!(ret(k.dispatch(&mut mem, SYS_WRITE, 3, BUF, 1)), EBADF);
    assert_eq!(ret(k.dispatch(&mut mem, SYS_WRITE, 0, BUF, 1)), EBADF);
}

#[test]
fn console_write_collects_bytes() {
    let (mut k, mut mem) = setup(b"");
    mem.write_bytes(BUF as u64, b"hi\n", 0, 3);
    assert_eq!(ret(k.dispatch(&mut mem, SYS_WRITE, 1, BUF, 3)), 3);
    assert_eq!(ret(k.dispatch(&mut mem, SYS_WRITE, 2, BUF, 2)), 2);
    assert_eq!(k.console, b"hi\nhi".to_vec());
    assert_eq!(ret(k.dispatch(&mut mem, SYS_WRITE, 1, 0x5000, 3)), EFAULT);
}

#[test]
fn buffer_outside_memory_faults() {
    let (mut k, mut mem) = setup(b"abc");
    ret(k.dispatch(&mut mem, SYS_OPEN, PATH, 0, 0));
    assert_eq!(ret(k.dispatch(&mut mem, SYS_READ, 3, 0x1ffe, 4)), EFAULT);
    assert_eq!(offset_of(&k, 3), 0);
    assert_eq!(ret(k.dispatch(&mut mem, SYS_READ, 3, BUF, usize::MAX)), EINVAL);
}

#[test]
fn open_reuses_closed_slot() {
    let (mut k, mut mem) = setup(b"abc");
    assert_eq!(ret(k.dispatch(&mut mem, SYS_OPEN, PATH, 0, 0)), 3);
    assert_eq!(ret(k.dispatch(&mut mem, SYS_OPEN, PATH, 0, 0)), 4);
    assert_eq!(ret(k.dispatch(&mut mem, SYS_CLOSE, 3, 0, 0)), 0);
    assert_eq!(ret(k.dispatch(&mut mem, SYS_OPEN, PATH, 0, 0)), 3);
    assert_eq!(k.sched.tasks[0].fd_table.len(), 5);
    assert_eq!(ret(k.dispatch(&mut mem, SYS_CLOSE, 9, 0, 0)), EBADF);
}

#[test]
fn open_of_missing_file_fails() {
    let (mut k, mut mem) = setup(b"abc");
    mem.write_bytes(PATH as u64, b"/nope\0", 0, 6);
    assert_eq!(ret(k.dispatch(&mut mem, SYS_OPEN, PATH, 0, 0)), ENOENT);
    assert_eq!(ret(k.dispatch(&mut mem, SYS_OPEN, 0x5000, 0, 0)), ENOENT);
}

#[test]
fn dup_and_dup2_alias_the_inode() {
    let (mut k, mut mem) = setup(b"0123456789");
    ret(k.dispatch(&mut mem, SYS_OPEN, PATH, 0, 0));
    assert_eq!(ret(k.dispatch(&mut mem, SYS_READ, 3, BUF, 4)), 4);
    assert_eq!(ret(k.dispatch(&mut mem, SYS_DUP, 3, 0, 0)), 4);
    assert_eq!(offset_of(&k, 4), 4);
    assert_eq!(ret(k.dispatch(&mut mem, SYS_DUP2, 3, 8, 0)), 8);
    assert_eq!(k.sched.tasks[0].fd_table.len(), 9);
    assert_eq!(k.sched.tasks[0].fd_table[6], FdSlot::Free);
    assert_eq!(k.sched.tasks[0].get_file(8).unwrap().inode, 1);
    assert_eq!(ret(k.dispatch(&mut mem, SYS_DUP, 7, 0, 0)), EBADF);
    assert_eq!(ret(k.dispatch(&mut mem, SYS_DUP2, 3, 2000, 0)), 2000);
    assert_eq!(k.sched.tasks[0].fd_table.len(), 2001);
    assert_eq!(k.sched.tasks[0].get_file(2000).unwrap().inode, 1);
    assert_eq!(ret(k.dispatch(&mut mem, SYS_DUP2, 7, 9, 0)), EBADF);
}

#[test]
fn lseek_set_and_current() {
    let (mut k, mut mem) = setup(b"0123456789");
    ret(k.dispatch(&mut mem, SYS_OPEN, PATH, 0, 0));
    assert_eq!(ret(k.dispatch(&mut mem, SYS_LSEEK, 3, 6, 0)), 6);
    assert_eq!(ret(k.dispatch(&mut mem, SYS_LSEEK, 3, (-2i64) as usize, 1)), 4);
    assert_eq!(ret(k.dispatch(&mut mem, SYS_LSEEK, 3, 100, 2)), 4);
    assert_eq!(ret(k.dispatch(&mut mem, SYS_LSEEK, 3, 0, 7)), EINVAL);
    assert_eq!(ret(k.dispatch(&mut mem, SYS_READ, 3, BUF, 2)), 2);
    assert_eq!(&mem.bytes[0x100..0x102], b"45");
}

#[test]
fn brk_moves_within_its_window() {
    let (mut k, mut mem) = setup(b"");
    assert_eq!(ret(k.dispatch(&mut mem, SYS_BRK, 0, 0, 0)), 0x800000);
    assert_eq!(ret(k.dispatch(&mut mem, SYS_BRK, 0x900000, 0, 0)), 0x900000);
    assert_eq!(mem.mapped, vec![(0x800000, 0x100000)]);
    assert_eq!(ret(k.dispatch(&mut mem, SYS_BRK, 0x2000000, 0, 0)), ENOMEM);
    assert_eq!(ret(k.dispatch(&mut mem, SYS_BRK, 0, 0, 0)), 0x900000);
}

#[test]
fn anonymous_mmap_bumps_the_break() {
    let (mut k, mut mem) = setup(b"");
    assert_eq!(ret(k.dispatch(&mut mem, SYS_MMAP, 0, 100, 3)), 0x800000);
    assert_eq!(k.program_break, 0x801000);
    assert_eq!(ret(k.dispatch(&mut mem, SYS_MMAP, 0x40000, 4097, 3)), 0x40000);
    assert_eq!(mem.mapped, vec![(0x800000, 4096), (0x40000, 8192)]);
    assert_eq!(ret(k.dispatch(&mut mem, SYS_MMAP, 0, usize::MAX, 3)), ENOMEM);
}

#[test]
fn identity_calls() {
    let (mut k, mut mem) = setup(b"");
    assert_eq!(ret(k.dispatch(&mut mem, SYS_GETPID, 0, 0, 0)), 1);
    assert_eq!(ret(k.dispatch(&mut mem, SYS_GETUID, 0, 0, 0)), 0);
    assert_eq!(ret(k.dispatch(&mut mem, SYS_WAIT4, 0, 0, 0)), ECHILD);
    assert_eq!(ret(k.dispatch(&mut mem, SYS_PIPE, 0, 0, 0)), ENOSYS);
    assert_eq!(ret(k.dispatch(&mut mem, SYS_IOCTL, 1, 0x5401, 0)), 0);
    assert_eq!(ret(k.dispatch(&mut mem, SYS_IOCTL, 1, 0x1234, 0)), ENOTTY);
}

#[test]
fn unknown_call_is_not_implemented() {
    let (mut k, mut mem) = setup(b"");
    assert_eq!(k.dispatch(&mut mem, 999, 1, 2, 3), Outcome::Return(-38));
}

#[test]
fn fork_queues_a_child() {
    let (mut k, mut mem) = setup(b"");
    assert_eq!(ret(k.dispatch(&mut mem, SYS_FORK, 0, 0, 0)), 2);
    assert_eq!(k.sched.tasks.len(), 2);
    assert_eq!(k.sched.tasks[1].parent_id, 1);
    assert_eq!(k.sched.run_queue, vec![1, 2]);
}

#[test]
fn exit_terminates_the_current_task() {
    let (mut k, mut mem) = setup(b"");
    assert_eq!(k.sched.run_queue, vec![1]);
    assert_eq!(k.dispatch(&mut mem, SYS_EXIT, 3, 0, 0), Outcome::Halt);
    assert_eq!(k.sched.tasks[0].state, TaskState::Terminated);
    assert!(k.sched.run_queue.is_empty());
    assert_eq!(k.sched.schedule(), None);
    assert_eq!(k.sched.tasks[0].state, TaskState::Terminated);
}

#[test]
fn exited_task_is_not_scheduled_again() {
    let (mut k, mut mem) = setup(b"");
    assert_eq!(ret(k.dispatch(&mut mem, SYS_FORK, 0, 0, 0)), 2);
    assert_eq!(k.sched.schedule(), Some(1));
    assert_eq!(k.dispatch(&mut mem, SYS_EXIT, 0, 0, 0), Outcome::Halt);
    assert_eq!(k.sched.schedule(), Some(2));
    assert_eq!(k.sched.schedule(), Some(2));
    assert_eq!(k.sched.tasks[0].state, TaskState::Terminated);
}

#[test]
fn console_read_takes_typed_bytes() {
    let (mut k, mut mem) = setup(b"");
    k.input = b"ls\n".to_vec();
    assert_eq!(ret(k.dispatch(&mut mem, SYS_READ, 1, BUF, 2)), 2);
    assert_eq!(&mem.bytes[0x100..0x102], b"ls");
    assert_eq!(k.input, b"\n".to_vec());
    assert_eq!(ret(k.dispatch(&mut mem, SYS_READ, 2, BUF, 8)), 1);
    assert_eq!(mem.bytes[0x100], b'\n');
    assert_eq!(ret(k.dispatch(&mut mem, SYS_READ, 1, BUF, 8)), 0);
}

#[test]
fn clock_advances_on_each_query() {
    let (mut k, mut mem) = setup(b"");
    assert_eq!(ret(k.dispatch(&mut mem, SYS_GETTIMEOFDAY, BUF, 0, 0)), 0);
    assert_eq!(mem.read_u64(BUF as u64), 1);
    assert_eq!(ret(k.dispatch(&mut mem, SYS_CLOCK_GETTIME, 0, BUF, 0)), 0);
    assert_eq!(mem.read_u64(BUF as u64), 2);
    assert_eq!(mem.read_u64(BUF as u64 + 8), 0);
    assert_eq!(ret(k.dispatch(&mut mem, SYS_GETTIMEOFDAY, 0, 0, 0)), 0);
    assert_eq!(k.clock, 2);
}

#[test]
fn uname_fields_are_fixed() {
    let (mut k, mut mem) = setup(b"");
    assert_eq!(ret(k.dispatch(&mut mem, SYS_UNAME, BUF, 0, 0)), 0);
    let at = 0x100;
    assert_eq!(&mem.bytes[at..at + 7], b"Aether\0");
    assert_eq!(&mem.bytes[at + 65..at + 72], b"aether\0");
    assert_eq!(&mem.bytes[at + 130..at + 136], b"0.1.0\0");
    assert_eq!(&mem.bytes[at + 195..at + 202], b"#1 SMP\0");
    assert_eq!(&mem.bytes[at + 260..at + 267], b"x86_64\0");
    assert_eq!(ret(k.dispatch(&mut mem, SYS_UNAME, 0x1f00, 0, 0)), EFAULT);
}

#[test]
fn getcwd_and_fstat_fill_buffers() {
    let (mut k, mut mem) = setup(b"");
    assert_eq!(ret(k.dispatch(&mut mem, SYS_GETCWD, BUF, 16, 0)), BUF as isize);
    assert_eq!(&mem.bytes[0x100..0x102], b"/\0");
    assert_eq!(ret(k.dispatch(&mut mem, SYS_GETCWD, BUF, 1, 0)), ERANGE);
    assert_eq!(ret(k.dispatch(&mut mem, SYS_FSTAT, 3, 0x1200, 0)), 0);
    assert_eq!(mem.read_u64(0x1208), 0o100644);
    assert_eq!(mem.read_u64(0x1230), 0);
}

/// A 64-bit image with one loadable segment of `code` at 0x100, entry 0x100.
fn program(code: &[u8]) -> Vec<u8> {
    let mut b = vec![0u8; 120];
    b[0..4].copy_from_slice(&[0x7f, b'E', b'L', b'F']);
    b[4] = 2;
    b[24] = 0x00;
    b[25] = 0x01;
    b[32] = 64;
    b[54] = 56;
    b[56] = 1;
    b[64] = 1;
    b[72] = 120;
    b[80] = 0x00;
    b[81] = 0x01;
    b[96] = code.len() as u8;
    b[104] = code.len() as u8 + 8;
    b.extend_from_slice(code);
    b
}

#[test]
fn execve_loads_and_enters_user_mode() {
    let mut k = Kernel::new(fs_init(program(&[0x90, 0x90, 0xc3])));
    k.sched = sched_init();
    k.user_stack_top = 0x10000;
    let mut mem = UserMemory::new(0, 0x10000);
    mem.write_bytes(0x1800, b"/init\0", 0, 6);
    mem.write_bytes(0x1810, b"arg\0", 0, 4);
    mem.write_u64(0x1820, 0x1810);
    mem.write_u64(0x1828, 0);
    mem.write_bytes(0x1830, b"A=1\0", 0, 4);
    mem.write_u64(0x1840, 0x1830);
    mem.write_u64(0x1848, 0);
    let r = k.dispatch(&mut mem, SYS_EXECVE, 0x1800, 0x1820, 0x1840);
    let sp = match r {
        Outcome::EnterUser { entry, sp } => {
            assert_eq!(entry, 0x100);
            sp
        },
        other => panic!("unexpected {:?}", other),
    };
    assert_eq!(sp % 16, 0);
    assert_eq!(&mem.bytes[0x100..0x103], &[0x90, 0x90, 0xc3]);
    assert_eq!(mem.read_u64(sp), 1);
    let p = mem.read_u64(sp + 8);
    assert_eq!(&mem.bytes[p as usize..p as usize + 4], b"arg\0");
    assert_eq!(mem.read_u64(sp + 16), 0);
    let e = mem.read_u64(sp + 24);
    assert_eq!(&mem.bytes[e as usize..e as usize + 4], b"A=1\0");
    assert_eq!(mem.read_u64(sp + 32), 0);
    let aux: Vec<(u64, u64)> =
        (0..7).map(|i| (mem.read_u64(sp + 40 + 16 * i), mem.read_u64(sp + 48 + 16 * i))).collect();
    assert_eq!(
        aux,
        vec![(3, 0), (4, 56), (5, 1), (9, 0x100), (6, 4096), (25, 0x10000 - 16), (0, 0)]
    );
    assert_eq!(mem.mapped, vec![(0x100, 11), (0x8000, 0x8000)]);
}

#[test]
fn execve_errors() {
    let mut k = Kernel::new(fs_init(b"not an elf".to_vec()));
    k.sched = sched_init();
    let mut mem = UserMemory::new(0, 0x2000);
    mem.write_bytes(0x1800, b"/init\0", 0, 6);
    mem.write_bytes(0x1900, b"/none\0", 0, 6);
    assert_eq!(k.dispatch(&mut mem, SYS_EXECVE, 0x1800, 0, 0), Outcome::Return(ENOEXEC));
    assert_eq!(k.dispatch(&mut mem, SYS_EXECVE, 0x1900, 0, 0), Outcome::Return(ENOENT));
    assert_eq!(k.dispatch(&mut mem, SYS_EXECVE, 0x9000, 0, 0), Outcome::Return(EFAULT));
    assert!(mem.mapped.is_empty());
}
