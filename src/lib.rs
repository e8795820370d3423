//! The process-execution core of a small kernel: tasks and their descriptor
//! tables, the round-robin scheduler, the first frame of a context switch,
//! the system-call layer over an in-memory filesystem, the ELF64 loader, the
//! initial user stack and the dynamic relocator. User memory is a
//! bounds-checked window, so every access a binary or a system call asks for
//! is checked before it is made.
use vstd::prelude::*;

pub mod arch;
pub mod bytes;
pub mod context;
pub mod dynlink;
pub mod elf;
pub mod fs;
pub mod memory;
pub mod mmu;
pub mod sched;
pub mod shell;
pub mod stack;
pub mod syscall;
pub mod task;

verus! {

} // verus!
