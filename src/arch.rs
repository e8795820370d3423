//! x86-64 privilege transitions: segment selectors, the frame that enters
//! user mode, the syscall MSR values and the interrupt vectors.
use vstd::prelude::*;

verus! {

/// GDT slots: null, kernel code, kernel data, user data, user code, TSS.
pub const GDT_KERNEL_CODE: u16 = 1;

pub const GDT_KERNEL_DATA: u16 = 2;

pub const GDT_USER_DATA: u16 = 3;

pub const GDT_USER_CODE: u16 = 4;

/// Requested privilege level of kernel and user selectors.
pub const RING0: u16 = 0;

pub const RING3: u16 = 3;

/// The selector of GDT slot `index` at privilege `rpl`.
pub fn selector(index: u16, rpl: u16) -> (r: u16)
    requires
        index < 8192,
        rpl < 4,
    ensures
        r == index * 8 + rpl,
{
    index * 8 + rpl
}

/// Kernel code selector.
pub fn kernel_cs() -> (r: u16)
    ensures
        r == 0x08,
{
    selector(GDT_KERNEL_CODE, RING0)
}

/// Kernel data selector.
pub fn kernel_ds() -> (r: u16)
    ensures
        r == 0x10,
{
    selector(GDT_KERNEL_DATA, RING0)
}

/// User code selector.
pub fn user_cs() -> (r: u16)
    ensures
        r == 0x23,
{
    selector(GDT_USER_CODE, RING3)
}

/// User data selector.
pub fn user_ds() -> (r: u16)
    ensures
        r == 0x1b,
{
    selector(GDT_USER_DATA, RING3)
}

/// Flags a user program starts with: interrupts enabled, and the reserved
/// bit 1 set.
pub const USER_RFLAGS: u64 = 0x202;

/// What `iretq` pops to enter user mode, lowest address first.
#[derive(Debug, Clone, Copy, PartialEq, Eq, Structural)]
pub struct IretFrame {
    pub rip: u64,
    pub cs: u64,
    pub rflags: u64,
    pub rsp: u64,
    pub ss: u64,
}

/// The frame that enters user mode at `entry_point` with stack
/// `stack_pointer`, user selectors and interrupts enabled.
pub fn usermode_frame(entry_point: u64, stack_pointer: u64) -> (r: IretFrame)
    ensures
        r == (IretFrame { rip: entry_point, cs: 0x23, rflags: USER_RFLAGS, rsp: stack_pointer, ss: 0x1b }),
{
    IretFrame {
        rip: entry_point,
        cs: user_cs() as u64,
        rflags: USER_RFLAGS,
        rsp: stack_pointer,
        ss: user_ds() as u64,
    }
}

/// What `eret` restores to enter EL0 on AArch64.
#[derive(Debug, Clone, Copy, PartialEq, Eq, Structural)]
pub struct EretState {
    pub sp_el0: u64,
    pub elr_el1: u64,
    pub spsr_el1: u64,
}

/// The state that enters EL0 (with SP_EL0, interrupts unmasked, flags clear)
/// at `entry_point` with stack `stack_pointer`.
pub fn el0_state(entry_point: u64, stack_pointer: u64) -> (r: EretState)
    ensures
        r == (EretState { sp_el0: stack_pointer, elr_el1: entry_point, spsr_el1: 0 }),
{
    EretState { sp_el0: stack_pointer, elr_el1: entry_point, spsr_el1: 0 }
}

/// The STAR value for `syscall`/`sysret`: the user selector base in bits
/// 63..48 (`sysret` adds 16 for CS and 8 for SS) and the kernel code
/// selector in bits 47..32.
pub fn star_value(user_cs: u16, kernel_cs: u16) -> (r: u64)
    requires
        user_cs >= 16,
    ensures
        r == (user_cs - 16) as u64 * 0x1000000000000 + kernel_cs as u64 * 0x100000000,
{
    (user_cs - 16) as u64 * 0x1000000000000 + kernel_cs as u64 * 0x100000000
}

/// Where the two hardware interrupts land: just past the 32 exception
/// vectors.
pub const PIC_1_OFFSET: u8 = 32;

pub const PIC_2_OFFSET: u8 = 40;

/// Hardware interrupt vectors.
#[derive(Debug, Clone, Copy, PartialEq, Eq, Structural)]
pub enum InterruptIndex {
    Timer,
    Keyboard,
}

impl InterruptIndex {
    /// The vector number.
    pub open spec fn vector(self) -> u8 {
        match self {
            InterruptIndex::Timer => PIC_1_OFFSET,
            InterruptIndex::Keyboard => (PIC_1_OFFSET + 1) as u8,
        }
    }

    /// The vector number.
    pub fn as_u8(self) -> (r: u8)
        ensures
            r == self.vector(),
    {
        match self {
            InterruptIndex::Timer => PIC_1_OFFSET,
            InterruptIndex::Keyboard => PIC_1_OFFSET + 1,
        }
    }

    /// The vector number as an index into the descriptor table.
    pub fn as_usize(self) -> (r: usize)
        ensures
            r == self.vector() as usize,
    {
        self.as_u8() as usize
    }
}

} // verus!
