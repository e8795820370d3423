use aether_kernel::arch::{
    el0_state, kernel_cs, kernel_ds, star_value, user_cs, user_ds, usermode_frame, InterruptIndex,
};
use aether_kernel::context::{init_stack, timer_tick, SwitchPlan};
use aether_kernel::sched::Scheduler;

#[test]
fn selectors_follow_the_descriptor_table() {
    assert_eq!(kernel_cs(), 0x08);
    assert_eq!(kernel_ds(), 0x10);
    assert_eq!(user_ds(), 0x1b);
    assert_eq!(user_cs(), 0x23);
}

#[test]
fn user_mode_frame_enables_interrupts() {
    let f = usermode_frame(0x401000, 0x7fff0000);
    assert_eq!(f.rip, 0x401000);
    assert_eq!(f.rsp, 0x7fff0000);
    assert_eq!(f.cs, 0x23);
    assert_eq!(f.ss, 0x1b);
    assert_eq!(f.rflags, 0x202);
    let e = el0_state(0x1000, 0x2000);
    assert_eq!((e.elr_el1, e.sp_el0, e.spsr_el1), (0x1000, 0x2000, 0));
}

#[test]
fn star_holds_both_selector_bases() {
    assert_eq!(star_value(0x1b, 0x08), 0x000b_0008_0000_0000);
    assert_eq!(star_value(user_cs(), kernel_cs()), 0x0013_0008_0000_0000);
}

#[test]
fn interrupt_vectors() {
    assert_eq!(InterruptIndex::Timer.as_u8(), 32);
    assert_eq!(InterruptIndex::Keyboard.as_u8(), 33);
    assert_eq!(InterruptIndex::Keyboard.as_usize(), 33);
}

fn word(s: &[u8], at: usize) -> u64 {
    let mut b = [0u8; 8];
    b.copy_from_slice(&s[at..at + 8]);
    u64::from_le_bytes(b)
}

#[test]
fn first_frame_returns_into_trampoline() {
    let mut stack = vec![0xeeu8; 256];
    let base = 0x10008u64;
    let sp = init_stack(&mut stack, base, 0xaaaa, 0xbbbb, 0xcccc).unwrap();
    assert_eq!(sp, 0x10100 - 64);
    let at = (sp - base) as usize;
    let words: Vec<u64> = (0..8).map(|i| word(&stack, at + 8 * i)).collect();
    assert_eq!(words, vec![0, 0, 0xbbbb, 0xaaaa, 0, 0, 0xcccc, 0]);
    assert_eq!(stack[at - 1], 0xee);
}

#[test]
fn too_small_stack_gets_no_frame() {
    let mut stack = vec![0u8; 32];
    assert_eq!(init_stack(&mut stack, 0x1000, 1, 2, 3), None);
}

#[test]
fn timer_switches_between_tasks() {
    let mut s = Scheduler::new();
    let a = s.spawn(16).unwrap();
    let b = s.spawn(16).unwrap();
    assert_eq!(timer_tick(&mut s), Some(SwitchPlan { prev: None, next: a }));
    assert_eq!(timer_tick(&mut s), Some(SwitchPlan { prev: Some(a), next: b }));
    assert_eq!(timer_tick(&mut s), Some(SwitchPlan { prev: Some(b), next: a }));
    let mut empty = Scheduler::new();
    assert_eq!(timer_tick(&mut empty), None);
}
