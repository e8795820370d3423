//! Context switching: the first frame of a new task, and what the timer
//! interrupt decides.
use vstd::prelude::*;
use crate::bytes::{le_bytes, u64_to_le};
use crate::memory::splice;
use crate::sched::{rr_next, Scheduler};
use crate::task::Pid;

verus! {

/// Bytes of the frame `init_stack` builds: six callee-saved registers, the
/// return address and one zero word above it.
pub const INITIAL_FRAME_SIZE: u64 = 64;

/// The words of the first frame, from the returned stack pointer upwards:
/// r15, r14, r13 (the argument), r12 (the entry point), rbp, rbx, the return
/// address (the trampoline) and a zero word.
pub open spec fn initial_frame(entry_point: u64, arg0: u64, trampoline: u64) -> Seq<u64> {
    seq![0u64, 0u64, arg0, entry_point, 0u64, 0u64, trampoline, 0u64]
}

/// The bytes of a list of words, each little-endian.
pub open spec fn words_bytes(w: Seq<u64>) -> Seq<u8>
    decreases w.len(),
{
    if w.len() == 0 {
        Seq::empty()
    } else {
        words_bytes(w.drop_last()) + le_bytes(w.last() as nat, 8)
    }
}

/// Builds the first saved frame of a new task on `stack`, whose first byte is
/// at address `stack_base`: the first switch into the task restores r12 =
/// `entry_point` and r13 = `arg0` and returns into `trampoline`, which calls
/// `entry_point(arg0)`. Returns the saved stack pointer, 16 bytes below the
/// aligned top less the frame, or `None` when the stack is too small.
pub fn init_stack(stack: &mut Vec<u8>, stack_base: u64, entry_point: u64, arg0: u64, trampoline: u64) -> (r:
    Option<u64>)
    requires
        stack_base + old(stack)@.len() <= u64::MAX,
    ensures
        ({
            let top = stack_base + old(stack)@.len();
            let aligned = top - top % 16;
            let sp = aligned - INITIAL_FRAME_SIZE;
            if sp < stack_base {
                r is None && final(stack)@ == old(stack)@
            } else {
                &&& r == Some(sp as u64)
                &&& sp % 16 == 0
                &&& final(stack)@ == splice(
                    old(stack)@,
                    sp - stack_base,
                    words_bytes(initial_frame(entry_point, arg0, trampoline)),
                )
            }
        }),
{
    let len = stack.len();
    let top = stack_base + len as u64;
    let aligned = top - top % 16;
    if aligned < stack_base || aligned - stack_base < INITIAL_FRAME_SIZE {
        return None;
    }
    let sp = aligned - INITIAL_FRAME_SIZE;
    let words: Vec<u64> = vec![0u64, 0u64, arg0, entry_point, 0u64, 0u64, trampoline, 0u64];
    let mut image: Vec<u8> = Vec::new();
    let mut k: usize = 0;
    while k < 8
        invariant
            k <= 8,
            words@ == initial_frame(entry_point, arg0, trampoline),
            image@ == words_bytes(words@.subrange(0, k as int)),
            image@.len() == 8 * k,
        decreases 8 - k,
    {
        let b = u64_to_le(words[k]);
        let mut j: usize = 0;
        let ghost before = image@;
        while j < 8
            invariant
                j <= 8,
                b@ == le_bytes(words@[k as int] as nat, 8),
                image@ == before + b@.subrange(0, j as int),
            decreases 8 - j,
        {
            image.push(b[j]);
            j = j + 1;
            assert(image@ =~= before + b@.subrange(0, j as int));
        }
        proof {
            let w = words@.subrange(0, k + 1);
            assert(w.drop_last() =~= words@.subrange(0, k as int));
            assert(b@.subrange(0, 8) =~= b@);
        }
        k = k + 1;
    }
    assert(words@.subrange(0, 8) =~= words@);
    let d = (sp - stack_base) as usize;
    let mut i: usize = 0;
    while i < 64
        invariant
            i <= 64,
            d + 64 <= stack@.len(),
            d == sp - stack_base,
            len == stack@.len(),
            image@.len() == 64,
            stack@.len() == old(stack)@.len(),
            forall|x: int|
                0 <= x < stack@.len() ==> #[trigger] stack@[x] == if d <= x < d + i {
                    image@[x - d]
                } else {
                    old(stack)@[x]
                },
        decreases 64 - i,
    {
        stack.set(d + i, image[i]);
        i = i + 1;
    }
    assert(stack@ =~= splice(old(stack)@, sp - stack_base, image@));
    Some(sp)
}

/// What the timer interrupt does next: switch from `prev` (the task that was
/// running, or the boot flow when `None`) to `next`.
#[derive(Debug, Clone, Copy, PartialEq, Eq, Structural)]
pub struct SwitchPlan {
    pub prev: Option<Pid>,
    pub next: Pid,
}

/// The timer's scheduling decision: remembers which task was current and asks
/// the scheduler for the next one. The caller saves the registers of `prev`
/// and restores those of `next`, after releasing the scheduler.
pub fn timer_tick(sched: &mut Scheduler) -> (r: Option<SwitchPlan>)
    requires
        old(sched).wf(),
    ensures
        final(sched).wf(),
        (final(sched).run_queue@, final(sched).current) == rr_next(
            old(sched).ready_queue(),
            old(sched).running(),
        ),
        r == match final(sched).current {
            Some(n) => Some(SwitchPlan { prev: old(sched).current, next: n }),
            None => None,
        },
{
    let prev = sched.current;
    match sched.schedule() {
        Some(next) => Some(SwitchPlan { prev, next }),
        None => None,
    }
}

} // verus!
