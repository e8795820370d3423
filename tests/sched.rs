use aether_kernel::sched::{init, Scheduler};
use aether_kernel::task::{FdSlot, FileDescriptor, TaskState};

#[test]
fn spawn_and_fork_pids_strictly_increase() {
    let mut s = Scheduler::new();
    let a = s.spawn(64).unwrap();
    let b = s.spawn(64).unwrap();
    let c = s.fork(a, 0, 0).unwrap();
    let d = s.spawn(64).unwrap();
    let e = s.fork(c, 0, 0).unwrap();
    let pids = vec![a, b, c, d, e];
    assert_eq!(pids, vec![1, 2, 3, 4, 5]);
    for w in pids.windows(2) {
        assert!(w[0] < w[1]);
    }
    let ids: Vec<usize> = s.tasks.iter().map(|t| t.id).collect();
    assert_eq!(ids, pids);
    assert_eq!(s.next_pid, 6);
}

#[test]
fn fork_of_missing_parent_fails() {
    let mut s = Scheduler::new();
    s.spawn(16).unwrap();
    assert_eq!(s.fork(42, 0, 0), None);
    assert_eq!(s.tasks.len(), 1);
    assert_eq!(s.next_pid, 2);
}

#[test]
fn round_robin_cycles_in_spawn_order() {
    let mut s = Scheduler::new();
    let a = s.spawn(32).unwrap();
    let b = s.spawn(32).unwrap();
    let c = s.spawn(32).unwrap();
    let mut order = Vec::new();
    for _ in 0..7 {
        order.push(s.schedule().unwrap());
    }
    assert_eq!(order, vec![a, b, c, a, b, c, a]);
}

#[test]
fn schedule_marks_running_and_ready() {
    let mut s = Scheduler::new();
    let a = s.spawn(32).unwrap();
    let b = s.spawn(32).unwrap();
    assert_eq!(s.schedule(), Some(a));
    assert_eq!(s.get_task_by_pid(a).unwrap().state, TaskState::Running);
    assert_eq!(s.get_task_by_pid(b).unwrap().state, TaskState::Ready);
    assert_eq!(s.schedule(), Some(b));
    assert_eq!(s.get_task_by_pid(a).unwrap().state, TaskState::Ready);
    assert_eq!(s.get_task_by_pid(b).unwrap().state, TaskState::Running);
    assert_eq!(s.run_queue, vec![a]);
}

#[test]
fn schedule_on_empty_queue_returns_none() {
    let mut s = Scheduler::new();
    assert_eq!(s.schedule(), None);
    assert_eq!(s.current, None);
}

#[test]
fn terminated_task_is_not_requeued() {
    let mut s = Scheduler::new();
    let a = s.spawn(32).unwrap();
    let b = s.spawn(32).unwrap();
    assert_eq!(s.schedule(), Some(a));
    let i = s.find(a).unwrap();
    s.set_state_at(i, TaskState::Terminated);
    assert_eq!(s.schedule(), Some(b));
    assert_eq!(s.schedule(), Some(b));
    assert_eq!(s.run_queue, Vec::<usize>::new());
}

#[test]
fn fork_copies_stack_and_descriptors() {
    let mut s = Scheduler::new();
    let a = s.spawn(8).unwrap();
    let i = s.find(a).unwrap();
    s.tasks[i].stack[3] = 7;
    s.tasks[i].add_file(FileDescriptor { inode: 5, offset: 9, flags: 1 });
    let c = s.fork(a, 0x1000, 0x2000).unwrap();
    let child = s.get_task_by_pid(c).unwrap();
    assert_eq!(child.parent_id, a);
    assert_eq!(child.state, TaskState::Ready);
    assert_eq!(child.stack[3], 7);
    assert_eq!(child.saved_rsp, 0x1000);
    assert_eq!(child.saved_rip, 0x2000);
    assert_eq!(child.fd_table[3], FdSlot::Open(FileDescriptor { inode: 5, offset: 9, flags: 1 }));
    assert_eq!(s.run_queue, vec![a, c]);
}

#[test]
fn boot_scheduler_has_pid_one_current() {
    let s = init();
    assert_eq!(s.tasks.len(), 1);
    assert_eq!(s.tasks[0].id, 1);
    assert_eq!(s.tasks[0].stack.len(), 16384);
    assert_eq!(s.current, Some(1));
    assert_eq!(s.run_queue, vec![1]);
    assert_eq!(s.next_pid, 2);
}

#[test]
fn terminated_queued_task_is_never_taken() {
    let mut s = Scheduler::new();
    let a = s.spawn(8).unwrap();
    let i = s.find(a).unwrap();
    s.set_state_at(i, TaskState::Terminated);
    assert_eq!(s.schedule(), None);
    assert_eq!(s.tasks[i].state, TaskState::Terminated);
    assert!(s.run_queue.is_empty());
}

#[test]
fn blocked_task_leaves_the_queue() {
    let mut s = Scheduler::new();
    let a = s.spawn(8).unwrap();
    let b = s.spawn(8).unwrap();
    let i = s.find(a).unwrap();
    s.set_state_at(i, TaskState::Blocked);
    assert_eq!(s.schedule(), Some(b));
    assert_eq!(s.schedule(), Some(b));
    assert_eq!(s.tasks[i].state, TaskState::Blocked);
}
