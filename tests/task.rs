use aether_kernel::task::{FdSlot, FileDescriptor, Task, TaskState};

fn fd(inode: usize) -> FileDescriptor {
    FileDescriptor { inode, offset: 0, flags: 0 }
}

#[test]
fn new_task_reserves_standard_slots() {
    let t = Task::new(9, 128);
    assert_eq!(t.id, 9);
    assert_eq!(t.parent_id, 0);
    assert_eq!(t.state, TaskState::Ready);
    assert_eq!(t.stack.len(), 128);
    assert!(t.stack.iter().all(|b| *b == 0));
    assert_eq!(t.fd_table, vec![FdSlot::Reserved, FdSlot::Reserved, FdSlot::Reserved]);
    assert_eq!(t.get_file(0), None);
}

#[test]
fn add_file_reuses_lowest_free_slot() {
    let mut t = Task::new(1, 0);
    assert_eq!(t.add_file(fd(10)), 3);
    assert_eq!(t.add_file(fd(11)), 4);
    t.fd_table[3] = FdSlot::Free;
    assert_eq!(t.add_file(fd(12)), 3);
    assert_eq!(t.fd_table.len(), 5);
    assert_eq!(t.get_file(3), Some(fd(12)));
    assert_eq!(t.add_file(fd(13)), 5);
}

#[test]
fn closed_standard_slot_is_reused() {
    let mut t = Task::new(1, 0);
    t.fd_table[1] = FdSlot::Free;
    assert_eq!(t.add_file(fd(4)), 1);
    assert_eq!(t.get_file(1), Some(fd(4)));
}

#[test]
fn get_file_out_of_range_is_none() {
    let t = Task::new(1, 0);
    assert_eq!(t.get_file(3), None);
    assert_eq!(t.get_file(usize::MAX), None);
}

#[test]
fn task_fork_keeps_parent_link() {
    let mut p = Task::new(4, 3);
    p.stack[0] = 1;
    p.add_file(fd(2));
    let c = p.fork(5, 11, 12);
    assert_eq!(c.id, 5);
    assert_eq!(c.parent_id, 4);
    assert_eq!(c.stack, p.stack);
    assert_eq!(c.fd_table, p.fd_table);
    assert_eq!((c.saved_rsp, c.saved_rip), (11, 12));
}
