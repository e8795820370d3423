//! Tasks and their descriptor tables.
use vstd::prelude::*;

verus! {

/// Process id.
pub type Pid = usize;

/// Lifecycle state of a task.
#[derive(Debug, Clone, Copy, PartialEq, Eq, Structural)]
pub enum TaskState {
    Ready,
    Running,
    Blocked,
    Terminated,
}

/// An open file: the inode it refers to, the position and the open flags.
/// Duplicated descriptors refer to the same inode.
#[derive(Debug, Clone, Copy, PartialEq, Eq, Structural)]
pub struct FileDescriptor {
    pub inode: usize,
    pub offset: u64,
    pub flags: u32,
}

/// One slot of a descriptor table.
#[derive(Debug, Clone, Copy, PartialEq, Eq, Structural)]
pub enum FdSlot {
    /// A standard stream slot (0, 1 or 2) that was never opened or closed:
    /// not handed out by `add_file`.
    Reserved,
    /// Free for `add_file`.
    Free,
    Open(FileDescriptor),
}

/// Number of standard stream slots.
pub const STDIO_SLOTS: usize = 3;

/// The lowest free slot of `t`, or its length when none is free.
pub open spec fn first_free(t: Seq<FdSlot>) -> int
    decreases t.len(),
{
    if t.len() == 0 {
        0
    } else if first_free(t.drop_last()) < t.len() - 1 {
        first_free(t.drop_last())
    } else if t.last() == FdSlot::Free {
        t.len() - 1
    } else {
        t.len() as int
    }
}

proof fn lemma_first_free(t: Seq<FdSlot>)
    ensures
        0 <= first_free(t) <= t.len(),
        first_free(t) < t.len() ==> t[first_free(t)] == FdSlot::Free,
        forall|j: int| 0 <= j < first_free(t) ==> t[j] != FdSlot::Free,
    decreases t.len(),
{
    if t.len() > 0 {
        let p = t.drop_last();
        lemma_first_free(p);
        assert forall|j: int| 0 <= j < first_free(t) implies t[j] != FdSlot::Free by {
            if j < p.len() {
                assert(t[j] == p[j]);
            }
        }
    }
}

/// The descriptor open in slot `fd` of `t`, if any.
pub open spec fn open_in(t: Seq<FdSlot>, fd: int) -> Option<FileDescriptor> {
    if 0 <= fd < t.len() {
        match t[fd] {
            FdSlot::Open(f) => Some(f),
            _ => None,
        }
    } else {
        None
    }
}

/// A task: its identity, state, stack, descriptor table and exit status.
pub struct Task {
    pub id: Pid,
    pub parent_id: Pid,
    pub state: TaskState,
    pub stack: Vec<u8>,
    pub stack_top: usize,
    pub fd_table: Vec<FdSlot>,
    pub saved_rsp: u64,
    pub saved_rip: u64,
    pub exit_status: i32,
}

impl Task {
    /// A ready task with pid `pid`, no parent, a zeroed stack of `stack_size`
    /// bytes and the three standard slots reserved.
    pub fn new(pid: Pid, stack_size: usize) -> (t: Task)
        ensures
            t.id == pid,
            t.parent_id == 0,
            t.state == TaskState::Ready,
            t.stack@.len() == stack_size,
            forall|i: int| 0 <= i < stack_size ==> t.stack@[i] == 0,
            t.stack_top == 0,
            t.fd_table@ == seq![FdSlot::Reserved, FdSlot::Reserved, FdSlot::Reserved],
            t.saved_rsp == 0,
            t.saved_rip == 0,
            t.exit_status == 0,
    {
        let mut stack: Vec<u8> = Vec::new();
        let mut i: usize = 0;
        while i < stack_size
            invariant
                i <= stack_size,
                stack@.len() == i,
                forall|j: int| 0 <= j < i ==> stack@[j] == 0,
            decreases stack_size - i,
        {
            stack.push(0);
            i = i + 1;
        }
        let mut fd_table: Vec<FdSlot> = Vec::new();
        fd_table.push(FdSlot::Reserved);
        fd_table.push(FdSlot::Reserved);
        fd_table.push(FdSlot::Reserved);
        Task {
            id: pid,
            parent_id: 0,
            state: TaskState::Ready,
            stack,
            stack_top: 0,
            fd_table,
            saved_rsp: 0,
            saved_rip: 0,
            exit_status: 0,
        }
    }

    /// A ready duplicate of the task with pid `child_pid`: the same stack bytes and
    /// the same descriptors, and the given saved context.
    pub fn fork(&self, child_pid: Pid, child_rsp: u64, child_rip: u64) -> (t: Task)
        ensures
            t.id == child_pid,
            t.parent_id == self.id,
            t.state == TaskState::Ready,
            t.stack@ == self.stack@,
            t.stack_top == self.stack_top,
            t.fd_table@ == self.fd_table@,
            t.saved_rsp == child_rsp,
            t.saved_rip == child_rip,
            t.exit_status == 0,
    {
        let mut stack: Vec<u8> = Vec::new();
        let mut i: usize = 0;
        while i < self.stack.len()
            invariant
                i <= self.stack@.len(),
                stack@ == self.stack@.subrange(0, i as int),
            decreases self.stack@.len() - i,
        {
            stack.push(self.stack[i]);
            i = i + 1;
            assert(stack@ =~= self.stack@.subrange(0, i as int));
        }
        assert(stack@ =~= self.stack@);
        let mut fd_table: Vec<FdSlot> = Vec::new();
        let mut i: usize = 0;
        while i < self.fd_table.len()
            invariant
                i <= self.fd_table@.len(),
                fd_table@ == self.fd_table@.subrange(0, i as int),
            decreases self.fd_table@.len() - i,
        {
            fd_table.push(self.fd_table[i]);
            i = i + 1;
            assert(fd_table@ =~= self.fd_table@.subrange(0, i as int));
        }
        assert(fd_table@ =~= self.fd_table@);
        Task {
            id: child_pid,
            parent_id: self.id,
            state: TaskState::Ready,
            stack,
            stack_top: self.stack_top,
            fd_table,
            saved_rsp: child_rsp,
            saved_rip: child_rip,
            exit_status: 0,
        }
    }

    /// Puts `file` in the lowest free slot, or in a new slot at the end when
    /// none is free, and returns the slot's number.
    pub fn add_file(&mut self, file: FileDescriptor) -> (r: usize)
        requires
            old(self).fd_table@.len() < usize::MAX,
        ensures
            r == first_free(old(self).fd_table@),
            final(self).fd_table@ == (if r < old(self).fd_table@.len() {
                old(self).fd_table@.update(r as int, FdSlot::Open(file))
            } else {
                old(self).fd_table@.push(FdSlot::Open(file))
            }),
            final(self).id == old(self).id,
            final(self).parent_id == old(self).parent_id,
            final(self).state == old(self).state,
            final(self).stack@ == old(self).stack@,
            final(self).stack_top == old(self).stack_top,
            final(self).saved_rsp == old(self).saved_rsp,
            final(self).saved_rip == old(self).saved_rip,
            final(self).exit_status == old(self).exit_status,
    {
        proof {
            lemma_first_free(self.fd_table@);
        }
        let mut i: usize = 0;
        while i < self.fd_table.len()
            invariant
                i <= self.fd_table@.len(),
                self.fd_table@ == old(self).fd_table@,
                self.id == old(self).id,
                self.parent_id == old(self).parent_id,
                self.state == old(self).state,
                self.stack@ == old(self).stack@,
                self.stack_top == old(self).stack_top,
                self.saved_rsp == old(self).saved_rsp,
                self.saved_rip == old(self).saved_rip,
                self.exit_status == old(self).exit_status,
                forall|j: int| 0 <= j < i ==> self.fd_table@[j] != FdSlot::Free,
            decreases self.fd_table@.len() - i,
        {
            if self.fd_table[i] == FdSlot::Free {
                proof {
                    lemma_first_free_at(self.fd_table@, i as int);
                }
                self.fd_table.set(i, FdSlot::Open(file));
                return i;
            }
            i = i + 1;
        }
        proof {
            lemma_first_free_at(self.fd_table@, i as int);
        }
        self.fd_table.push(FdSlot::Open(file));
        self.fd_table.len() - 1
    }

    /// The descriptor open in slot `fd`, if any.
    pub fn get_file(&self, fd: usize) -> (r: Option<FileDescriptor>)
        ensures
            r == open_in(self.fd_table@, fd as int),
    {
        if fd < self.fd_table.len() {
            match self.fd_table[fd] {
                FdSlot::Open(f) => Some(f),
                _ => None,
            }
        } else {
            None
        }
    }
}

/// The lowest free slot is the first one that is free, or the end.
proof fn lemma_first_free_at(t: Seq<FdSlot>, i: int)
    requires
        0 <= i <= t.len(),
        forall|j: int| 0 <= j < i ==> t[j] != FdSlot::Free,
        i < t.len() ==> t[i] == FdSlot::Free,
    ensures
        first_free(t) == i,
{
    lemma_first_free(t);
}

} // verus!
