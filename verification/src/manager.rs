//! The ready queue of the scheduler: strict first in, first out.

use spin::Mutex;
use std::collections::VecDeque;
use std::sync::Arc;
use vstd::prelude::*;

verus! {

/// The identifier of a task.
pub struct PidHandle(pub usize);

/// A task as the scheduler sees it: the scheduler stores handles to it and
/// reads its identifier, nothing else.
pub struct TaskControlBlock {
    pub pid: PidHandle,
}

/// The tasks that are ready to run, in the order in which they were added.
pub struct TaskManager {
    ready_queue: VecDeque<Arc<TaskControlBlock>>,
}

impl View for TaskManager {
    type V = Seq<Arc<TaskControlBlock>>;

    /// The queue, front first.
    closed spec fn view(&self) -> Seq<Arc<TaskControlBlock>> {
        self.ready_queue@
    }
}

/// Whether `task` is the first in `queue`, counted from the front, whose
/// identifier is `pid`.
pub open spec fn is_first_with_pid(
    queue: Seq<Arc<TaskControlBlock>>,
    pid: usize,
    task: Arc<TaskControlBlock>,
) -> bool {
    exists|i: int|
        0 <= i < queue.len() && #[trigger] queue[i] == task && task.pid.0 == pid && forall|j: int|
            0 <= j < i ==> (#[trigger] queue[j]).pid.0 != pid
}

/// Whether no task in `queue` has the identifier `pid`.
pub open spec fn has_no_pid(queue: Seq<Arc<TaskControlBlock>>, pid: usize) -> bool {
    forall|i: int| 0 <= i < queue.len() ==> (#[trigger] queue[i]).pid.0 != pid
}

impl TaskManager {
    /// An empty queue.
    pub fn new() -> (manager: Self)
        ensures
            manager@ == Seq::<Arc<TaskControlBlock>>::empty(),
    {
        Self { ready_queue: VecDeque::new() }
    }

    /// Puts `task` at the back of the queue.
    pub fn add(&mut self, task: Arc<TaskControlBlock>)
        ensures
            final(self)@ == old(self)@.push(task),
    {
        self.ready_queue.push_back(task);
    }

    /// Takes the task at the front of the queue, if there is one.
    pub fn fetch(&mut self) -> (task: Option<Arc<TaskControlBlock>>)
        ensures
            match task {
                Some(front) => old(self)@.len() > 0 && front == old(self)@[0] && final(self)@
                    == old(self)@.skip(1),
                None => old(self)@.len() == 0 && final(self)@ == old(self)@,
            },
    {
        self.ready_queue.pop_front()
    }

    /// A handle to the first queued task whose identifier is `pid`. The
    /// task stays in the queue.
    pub fn find(&self, pid: usize) -> (found: Option<Arc<TaskControlBlock>>)
        ensures
            match found {
                Some(task) => is_first_with_pid(self@, pid, task),
                None => has_no_pid(self@, pid),
            },
    {
        let mut i: usize = 0;
        while i < self.ready_queue.len()
            invariant
                i <= self.ready_queue@.len(),
                forall|j: int| 0 <= j < i ==> (#[trigger] self.ready_queue@[j]).pid.0 != pid,
            decreases self.ready_queue@.len() - i,
        {
            let task = &self.ready_queue[i];
            if task.pid.0 == pid {
                assert(self@[i as int] == *task);
                return Some(task.clone());
            }
            i += 1;
        }
        None
    }
}

/// Puts `task` at the back of the queue that `manager` guards.
pub fn add_task(manager: &Mutex<TaskManager>, task: Arc<TaskControlBlock>) {
    let mut inner = manager.lock();
    inner.add(task);
}

/// Takes the task at the front of the queue that `manager` guards.
pub fn fetch_task(manager: &Mutex<TaskManager>) -> Option<Arc<TaskControlBlock>> {
    let mut inner = manager.lock();
    inner.fetch()
}

/// A handle to the first task with the identifier `pid` in the queue that
/// `manager` guards.
pub fn find_task(manager: &Mutex<TaskManager>, pid: usize) -> (found: Option<
    Arc<TaskControlBlock>,
>)
    ensures
        found matches Some(task) ==> task.pid.0 == pid,
{
    let inner = manager.lock();
    inner.find(pid)
}

} // verus!
