//! A first-in, first-out queue of tasks.
use std::collections::VecDeque;
use vstd::prelude::*;

verus! {

/// A unit of work. The priority is carried along; the queue does not order
/// by it.
pub struct Task {
    pub id: String,
    pub priority: u8,
}

/// Tasks waiting to run, oldest first.
pub struct Scheduler {
    queue: VecDeque<Task>,
}

impl View for Scheduler {
    type V = Seq<Task>;

    closed spec fn view(&self) -> Seq<Task> {
        self.queue@
    }
}

impl Scheduler {
    /// A scheduler with nothing waiting.
    pub fn new() -> (scheduler: Self)
        ensures
            scheduler@ == Seq::<Task>::empty(),
    {
        Scheduler { queue: VecDeque::new() }
    }

    /// Puts `task` at the end of the queue.
    pub fn schedule(&mut self, task: Task)
        ensures
            final(self)@ == old(self)@.push(task),
    {
        self.queue.push_back(task);
    }

    /// Takes the task that has waited longest, if there is one.
    pub fn execute_next(&mut self) -> (next: Option<Task>)
        ensures
            old(self)@.len() == 0 ==> next is None && final(self)@ == old(self)@,
            old(self)@.len() > 0 ==> next == Some(old(self)@[0]) && final(self)@ == old(
                self,
            )@.drop_first(),
    {
        self.queue.pop_front()
    }

    /// The number of tasks waiting.
    pub fn pending(&self) -> (count: usize)
        ensures
            count == self@.len(),
    {
        self.queue.len()
    }
}

} // verus!
