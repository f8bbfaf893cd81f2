//! Work that is put off until the response has been sent.
use vstd::prelude::*;

verus! {

/// Collects tasks that should run after the response is sent, in the order in
/// which they were scheduled.
#[derive(Debug)]
pub struct AfterResponse<T> {
    pub tasks: Vec<T>,
}

impl<T> View for AfterResponse<T> {
    type V = Seq<T>;

    open spec fn view(&self) -> Seq<T> {
        self.tasks@
    }
}

impl<T> AfterResponse<T> {
    /// A collector without tasks.
    pub fn new() -> (r: Self)
        ensures
            r@ == Seq::<T>::empty(),
    {
        AfterResponse { tasks: Vec::new() }
    }

    /// Schedules a task to run after the response.
    pub fn push(&mut self, task: T)
        ensures
            final(self)@ == old(self)@.push(task),
    {
        self.tasks.push(task);
    }

    /// Hands over all scheduled tasks.
    pub fn drain(&mut self) -> (r: Vec<T>)
        ensures
            r@ == old(self)@,
            final(self)@ == Seq::<T>::empty(),
    {
        let mut out: Vec<T> = Vec::new();
        out.append(&mut self.tasks);
        assert(out@ =~= old(self)@);
        out
    }

    /// Whether nothing is scheduled.
    pub fn is_empty(&self) -> (r: bool)
        ensures
            r == (self@.len() == 0),
    {
        self.tasks.len() == 0
    }

    /// How many tasks are scheduled.
    pub fn len(&self) -> (r: usize)
        ensures
            r == self@.len(),
    {
        self.tasks.len()
    }
}

} // verus!
