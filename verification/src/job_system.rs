//! The queue of callbacks that the controls ask for while they handle an event; the
//! application runs them once the event is handled.

use vstd::prelude::*;

verus! {

/// A callback that a control asks to be run, with what it is to be told.
pub enum Job {
    /// A button was clicked, or its hot-key pressed.
    Button(usize),
    /// A check box was clicked, or its hot-key pressed; whether it is now checked.
    CheckBox(usize, bool),
    /// The selection of a radio group changed; the index now selected.
    RadioGroup(usize, usize),
    /// Editing was given up with `Escape`.
    Skip(usize),
    /// Editing was confirmed, or the edit lost the focus; the text it holds.
    Enter(usize, Vec<char>),
}

/// Whether two jobs ask for the same callback with the same arguments.
pub open spec fn same_job(a: Job, b: Job) -> bool {
    match (a, b) {
        (Job::Enter(x, t), Job::Enter(y, u)) => x == y && t@ == u@,
        _ => a == b,
    }
}

impl Job {
    /// A copy of the job.
    pub fn duplicate(&self) -> (r: Job)
        ensures
            same_job(r, *self),
    {
        match self {
            Job::Button(id) => Job::Button(*id),
            Job::CheckBox(id, checked) => Job::CheckBox(*id, *checked),
            Job::RadioGroup(id, index) => Job::RadioGroup(*id, *index),
            Job::Skip(id) => Job::Skip(*id),
            Job::Enter(id, text) => Job::Enter(*id, text.clone()),
        }
    }
}

/// The callbacks asked for, in the order in which they were asked for.
pub struct JobSystem {
    jobs: Vec<Job>,
}

impl View for JobSystem {
    type V = Seq<Job>;

    closed spec fn view(&self) -> Seq<Job> {
        self.jobs@
    }
}

impl JobSystem {
    /// An empty queue.
    pub fn new() -> (r: Self)
        ensures
            r@ == Seq::<Job>::empty(),
    {
        JobSystem { jobs: Vec::new() }
    }

    /// Asks for `callback` to be run after those already asked for.
    pub fn add_callback(&mut self, callback: Job)
        ensures
            final(self)@ == old(self)@.push(callback),
    {
        self.jobs.push(callback);
    }

    /// Whether no callback is waiting.
    pub fn is_empty(&self) -> (r: bool)
        ensures
            r == (self@.len() == 0),
    {
        self.jobs.len() == 0
    }

    /// Hands out every waiting callback, in order, for the caller to run, and empties the
    /// queue. There was work to do exactly when the result is not empty.
    pub fn run_all(&mut self) -> (r: Vec<Job>)
        ensures
            r@ == old(self)@,
            final(self)@ == Seq::<Job>::empty(),
    {
        let mut jobs = Vec::new();
        std::mem::swap(&mut jobs, &mut self.jobs);
        jobs
    }
}

} // verus!
