use vstd::prelude::*;

verus! {

/// What a worker finds on the shared queue.
pub enum Message<J> {
    /// A job to run.
    Job(J),
    /// Leave the worker loop.
    Terminate,
}

/// The unbounded FIFO queue that feeds a pool's workers. Submitting never
/// blocks or fails; workers take messages from the front.
pub struct WorkQueue<J> {
    items: Vec<Message<J>>,
}

/// What `next` does: hand out the front message, or nothing when empty.
pub open spec fn next_post<J>(before: Seq<Message<J>>, after: Seq<Message<J>>, out: Option<Message<J>>) -> bool {
    if before.len() == 0 {
        out is None && after == before
    } else {
        out == Some(before[0]) && after == before.drop_first()
    }
}

impl<J> WorkQueue<J> {
    /// The queued messages, front first.
    pub closed spec fn pending(&self) -> Seq<Message<J>> {
        self.items@
    }

    pub fn new() -> (r: WorkQueue<J>)
        ensures
            r.pending() == Seq::<Message<J>>::empty(),
    {
        WorkQueue { items: Vec::new() }
    }

    pub fn len(&self) -> (r: usize)
        ensures
            r == self.pending().len(),
    {
        self.items.len()
    }

    /// Queues a job behind everything already queued.
    pub fn submit(&mut self, job: J)
        ensures
            final(self).pending() == old(self).pending().push(Message::Job(job)),
    {
        self.items.push(Message::Job(job));
    }

    /// Queues one terminate signal for each of `workers` workers.
    pub fn terminate_all(&mut self, workers: usize)
        ensures
            final(self).pending() == old(self).pending() + Seq::new(
                workers as nat,
                |_i: int| Message::<J>::Terminate,
            ),
    {
        let mut k: usize = 0;
        while k < workers
            invariant
                k <= workers,
                self.pending() == old(self).pending() + Seq::new(
                    k as nat,
                    |_i: int| Message::<J>::Terminate,
                ),
            decreases workers - k,
        {
            self.items.push(Message::Terminate);
            k = k + 1;
            assert(self.pending() =~= old(self).pending() + Seq::new(
                k as nat,
                |_i: int| Message::<J>::Terminate,
            ));
        }
    }

    /// Takes the front message, if any.
    pub fn next(&mut self) -> (r: Option<Message<J>>)
        ensures
            next_post(old(self).pending(), final(self).pending(), r),
    {
        if self.items.len() == 0 {
            None
        } else {
            let m = self.items.remove(0);
            assert(self.items@ =~= old(self).pending().drop_first());
            Some(m)
        }
    }
}

} // verus!
