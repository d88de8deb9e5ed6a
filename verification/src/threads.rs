//! The job queue of a worker pool: one first-in-first-out queue that a fixed
//! number of workers drain, and that is shut down by one sentinel for each
//! worker.
//!
//! The queue takes no lock and starts no thread: a pool holds it behind its
//! lock, and each worker takes one message in each critical section.

use std::collections::VecDeque;
use vstd::prelude::*;

verus! {

/// What a worker takes from the queue.
#[derive(Debug, PartialEq)]
pub enum Message<J> {
    /// A job to run once, to completion.
    NewJob(J),
    /// The sentinel: the worker that takes it leaves its loop.
    Terminate,
}

/// What a job queue stands for.
pub struct QueueView<J> {
    /// The messages that wait, the oldest first.
    pub pending: Seq<Message<J>>,
    /// The workers that have not yet taken a sentinel.
    pub workers: nat,
    /// Whether the shutdown has begun.
    pub closing: bool,
}

impl<J> QueueView<J> {
    /// The number of sentinels that wait.
    pub open spec fn sentinels(self) -> nat {
        if self.closing {
            self.workers
        } else {
            0
        }
    }

    /// The state of a queue that is in use or being shut down. Before the
    /// shutdown there is a worker, and only jobs wait. From the shutdown on,
    /// the jobs that still wait are followed by exactly one sentinel for
    /// each worker that is left.
    pub open spec fn well_formed(self) -> bool {
        &&& !self.closing ==> self.workers >= 1
        &&& self.sentinels() <= self.pending.len()
        &&& forall|i: int|
            0 <= i < self.pending.len() - self.sentinels() ==> (#[trigger] self.pending[i]) is NewJob
        &&& forall|i: int|
            self.pending.len() - self.sentinels() <= i < self.pending.len() ==> (
            #[trigger] self.pending[i]) is Terminate
    }

    /// The queue after `job` was submitted: it waits behind all others,
    /// unless the shutdown has begun, in which case nothing changes.
    pub open spec fn submitted(self, job: J) -> QueueView<J> {
        if self.closing {
            self
        } else {
            QueueView { pending: self.pending.push(Message::NewJob(job)), ..self }
        }
    }

    /// The queue after the shutdown has begun: one sentinel for each worker
    /// waits behind the jobs. A second shutdown changes nothing.
    pub open spec fn shut_down(self) -> QueueView<J> {
        if self.closing {
            self
        } else {
            QueueView {
                pending: self.pending + Seq::new(self.workers, |i: int| Message::<J>::Terminate),
                workers: self.workers,
                closing: true,
            }
        }
    }

    /// The queue after a worker took the oldest message. A worker that took
    /// a sentinel is no longer counted.
    pub open spec fn taken(self) -> QueueView<J> {
        if self.pending.len() == 0 {
            self
        } else {
            QueueView {
                pending: self.pending.skip(1),
                workers: if self.pending[0] is Terminate {
                    (self.workers - 1) as nat
                } else {
                    self.workers
                },
                closing: self.closing,
            }
        }
    }

    /// The queue after `n` messages were taken.
    pub open spec fn taken_times(self, n: nat) -> QueueView<J>
        decreases n,
    {
        if n == 0 {
            self
        } else {
            self.taken().taken_times((n - 1) as nat)
        }
    }
}

/// Taking a message keeps the queue well formed.
pub proof fn lemma_taken_well_formed<J>(queue: QueueView<J>)
    requires
        queue.well_formed(),
    ensures
        queue.taken().well_formed(),
{
    if queue.pending.len() > 0 {
        let after = queue.taken();
        assert forall|i: int| 0 <= i < after.pending.len() - after.sentinels() implies (
        #[trigger] after.pending[i]) is NewJob by {
            assert(after.pending[i] == queue.pending[i + 1]);
        }
        assert forall|i: int|
            after.pending.len() - after.sentinels() <= i < after.pending.len() implies (
        #[trigger] after.pending[i]) is Terminate by {
            assert(after.pending[i] == queue.pending[i + 1]);
        }
        if queue.pending[0] is Terminate {
            assert(queue.sentinels() == queue.pending.len());
        }
    }
}

/// Messages leave in the order in which they came, each one once: after `n`
/// were taken, the first `n` are gone and the others wait as before.
pub proof fn law_first_in_first_out<J>(queue: QueueView<J>, n: nat)
    requires
        n <= queue.pending.len(),
    ensures
        queue.taken_times(n).pending == queue.pending.skip(n as int),
        queue.taken_times(n).closing == queue.closing,
    decreases n,
{
    if n == 0 {
        assert(queue.pending.skip(0) =~= queue.pending);
    } else {
        law_first_in_first_out(queue.taken(), (n - 1) as nat);
        assert(queue.pending.skip(1).skip(n - 1) =~= queue.pending.skip(n as int));
    }
}

/// A job that was submitted before the shutdown is the last to wait, behind
/// all that came before it.
pub proof fn law_submission_keeps_order<J>(queue: QueueView<J>, job: J)
    requires
        queue.well_formed(),
        !queue.closing,
    ensures
        queue.submitted(job).well_formed(),
        queue.submitted(job).pending.len() == queue.pending.len() + 1,
        queue.submitted(job).pending.last() == Message::NewJob(job),
        queue.submitted(job).pending.drop_last() == queue.pending,
{
    let after = queue.submitted(job);
    assert(after.pending.drop_last() =~= queue.pending);
}

/// Draining a queue that is being shut down ends every worker: once all
/// that wait were taken, nothing waits and no worker is left.
pub proof fn law_shutdown_ends_every_worker<J>(queue: QueueView<J>)
    requires
        queue.well_formed(),
        queue.closing,
    ensures
        queue.taken_times(queue.pending.len()).pending.len() == 0,
        queue.taken_times(queue.pending.len()).workers == 0,
    decreases queue.pending.len(),
{
    if queue.pending.len() > 0 {
        lemma_taken_well_formed(queue);
        law_shutdown_ends_every_worker(queue.taken());
    }
}

/// The shutdown of a queue in use puts exactly one sentinel for each worker
/// behind the jobs that wait, and the jobs stay as they are.
pub proof fn law_one_sentinel_for_each_worker<J>(queue: QueueView<J>)
    requires
        queue.well_formed(),
        !queue.closing,
    ensures
        queue.shut_down().well_formed(),
        queue.shut_down().pending.len() == queue.pending.len() + queue.workers,
        queue.shut_down().pending.take(queue.pending.len() as int) == queue.pending,
        forall|i: int|
            queue.pending.len() <= i < queue.pending.len() + queue.workers ==> (
            #[trigger] queue.shut_down().pending[i]) is Terminate,
{
    let after = queue.shut_down();
    assert(after.pending.take(queue.pending.len() as int) =~= queue.pending);
    assert forall|i: int| 0 <= i < after.pending.len() - after.sentinels() implies (
    #[trigger] after.pending[i]) is NewJob by {
        assert(after.pending[i] == queue.pending[i]);
    }
}

/// The job queue of a pool of workers.
pub struct JobQueue<J> {
    pending: VecDeque<Message<J>>,
    workers: usize,
    closing: bool,
}

impl<J> View for JobQueue<J> {
    type V = QueueView<J>;

    closed spec fn view(&self) -> QueueView<J> {
        QueueView { pending: self.pending@, workers: self.workers as nat, closing: self.closing }
    }
}

impl<J> JobQueue<J> {
    #[verifier::type_invariant]
    spec fn inv(&self) -> bool {
        self@.well_formed()
    }

    /// The queue of a pool of `size` workers: nothing waits.
    pub fn new(size: usize) -> (queue: JobQueue<J>)
        requires
            size > 0,
        ensures
            queue@ == (QueueView::<J> {
                pending: Seq::<Message<J>>::empty(),
                workers: size as nat,
                closing: false,
            }),
            queue@.well_formed(),
    {
        JobQueue { pending: VecDeque::new(), workers: size, closing: false }
    }

    /// The number of workers that have not yet taken a sentinel.
    pub fn workers(&self) -> (workers: usize)
        ensures
            workers == self@.workers,
            self@.well_formed(),
    {
        proof {
            use_type_invariant(self);
        }
        self.workers
    }

    /// Whether the shutdown has begun.
    pub fn is_closing(&self) -> (closing: bool)
        ensures
            closing == self@.closing,
    {
        self.closing
    }

    /// The number of messages that wait.
    pub fn len(&self) -> (n: usize)
        ensures
            n == self@.pending.len(),
    {
        self.pending.len()
    }

    /// Submits a job: it waits behind all others, and the call does not wait
    /// for it to run. Once the shutdown has begun the job is handed back.
    pub fn execute(&mut self, job: J) -> (refused: Result<(), J>)
        ensures
            final(self)@ == old(self)@.submitted(job),
            final(self)@.well_formed(),
            match refused {
                Ok(_) => !old(self)@.closing,
                Err(back) => old(self)@.closing && back == job,
            },
    {
        proof {
            use_type_invariant(&*self);
        }
        if self.closing {
            return Err(job);
        }
        let ghost before = self@;
        let mut pending: VecDeque<Message<J>> = VecDeque::new();
        std::mem::swap(&mut self.pending, &mut pending);
        pending.push_back(Message::NewJob(job));
        proof {
            law_submission_keeps_order(before, job);
            assert(pending@ == before.submitted(job).pending);
        }
        self.pending = pending;
        Ok(())
    }

    /// Begins the shutdown: one sentinel for each worker goes behind the jobs
    /// that wait. A second call changes nothing.
    pub fn shutdown(&mut self)
        ensures
            final(self)@ == old(self)@.shut_down(),
            final(self)@.well_formed(),
    {
        proof {
            use_type_invariant(&*self);
        }
        if self.closing {
            return ;
        }
        let ghost before = self@;
        let mut queue = JobQueue { pending: VecDeque::new(), workers: 1, closing: false };
        std::mem::swap(self, &mut queue);
        let JobQueue { pending, workers, closing } = queue;
        let mut pending = pending;
        let mut sent: usize = 0;
        while sent < workers
            invariant
                sent <= workers,
                pending@ == before.pending + Seq::new(sent as nat, |i: int| Message::<J>::Terminate),
            decreases workers - sent,
        {
            pending.push_back(Message::Terminate);
            sent += 1;
            assert(pending@ =~= before.pending + Seq::new(
                sent as nat,
                |i: int| Message::<J>::Terminate,
            ));
        }
        proof {
            law_one_sentinel_for_each_worker(before);
        }
        *self = JobQueue { pending, workers, closing: true };
    }

    /// Takes the oldest message, if one waits. A worker runs the job it
    /// takes, or leaves its loop if it takes the sentinel.
    pub fn take(&mut self) -> (message: Option<Message<J>>)
        ensures
            final(self)@ == old(self)@.taken(),
            final(self)@.well_formed(),
            match message {
                Some(m) => old(self)@.pending.len() > 0 && m == old(self)@.pending[0],
                None => old(self)@.pending.len() == 0,
            },
    {
        proof {
            use_type_invariant(&*self);
            lemma_taken_well_formed(self@);
        }
        let ghost before = self@;
        let mut queue = JobQueue { pending: VecDeque::new(), workers: 1, closing: false };
        std::mem::swap(self, &mut queue);
        let JobQueue { pending, workers, closing } = queue;
        let mut pending = pending;
        let message = pending.pop_front();
        let left: usize = match &message {
            Some(Message::Terminate) => {
                assert(before.sentinels() == before.pending.len());
                workers - 1
            },
            _ => workers,
        };
        assert(pending@ =~= before.taken().pending);
        *self = JobQueue { pending, workers: left, closing };
        message
    }
}

} // verus!
