use vstd::prelude::*;

verus! {

/// A message travelling through the pool's queue: a job to run, or the order
/// for one worker to stop.
pub enum Message<J> {
    NewJob(J),
    Terminate,
}

/// Construction of a pool failed: a pool needs at least one worker.
#[derive(Debug, PartialEq, Eq, Structural)]
pub enum PoolCreationError {
    ZeroWorkers,
}

/// A worker slot of the pool, known by its id.
pub struct Worker {
    pub id: usize,
    pub running: bool,
}

/// The dispatch core of a fixed-size pool: one FIFO queue of messages shared
/// by all workers, and the state of each worker. The threads that run the
/// jobs belong to the caller; each asks for its next message by its id.
pub struct ThreadPool<J> {
    workers: Vec<Worker>,
    queue: std::collections::VecDeque<Message<J>>,
    shut_down: bool,
    submitted: Ghost<Seq<J>>,
    delivered: Ghost<Seq<J>>,
    cutoff: Ghost<nat>,
}

/// The jobs carried by a sequence of messages, in order.
pub open spec fn jobs_of<J>(q: Seq<Message<J>>) -> Seq<J>
    decreases q.len(),
{
    if q.len() == 0 {
        Seq::empty()
    } else {
        let rest = jobs_of(q.drop_last());
        match q.last() {
            Message::NewJob(j) => rest.push(j),
            Message::Terminate => rest,
        }
    }
}

/// How many `Terminate` messages a sequence of messages holds.
pub open spec fn terminates_in<J>(q: Seq<Message<J>>) -> nat
    decreases q.len(),
{
    if q.len() == 0 {
        0
    } else {
        terminates_in(q.drop_last()) + match q.last() {
            Message::NewJob(_) => 0nat,
            Message::Terminate => 1nat,
        }
    }
}

/// How many `NewJob` messages stand before the first `Terminate`.
pub open spec fn leading_jobs<J>(q: Seq<Message<J>>) -> nat
    decreases q.len(),
{
    if q.len() == 0 {
        0
    } else if q[0] is Terminate {
        0
    } else {
        1 + leading_jobs(q.drop_first())
    }
}

/// How many of the given workers have stopped.
pub open spec fn stopped_in(ws: Seq<bool>) -> nat
    decreases ws.len(),
{
    if ws.len() == 0 {
        0
    } else {
        stopped_in(ws.drop_last()) + if ws.last() { 0nat } else { 1nat }
    }
}

impl<J> ThreadPool<J> {
    /// Number of workers the pool was created with.
    pub closed spec fn size(&self) -> nat {
        self.workers@.len()
    }

    /// The messages waiting in the queue, front first.
    pub closed spec fn queued(&self) -> Seq<Message<J>> {
        self.queue@
    }

    /// Whether worker `i` still takes messages.
    pub open spec fn is_running(&self, i: int) -> bool {
        self.running_states()[i]
    }

    /// Running state of every worker, by id.
    pub closed spec fn running_states(&self) -> Seq<bool> {
        self.workers@.map_values(|w: Worker| w.running)
    }

    /// Whether shutdown has been requested.
    pub closed spec fn is_shut_down(&self) -> bool {
        self.shut_down
    }

    /// Every job ever submitted, in submission order.
    pub closed spec fn submitted(&self) -> Seq<J> {
        self.submitted@
    }

    /// Every job handed to a worker so far, in the order handed out.
    pub closed spec fn delivered(&self) -> Seq<J> {
        self.delivered@
    }

    /// The jobs that had been submitted when shutdown was requested (none
    /// before that).
    pub closed spec fn jobs_before_shutdown(&self) -> Seq<J> {
        self.submitted@.take(self.cutoff@ as int)
    }

    /// The pool's invariant: worker `i` has id `i`; each submitted job has
    /// either been handed out or is still queued, in submission order; before
    /// shutdown every worker runs and no `Terminate` is queued; after it, the
    /// stopped workers and the queued `Terminate` messages add up to the size,
    /// and every job submitted before shutdown is handed out or queued ahead
    /// of the first `Terminate`.
    pub closed spec fn wf(&self) -> bool {
        &&& self.workers@.len() >= 1
        &&& forall|i: int| 0 <= i < self.workers@.len() ==> #[trigger] self.workers@[i].id == i
        &&& self.submitted@ == self.delivered@ + jobs_of(self.queue@)
        &&& !self.shut_down ==> {
            &&& terminates_in(self.queue@) == 0
            &&& forall|i: int| 0 <= i < self.workers@.len() ==> #[trigger] self.workers@[i].running
        }
        &&& self.shut_down ==> stopped_in(self.running_states()) + terminates_in(self.queue@)
            == self.workers@.len()
        &&& !self.shut_down ==> self.cutoff@ == 0
        &&& self.cutoff@ <= self.submitted@.len()
        &&& self.shut_down && terminates_in(self.queue@) > 0 ==> self.delivered@.len()
            + leading_jobs(self.queue@) >= self.cutoff@
        &&& self.shut_down && terminates_in(self.queue@) == 0 ==> self.delivered@.len()
            >= self.cutoff@
    }
}

proof fn lemma_jobs_drop_first<J>(q: Seq<Message<J>>)
    requires
        q.len() > 0,
    ensures
        jobs_of(q) == match q[0] {
            Message::NewJob(j) => seq![j] + jobs_of(q.drop_first()),
            Message::Terminate => jobs_of(q.drop_first()),
        },
        terminates_in(q) == terminates_in(q.drop_first()) + match q[0] {
            Message::NewJob(_) => 0nat,
            Message::Terminate => 1nat,
        },
    decreases q.len(),
{
    let d = q.drop_first();
    if q.len() > 1 {
        lemma_jobs_drop_first(q.drop_last());
        assert(q.drop_last().drop_first() == d.drop_last());
        assert(d.last() == q.last());
        assert(jobs_of(d) == match d.last() {
            Message::NewJob(k) => jobs_of(d.drop_last()).push(k),
            Message::Terminate => jobs_of(d.drop_last()),
        });
        match q[0] {
            Message::NewJob(j) => {
                match q.last() {
                    Message::NewJob(k) => {
                        assert(jobs_of(q) == (seq![j] + jobs_of(d.drop_last())).push(k));
                        assert((seq![j] + jobs_of(d.drop_last())).push(k) == seq![j] + jobs_of(
                            d.drop_last(),
                        ).push(k));
                    },
                    Message::Terminate => {},
                }
            },
            Message::Terminate => {},
        }
    } else {
        assert(d.len() == 0);
        assert(q.drop_last().len() == 0);
        assert(q.last() == q[0]);
        assert(jobs_of(d) == Seq::<J>::empty());
        assert(jobs_of(q.drop_last()) == Seq::<J>::empty());
        assert(terminates_in(q.drop_last()) == 0);
        match q[0] {
            Message::NewJob(j) => {
                assert(jobs_of(q) == Seq::<J>::empty().push(j));
                assert(seq![j] + Seq::<J>::empty() == Seq::<J>::empty().push(j));
            },
            Message::Terminate => {},
        }
    }
}

proof fn lemma_leading_push<J>(q: Seq<Message<J>>, m: Message<J>)
    requires
        terminates_in(q) > 0,
    ensures
        leading_jobs(q.push(m)) == leading_jobs(q),
    decreases q.len(),
{
    lemma_jobs_drop_first(q);
    if !(q[0] is Terminate) {
        lemma_leading_push(q.drop_first(), m);
        assert(q.push(m).drop_first() == q.drop_first().push(m));
    }
}

proof fn lemma_leading_before_terminate<J>(q: Seq<Message<J>>)
    requires
        terminates_in(q) == 0,
    ensures
        leading_jobs(q.push(Message::Terminate)) == q.len(),
        jobs_of(q).len() == q.len(),
    decreases q.len(),
{
    if q.len() > 0 {
        lemma_jobs_drop_first(q);
        lemma_leading_before_terminate(q.drop_first());
        assert(q.push(Message::Terminate).drop_first() == q.drop_first().push(Message::Terminate));
    } else {
        assert(q.push(Message::Terminate).drop_first().len() == 0);
    }
}

proof fn lemma_none_running(ws: Seq<bool>)
    requires
        forall|i: int| 0 <= i < ws.len() ==> !ws[i],
    ensures
        stopped_in(ws) == ws.len(),
    decreases ws.len(),
{
    if ws.len() > 0 {
        lemma_none_running(ws.drop_last());
    }
}

proof fn lemma_stop_one(ws: Seq<bool>, i: int)
    requires
        0 <= i < ws.len(),
        ws[i],
    ensures
        stopped_in(ws.update(i, false)) == stopped_in(ws) + 1,
    decreases ws.len(),
{
    if i < ws.len() - 1 {
        lemma_stop_one(ws.drop_last(), i);
        assert(ws.update(i, false).drop_last() == ws.drop_last().update(i, false));
    } else {
        assert(ws.update(i, false).drop_last() == ws.drop_last());
    }
}

proof fn lemma_all_running(ws: Seq<bool>)
    requires
        forall|i: int| 0 <= i < ws.len() ==> ws[i],
    ensures
        stopped_in(ws) == 0,
    decreases ws.len(),
{
    if ws.len() > 0 {
        lemma_all_running(ws.drop_last());
    }
}

/// No job is lost or handed out twice: in every reachable state, the jobs
/// handed to workers followed by the jobs still queued are exactly the jobs
/// submitted, in submission order. Once no job is queued, every submitted job
/// has been handed out exactly once.
pub proof fn lemma_each_job_once<J>(p: &ThreadPool<J>)
    requires
        p.wf(),
    ensures
        p.submitted() == p.delivered() + jobs_of(p.queued()),
        jobs_of(p.queued()).len() == 0 ==> p.delivered() == p.submitted(),
{
    if jobs_of(p.queued()).len() == 0 {
        assert(p.delivered() + jobs_of(p.queued()) =~= p.delivered());
    }
}

/// Once every worker has stopped after shutdown, every job submitted before
/// shutdown has been handed out, in submission order.
pub proof fn lemma_all_stopped_all_handed_out<J>(p: &ThreadPool<J>)
    requires
        p.wf(),
        p.is_shut_down(),
        forall|i: int| 0 <= i < p.size() ==> !#[trigger] p.is_running(i),
    ensures
        p.delivered().len() >= p.jobs_before_shutdown().len(),
        p.delivered().take(p.jobs_before_shutdown().len() as int) == p.jobs_before_shutdown(),
{
    assert forall|i: int| 0 <= i < p.running_states().len() implies !p.running_states()[i] by {
        assert(!p.is_running(i));
    }
    lemma_none_running(p.running_states());
    let c = p.cutoff@ as int;
    assert(p.submitted().take(c) =~= p.delivered().take(c));
}

/// Shutdown accounts for every worker: before it, all workers run; after
/// it, the workers that have stopped and the `Terminate` messages still
/// queued add up to the pool's size, so each worker consumes exactly one.
pub proof fn lemma_shutdown_accounting<J>(p: &ThreadPool<J>)
    requires
        p.wf(),
    ensures
        !p.is_shut_down() ==> stopped_in(p.running_states()) == 0,
        !p.is_shut_down() ==> forall|i: int| 0 <= i < p.size() ==> #[trigger] p.is_running(i),
        p.is_shut_down() ==> stopped_in(p.running_states()) + terminates_in(p.queued())
            == p.size(),
        p.is_shut_down() && terminates_in(p.queued()) == 0 ==> forall|i: int|
            0 <= i < p.size() ==> !#[trigger] p.is_running(i),
{
    if !p.is_shut_down() {
        lemma_all_running(p.running_states());
    }
    if p.is_shut_down() && terminates_in(p.queued()) == 0 {
        assert forall|i: int| 0 <= i < p.size() implies !#[trigger] p.is_running(i) by {
            if p.is_running(i) {
                lemma_stopped_bound(p.running_states(), i);
            }
        }
    }
}

proof fn lemma_stopped_bound(ws: Seq<bool>, i: int)
    requires
        0 <= i < ws.len(),
        ws[i],
    ensures
        stopped_in(ws) < ws.len(),
    decreases ws.len(),
{
    if i < ws.len() - 1 {
        lemma_stopped_bound(ws.drop_last(), i);
    } else {
        lemma_stopped_at_most(ws.drop_last());
    }
}

proof fn lemma_stopped_at_most(ws: Seq<bool>)
    ensures
        stopped_in(ws) <= ws.len(),
    decreases ws.len(),
{
    if ws.len() > 0 {
        lemma_stopped_at_most(ws.drop_last());
    }
}

impl<J> ThreadPool<J> {
    /// Creates a pool of `size` workers, all running, with an empty queue.
    /// A size of zero is refused.
    pub fn new(size: usize) -> (r: Result<ThreadPool<J>, PoolCreationError>)
        ensures
            size == 0 <==> r is Err,
            r matches Ok(p) ==> {
                &&& p.wf()
                &&& p.size() == size
                &&& p.queued().len() == 0
                &&& !p.is_shut_down()
                &&& p.running_states() == Seq::new(size as nat, |i: int| true)
                &&& p.submitted().len() == 0
                &&& p.delivered().len() == 0
                &&& stopped_in(p.running_states()) == 0
            },
    {
        if size == 0 {
            return Err(PoolCreationError::ZeroWorkers);
        }
        let mut workers: Vec<Worker> = Vec::with_capacity(size);
        let mut i: usize = 0;
        while i < size
            invariant
                i <= size,
                workers@.len() == i,
                forall|k: int| 0 <= k < i ==> (#[trigger] workers@[k]).id == k && workers@[k].running,
            decreases size - i,
        {
            workers.push(Worker { id: i, running: true });
            i = i + 1;
        }
        let pool = ThreadPool {
            workers,
            queue: std::collections::VecDeque::new(),
            shut_down: false,
            submitted: Ghost(Seq::empty()),
            delivered: Ghost(Seq::empty()),
            cutoff: Ghost(0),
        };
        assert(jobs_of(pool.queue@) == Seq::<J>::empty());
        assert(pool.delivered@ + jobs_of(pool.queue@) == Seq::<J>::empty());
        assert(pool.running_states() =~= Seq::new(size as nat, |k: int| true));
        proof {
            lemma_all_running(pool.running_states());
        }
        Ok(pool)
    }

    /// Number of workers in the pool.
    pub fn worker_count(&self) -> (r: usize)
        ensures
            r == self.size(),
    {
        self.workers.len()
    }

    /// Number of messages waiting in the queue.
    pub fn pending(&self) -> (r: usize)
        ensures
            r == self.queued().len(),
    {
        self.queue.len()
    }

    /// Number of workers that have not yet stopped.
    pub fn live_workers(&self) -> (r: usize)
        requires
            self.wf(),
        ensures
            r + stopped_in(self.running_states()) == self.size(),
    {
        let mut n: usize = 0;
        let mut i: usize = 0;
        while i < self.workers.len()
            invariant
                self.wf(),
                i <= self.workers@.len(),
                n + stopped_in(self.running_states().take(i as int)) == i,
            decreases self.workers@.len() - i,
        {
            assert(self.running_states().take(i + 1).drop_last()
                == self.running_states().take(i as int));
            if self.workers[i].running {
                n = n + 1;
            }
            i = i + 1;
        }
        assert(self.running_states().take(i as int) == self.running_states());
        n
    }

    /// Enqueues `job` at the back of the queue. Never waits for a worker.
    pub fn execute(&mut self, job: J)
        requires
            old(self).wf(),
        ensures
            final(self).wf(),
            final(self).queued() == old(self).queued().push(Message::NewJob(job)),
            final(self).submitted() == old(self).submitted().push(job),
            final(self).delivered() == old(self).delivered(),
            final(self).size() == old(self).size(),
            final(self).running_states() == old(self).running_states(),
            final(self).is_shut_down() == old(self).is_shut_down(),
            final(self).jobs_before_shutdown() == old(self).jobs_before_shutdown(),
    {
        let ghost j = job;
        self.queue.push_back(Message::NewJob(job));
        proof {
            self.submitted@ = self.submitted@.push(j);
            assert(self.queue@.drop_last() == old(self).queue@);
            if terminates_in(old(self).queue@) > 0 {
                lemma_leading_push(old(self).queue@, Message::NewJob(j));
            }
            assert(self.submitted@.take(self.cutoff@ as int) =~= old(self).submitted@.take(
                self.cutoff@ as int,
            ));
        }
    }

    /// Requests shutdown: enqueues exactly one `Terminate` per worker.
    pub fn shutdown(&mut self)
        requires
            old(self).wf(),
            !old(self).is_shut_down(),
        ensures
            final(self).wf(),
            final(self).is_shut_down(),
            final(self).queued().len() == old(self).queued().len() + old(self).size(),
            final(self).queued().take(old(self).queued().len() as int) == old(self).queued(),
            forall|k: int|
                old(self).queued().len() <= k < final(self).queued().len()
                    ==> #[trigger] final(self).queued()[k] is Terminate,
            terminates_in(final(self).queued()) == old(self).size(),
            final(self).submitted() == old(self).submitted(),
            final(self).delivered() == old(self).delivered(),
            final(self).size() == old(self).size(),
            final(self).running_states() == old(self).running_states(),
            final(self).jobs_before_shutdown() == old(self).submitted(),
    {
        proof {
            lemma_all_running(self.running_states());
            lemma_leading_before_terminate(self.queue@);
        }
        let n = self.workers.len();
        let mut i: usize = 0;
        while i < n
            invariant
                n == self.workers@.len(),
                i <= n,
                self.workers == old(self).workers,
                self.submitted == old(self).submitted,
                self.delivered == old(self).delivered,
                !self.shut_down,
                self.queue@.len() == old(self).queue@.len() + i,
                self.queue@.take(old(self).queue@.len() as int) == old(self).queue@,
                forall|k: int|
                    old(self).queue@.len() <= k < self.queue@.len() ==> #[trigger] self.queue@[k] is Terminate,
                terminates_in(self.queue@) == i,
                jobs_of(self.queue@) == jobs_of(old(self).queue@),
                terminates_in(old(self).queue@) == 0,
                self.cutoff == old(self).cutoff,
                i > 0 ==> leading_jobs(self.queue@) == old(self).queue@.len(),
                jobs_of(old(self).queue@).len() == old(self).queue@.len(),
            decreases n - i,
        {
            let ghost before = self.queue@;
            self.queue.push_back(Message::Terminate);
            proof {
                if i > 0 {
                    lemma_leading_push(before, Message::Terminate);
                } else {
                    assert(before == old(self).queue@);
                    lemma_leading_before_terminate(before);
                }
                assert(self.queue@.drop_last() == before);
                assert(self.queue@.take(old(self).queue@.len() as int)
                    == before.take(old(self).queue@.len() as int));
            }
            i = i + 1;
        }
        self.shut_down = true;
        proof {
            self.cutoff@ = self.submitted@.len();
            assert(self.submitted@.take(self.cutoff@ as int) =~= self.submitted@);
        }
    }

    /// Worker `worker` takes the next message. A stopped worker, or one that
    /// finds the queue empty, gets nothing and nothing changes. Otherwise the
    /// front message is removed and handed to this worker alone; on
    /// `Terminate` the worker stops for good. No other worker's state is
    /// read, so a worker busy with a job never holds up the others.
    pub fn next_message(&mut self, worker: usize) -> (r: Option<Message<J>>)
        requires
            old(self).wf(),
            worker < old(self).size(),
        ensures
            final(self).wf(),
            final(self).size() == old(self).size(),
            final(self).submitted() == old(self).submitted(),
            final(self).is_shut_down() == old(self).is_shut_down(),
            final(self).jobs_before_shutdown() == old(self).jobs_before_shutdown(),
            !old(self).is_running(worker as int) || old(self).queued().len() == 0 ==> {
                &&& r is None
                &&& final(self).queued() == old(self).queued()
                &&& final(self).delivered() == old(self).delivered()
                &&& final(self).running_states() == old(self).running_states()
            },
            old(self).is_running(worker as int) && old(self).queued().len() > 0 ==> {
                &&& r == Some(old(self).queued()[0])
                &&& final(self).queued() == old(self).queued().drop_first()
                &&& match old(self).queued()[0] {
                    Message::NewJob(j) => {
                        &&& final(self).delivered() == old(self).delivered().push(j)
                        &&& final(self).running_states() == old(self).running_states()
                    },
                    Message::Terminate => {
                        &&& final(self).delivered() == old(self).delivered()
                        &&& final(self).running_states() == old(self).running_states().update(
                            worker as int,
                            false,
                        )
                    },
                }
            },
    {
        if !self.workers[worker].running {
            return None;
        }
        let ghost q = self.queue@;
        match self.queue.pop_front() {
            None => None,
            Some(m) => {
                proof {
                    lemma_jobs_drop_first(q);
                }
                match m {
                    Message::NewJob(job) => {
                        proof {
                            self.delivered@ = self.delivered@.push(job);
                            assert(old(self).delivered@ + (seq![job] + jobs_of(self.queue@))
                                == self.delivered@ + jobs_of(self.queue@));
                        }
                        Some(Message::NewJob(job))
                    },
                    Message::Terminate => {
                        proof {
                            lemma_stop_one(self.running_states(), worker as int);
                        }
                        self.workers.set(worker, Worker { id: worker, running: false });
                        assert(self.running_states() == old(self).running_states().update(
                            worker as int,
                            false,
                        ));
                        Some(Message::Terminate)
                    },
                }
            },
        }
    }
}

} // verus!
