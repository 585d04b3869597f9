//! The dispatch loop: the single logical executor of the core.
//!
//! Producers enqueue task envelopes through [`EventManager::submit_task`];
//! the hosting process drives the loop by calling
//! [`EventManager::process_next`] until it reports that the loop has
//! terminated. Tasks are handled strictly in submission order — the core
//! ordering guarantee — and each handling step broadcasts at most one event
//! to the subscription registry. A handling routine that fails is turned
//! into exactly one failure event and never stops the loop.
//!
//! Long-running work (an actual library scan) is delegated to the hosting
//! process: the dispatcher records the job, reports whether the delegation
//! was accepted, and the delegated work feeds progress, completion and
//! failure back through the relay methods while polling the advisory
//! cancellation flag.

use vstd::prelude::*;

use crate::event::{CoreEvent, DispatchClosed, HandlingOutcome, InternalCoreTask, JobId};
use crate::subscription::{
    broadcast_view, sub_index, RegistryView, SubscriptionRegistry, SubscriptionView,
};

verus! {

/// One job the dispatch loop has started and not yet seen finish.
#[derive(Debug, PartialEq, Eq)]
pub struct JobEntry {
    /// Identifier the job was started under.
    pub id: JobId,
    /// Advisory cancellation flag, raised by a cancel task and polled by the
    /// delegated work at its safe points.
    pub cancel_requested: bool,
}

/// What one call of [`EventManager::process_next`] did.
#[derive(Debug, PartialEq, Eq)]
pub enum StepResult {
    /// The task at the head of the queue was handled; its envelope is
    /// handed back to the caller.
    Processed(InternalCoreTask),
    /// No task was pending: the loop would suspend until the next
    /// submission.
    Idle,
    /// The loop has terminated; nothing will ever be processed again.
    Closed,
}

/// Mathematical model of the [`EventManager`].
#[verifier::ext_equal]
pub struct EventManagerView {
    /// Whether the loop is in its running state (as opposed to terminated).
    pub running: bool,
    /// Tasks submitted and not yet handled, in submission order.
    pub pending: Seq<InternalCoreTask>,
    /// Every task ever accepted by `submit_task`, in submission order.
    pub submitted: Seq<InternalCoreTask>,
    /// Every task ever handled, in the order handled.
    pub processed: Seq<InternalCoreTask>,
    /// The jobs started and not yet finished, in start order.
    pub jobs: Seq<JobEntry>,
    /// The subscription registry's model.
    pub registry: RegistryView,
}

/// Index of the first tracked job whose identifier reads `id`, or `-1`.
pub open spec fn job_index(jobs: Seq<JobEntry>, id: Seq<char>) -> int
    decreases jobs.len(),
{
    if jobs.len() == 0 {
        -1
    } else if jobs[0].id@ == id {
        0
    } else if job_index(jobs.drop_first(), id) == -1 {
        -1
    } else {
        job_index(jobs.drop_first(), id) + 1
    }
}

/// Whether a job with this identifier is currently tracked as running.
pub open spec fn has_job(jobs: Seq<JobEntry>, id: Seq<char>) -> bool {
    job_index(jobs, id) >= 0
}

/// The jobs table after handling one task.
pub open spec fn step_jobs(
    t: InternalCoreTask,
    outcome: HandlingOutcome,
    jobs: Seq<JobEntry>,
) -> Seq<JobEntry> {
    match t {
        InternalCoreTask::StartJob(id) => match outcome {
            HandlingOutcome::Succeeded => jobs.push(JobEntry { id: id, cancel_requested: false }),
            HandlingOutcome::Failed(_) => jobs,
        },
        InternalCoreTask::CancelJob(id) => {
            let ix = job_index(jobs, id@);
            if ix == -1 {
                jobs
            } else {
                jobs.update(ix, JobEntry { id: jobs[ix].id, cancel_requested: true })
            }
        },
        InternalCoreTask::QueryJob(_) => jobs,
        InternalCoreTask::Shutdown => jobs,
    }
}

/// The event, if any, that handling one task broadcasts.
pub open spec fn step_event(
    t: InternalCoreTask,
    outcome: HandlingOutcome,
    jobs: Seq<JobEntry>,
) -> Option<CoreEvent> {
    match t {
        InternalCoreTask::StartJob(id) => match outcome {
            HandlingOutcome::Succeeded => Some(CoreEvent::JobStarted(id)),
            HandlingOutcome::Failed(reason) => Some(CoreEvent::JobFailed(id, reason)),
        },
        InternalCoreTask::CancelJob(_) => None,
        InternalCoreTask::QueryJob(id) => Some(CoreEvent::JobState(id, has_job(jobs, id@))),
        InternalCoreTask::Shutdown => None,
    }
}

/// Whether the loop is still running after handling one task.
pub open spec fn step_running(t: InternalCoreTask) -> bool {
    !(t is Shutdown)
}

/// The registry model after handling one task: the step's event, if any, is
/// broadcast; a shutdown closes every open subscription instead.
pub open spec fn step_registry(
    t: InternalCoreTask,
    outcome: HandlingOutcome,
    jobs: Seq<JobEntry>,
    r: RegistryView,
) -> RegistryView {
    match step_event(t, outcome, jobs) {
        Some(e) => broadcast_view(r, e),
        None => if t is Shutdown {
            RegistryView { subs: Seq::empty(), ..r }
        } else {
            r
        },
    }
}

impl EventManagerView {
    /// Dispatcher invariant: the registry is well formed and the submission
    /// history is exactly the processed history followed by the pending
    /// queue — nothing is lost, reordered, duplicated or invented.
    pub open spec fn wf(self) -> bool {
        &&& self.registry.wf()
        &&& self.submitted == self.processed + self.pending
    }
}

/// The dispatch loop's state: the pending task queue (the model of the
/// unbounded, ordered, multi-producer/single-consumer channel), the jobs
/// started and not yet finished, and the subscription registry it fans
/// events out to.
pub struct EventManager {
    running: bool,
    pending: Vec<InternalCoreTask>,
    jobs: Vec<JobEntry>,
    registry: SubscriptionRegistry,
    submitted: Ghost<Seq<InternalCoreTask>>,
    processed: Ghost<Seq<InternalCoreTask>>,
}

impl View for EventManager {
    type V = EventManagerView;

    closed spec fn view(&self) -> EventManagerView {
        EventManagerView {
            running: self.running,
            pending: self.pending@,
            submitted: self.submitted@,
            processed: self.processed@,
            jobs: self.jobs@,
            registry: self.registry@,
        }
    }
}

impl EventManager {
    /// A fresh dispatch loop in its running state, with no pending tasks,
    /// no tracked jobs, no subscribers, and the given per-subscriber event
    /// buffer bound.
    pub fn new(capacity: usize) -> (m: EventManager)
        requires
            capacity >= 1,
        ensures
            m@.wf(),
            m@.running,
            m@.pending == Seq::<InternalCoreTask>::empty(),
            m@.submitted == Seq::<InternalCoreTask>::empty(),
            m@.processed == Seq::<InternalCoreTask>::empty(),
            m@.jobs == Seq::<JobEntry>::empty(),
            m@.registry.capacity == capacity,
            m@.registry.subs == Seq::<SubscriptionView>::empty(),
            m@.registry.next_id == 0,
            m@.registry.log == Seq::<CoreEvent>::empty(),
    {
        let m = EventManager {
            running: true,
            pending: Vec::new(),
            jobs: Vec::new(),
            registry: SubscriptionRegistry::new(capacity),
            submitted: Ghost(Seq::empty()),
            processed: Ghost(Seq::empty()),
        };
        proof {
            assert(m@.submitted =~= m@.processed + m@.pending);
        }
        m
    }

    /// Enqueue one task for asynchronous processing. Succeeds exactly as
    /// long as the loop is running, appending the task to the pending queue
    /// and to the submission history; once the loop has terminated it
    /// always fails with [`DispatchClosed`] and changes nothing — it never
    /// panics and never blocks.
    pub fn submit_task(&mut self, task: InternalCoreTask) -> (r: Result<(), DispatchClosed>)
        requires
            old(self)@.wf(),
        ensures
            final(self)@.wf(),
            old(self)@.running ==> r is Ok && final(self)@ == (EventManagerView {
                pending: old(self)@.pending.push(task),
                submitted: old(self)@.submitted.push(task),
                ..old(self)@
            }),
            !old(self)@.running ==> r == Err::<(), DispatchClosed>(DispatchClosed)
                && final(self)@ == old(self)@,
    {
        if !self.running {
            return Err(DispatchClosed);
        }
        self.submitted = Ghost(self.submitted@.push(task));
        self.pending.push(task);
        proof {
            assert(self@.submitted =~= self@.processed + self@.pending);
            assert(self@ =~= (EventManagerView {
                pending: old(self)@.pending.push(task),
                submitted: old(self)@.submitted.push(task),
                ..old(self)@
            }));
        }
        Ok(())
    }

    /// Handle the task at the head of the pending queue, strictly in
    /// submission order. `outcome` reports whether the delegated part of a
    /// start request was accepted by the hosting process; it is ignored for
    /// the control-only tasks, which the dispatcher decides on its own
    /// state. One step broadcasts at most one event:
    ///
    /// - a start request records the job and announces it, or — when the
    ///   delegation failed — broadcasts exactly one failure event and
    ///   leaves the loop ready for the next task;
    /// - a cancel request raises the advisory flag on the first matching
    ///   job and broadcasts nothing;
    /// - a query broadcasts the job's current state;
    /// - a shutdown terminates the loop and closes every subscription.
    pub fn process_next(&mut self, outcome: HandlingOutcome) -> (r: StepResult)
        requires
            old(self)@.wf(),
        ensures
            final(self)@.wf(),
            !old(self)@.running ==> r == StepResult::Closed && final(self)@ == old(self)@,
            old(self)@.running && old(self)@.pending.len() == 0 ==> r == StepResult::Idle
                && final(self)@ == old(self)@,
            old(self)@.running && old(self)@.pending.len() > 0 ==> ({
                let t = old(self)@.pending[0];
                &&& r == StepResult::Processed(t)
                &&& final(self)@ == (EventManagerView {
                    running: step_running(t),
                    pending: old(self)@.pending.drop_first(),
                    processed: old(self)@.processed.push(t),
                    jobs: step_jobs(t, outcome, old(self)@.jobs),
                    registry: step_registry(t, outcome, old(self)@.jobs, old(self)@.registry),
                    ..old(self)@
                })
            }),
    {
        if !self.running {
            return StepResult::Closed;
        }
        if self.pending.len() == 0 {
            return StepResult::Idle;
        }
        let task = self.pending.remove(0);
        self.processed = Ghost(self.processed@.push(task));
        match &task {
            InternalCoreTask::StartJob(id) => {
                match &outcome {
                    HandlingOutcome::Succeeded => {
                        self.jobs.push(JobEntry { id: id.clone(), cancel_requested: false });
                        self.registry.broadcast(&CoreEvent::JobStarted(id.clone()));
                    },
                    HandlingOutcome::Failed(reason) => {
                        self.registry.broadcast(&CoreEvent::JobFailed(id.clone(), reason.clone()));
                    },
                }
            },
            InternalCoreTask::CancelJob(id) => {
                mark_cancel(&mut self.jobs, id);
            },
            InternalCoreTask::QueryJob(id) => {
                let running_now = job_running(&self.jobs, id);
                self.registry.broadcast(&CoreEvent::JobState(id.clone(), running_now));
            },
            InternalCoreTask::Shutdown => {
                self.running = false;
                self.registry.close_all();
            },
        }
        proof {
            let t = old(self)@.pending[0];
            assert(self@.pending =~= old(self)@.pending.drop_first());
            assert(self@.submitted =~= self@.processed + self@.pending);
            assert(self@ =~= (EventManagerView {
                running: step_running(t),
                pending: old(self)@.pending.drop_first(),
                processed: old(self)@.processed.push(t),
                jobs: step_jobs(t, outcome, old(self)@.jobs),
                registry: step_registry(t, outcome, old(self)@.jobs, old(self)@.registry),
                ..old(self)@
            }));
        }
        StepResult::Processed(task)
    }

    /// Relay a progress callback from delegated long-running work: the
    /// event goes straight to the fan-out path, the loop is not involved
    /// beyond that.
    pub fn report_progress(&mut self, id: &JobId, step: u64)
        requires
            old(self)@.wf(),
        ensures
            final(self)@.wf(),
            final(self)@ == (EventManagerView {
                registry: broadcast_view(old(self)@.registry, CoreEvent::JobProgress(*id, step)),
                ..old(self)@
            }),
    {
        self.registry.broadcast(&CoreEvent::JobProgress(id.clone(), step));
        proof {
            assert(self@ =~= (EventManagerView {
                registry: broadcast_view(old(self)@.registry, CoreEvent::JobProgress(*id, step)),
                ..old(self)@
            }));
        }
    }

    /// Relay the successful end of delegated work: the job leaves the
    /// tracked set and its completion is broadcast.
    pub fn complete_job(&mut self, id: &JobId)
        requires
            old(self)@.wf(),
        ensures
            final(self)@.wf(),
            final(self)@ == (EventManagerView {
                jobs: remove_job(old(self)@.jobs, id@),
                registry: broadcast_view(old(self)@.registry, CoreEvent::JobCompleted(*id)),
                ..old(self)@
            }),
    {
        remove_entry(&mut self.jobs, id);
        self.registry.broadcast(&CoreEvent::JobCompleted(id.clone()));
        proof {
            assert(self@ =~= (EventManagerView {
                jobs: remove_job(old(self)@.jobs, id@),
                registry: broadcast_view(old(self)@.registry, CoreEvent::JobCompleted(*id)),
                ..old(self)@
            }));
        }
    }

    /// Relay the failure of delegated work: the job leaves the tracked set
    /// and exactly one failure event carrying the reason is broadcast. The
    /// loop itself is untouched and keeps processing.
    pub fn fail_job(&mut self, id: &JobId, reason: String)
        requires
            old(self)@.wf(),
        ensures
            final(self)@.wf(),
            final(self)@ == (EventManagerView {
                jobs: remove_job(old(self)@.jobs, id@),
                registry: broadcast_view(
                    old(self)@.registry,
                    CoreEvent::JobFailed(*id, reason),
                ),
                ..old(self)@
            }),
    {
        remove_entry(&mut self.jobs, id);
        self.registry.broadcast(&CoreEvent::JobFailed(id.clone(), reason));
        proof {
            assert(self@ =~= (EventManagerView {
                jobs: remove_job(old(self)@.jobs, id@),
                registry: broadcast_view(
                    old(self)@.registry,
                    CoreEvent::JobFailed(*id, reason),
                ),
                ..old(self)@
            }));
        }
    }

    /// Advisory cancellation poll for delegated work: whether a cancel
    /// request has been handled for this job.
    pub fn cancel_requested(&self, id: &JobId) -> (b: bool)
        ensures
            b == ({
                let ix = job_index(self@.jobs, id@);
                ix >= 0 && self@.jobs[ix].cancel_requested
            }),
    {
        let mut i: usize = 0;
        while i < self.jobs.len()
            invariant
                0 <= i <= self@.jobs.len(),
                forall|j: int| 0 <= j < i ==> (#[trigger] self@.jobs[j]).id@ != id@,
            decreases self@.jobs.len() - i,
        {
            if self.jobs[i].id == *id {
                proof {
                    lemma_job_index_first(self@.jobs, id@, i as int);
                }
                return self.jobs[i].cancel_requested;
            }
            i = i + 1;
        }
        proof {
            lemma_job_index_absent(self@.jobs, id@);
        }
        false
    }

    /// Explicit shutdown signal (every shared context handle was dropped,
    /// or the process is stopping): the loop terminates and every open
    /// subscription is closed. Any task submitted afterwards fails with
    /// [`DispatchClosed`].
    pub fn terminate(&mut self)
        requires
            old(self)@.wf(),
        ensures
            final(self)@.wf(),
            final(self)@ == (EventManagerView {
                running: false,
                registry: (RegistryView { subs: Seq::empty(), ..old(self)@.registry }),
                ..old(self)@
            }),
    {
        self.running = false;
        self.registry.close_all();
        proof {
            assert(self@ =~= (EventManagerView {
                running: false,
                registry: (RegistryView { subs: Seq::empty(), ..old(self)@.registry }),
                ..old(self)@
            }));
        }
    }

    /// Register a new, independent event consumer and hand back the
    /// identifier it will receive events under, starting from this moment —
    /// no replay of past events.
    pub fn subscribe(&mut self) -> (id: u64)
        requires
            old(self)@.wf(),
            old(self)@.registry.next_id < u64::MAX,
        ensures
            final(self)@.wf(),
            id == old(self)@.registry.next_id,
            final(self)@ == (EventManagerView {
                registry: (RegistryView {
                    next_id: (old(self)@.registry.next_id + 1) as u64,
                    subs: old(self)@.registry.subs.push(
                        (SubscriptionView {
                            id: old(self)@.registry.next_id,
                            connected: true,
                            buffer: Seq::empty(),
                            delivered: Seq::empty(),
                            taken: Seq::empty(),
                            joined_at: old(self)@.registry.log.len(),
                        }),
                    ),
                    ..old(self)@.registry
                }),
                ..old(self)@
            }),
    {
        let id = self.registry.register();
        proof {
            assert(self@ =~= (EventManagerView {
                registry: (RegistryView {
                    next_id: (old(self)@.registry.next_id + 1) as u64,
                    subs: old(self)@.registry.subs.push(
                        (SubscriptionView {
                            id: old(self)@.registry.next_id,
                            connected: true,
                            buffer: Seq::empty(),
                            delivered: Seq::empty(),
                            taken: Seq::empty(),
                            joined_at: old(self)@.registry.log.len(),
                        }),
                    ),
                    ..old(self)@.registry
                }),
                ..old(self)@
            }));
        }
        id
    }

    /// Hand the consumer with this identifier its oldest pending event, or
    /// nothing when its buffer is empty or the subscription is gone.
    pub fn recv_event(&mut self, id: u64) -> (r: Option<CoreEvent>)
        requires
            old(self)@.wf(),
        ensures
            final(self)@.wf(),
            final(self)@.running == old(self)@.running,
            final(self)@.pending == old(self)@.pending,
            final(self)@.submitted == old(self)@.submitted,
            final(self)@.processed == old(self)@.processed,
            final(self)@.jobs == old(self)@.jobs,
            ({
                let ix = sub_index(old(self)@.registry.subs, id);
                if ix == -1 || old(self)@.registry.subs[ix].buffer.len() == 0 {
                    &&& r is None
                    &&& final(self)@.registry == old(self)@.registry
                } else {
                    let s = old(self)@.registry.subs[ix];
                    &&& r == Some(s.buffer[0])
                    &&& final(self)@.registry == (RegistryView {
                        subs: old(self)@.registry.subs.update(
                            ix,
                            (SubscriptionView {
                                buffer: s.buffer.drop_first(),
                                taken: s.taken.push(s.buffer[0]),
                                ..s
                            }),
                        ),
                        ..old(self)@.registry
                    })
                }
            }),
    {
        self.registry.recv(id)
    }

    /// Note that the consumer with this identifier has disconnected; the
    /// next broadcast reclaims its entry.
    pub fn disconnect(&mut self, id: u64)
        requires
            old(self)@.wf(),
        ensures
            final(self)@.wf(),
            final(self)@.running == old(self)@.running,
            final(self)@.pending == old(self)@.pending,
            final(self)@.submitted == old(self)@.submitted,
            final(self)@.processed == old(self)@.processed,
            final(self)@.jobs == old(self)@.jobs,
            ({
                let ix = sub_index(old(self)@.registry.subs, id);
                if ix == -1 {
                    final(self)@.registry == old(self)@.registry
                } else {
                    final(self)@.registry == (RegistryView {
                        subs: old(self)@.registry.subs.update(
                            ix,
                            (SubscriptionView {
                                connected: false,
                                ..old(self)@.registry.subs[ix]
                            }),
                        ),
                        ..old(self)@.registry
                    })
                }
            }),
    {
        self.registry.disconnect(id)
    }

    /// Whether the loop is still in its running state.
    pub fn is_running(&self) -> (b: bool)
        ensures
            b == self@.running,
    {
        self.running
    }

    /// Number of submitted tasks not yet handled.
    pub fn pending_count(&self) -> (n: usize)
        ensures
            n == self@.pending.len(),
    {
        self.pending.len()
    }

    /// Number of entries currently in the broadcast set.
    pub fn subscriber_count(&self) -> (n: usize)
        ensures
            n == self@.registry.subs.len(),
    {
        self.registry.subscriber_count()
    }

    /// The identifier the next subscriber would receive; lets a caller test
    /// that identifiers are not exhausted before subscribing.
    pub fn next_subscriber_id(&self) -> (id: u64)
        ensures
            id == self@.registry.next_id,
    {
        self.registry.next_handle()
    }
}

/// The jobs table without the first entry carrying this identifier (or
/// unchanged, when none does).
pub open spec fn remove_job(jobs: Seq<JobEntry>, id: Seq<char>) -> Seq<JobEntry> {
    let ix = job_index(jobs, id);
    if ix == -1 {
        jobs
    } else {
        jobs.remove(ix)
    }
}

/// Drop the first tracked job with this identifier, if any.
fn remove_entry(jobs: &mut Vec<JobEntry>, id: &JobId)
    ensures
        final(jobs)@ == remove_job(old(jobs)@, id@),
{
    let mut i: usize = 0;
    while i < jobs.len()
        invariant
            jobs@ == old(jobs)@,
            0 <= i <= jobs@.len(),
            forall|j: int| 0 <= j < i ==> (#[trigger] jobs@[j]).id@ != id@,
        decreases jobs@.len() - i,
    {
        if jobs[i].id == *id {
            proof {
                lemma_job_index_first(jobs@, id@, i as int);
            }
            let _gone = jobs.remove(i);
            return ;
        }
        i = i + 1;
    }
    proof {
        lemma_job_index_absent(jobs@, id@);
    }
}

/// Failure containment law: when the delegated part of a start request
/// fails, handling that task appends exactly one failure event (carrying
/// the job identity and the reason) to the broadcast log, changes no
/// tracked job, and leaves the dispatch loop running — it is able to
/// process the next task.
pub proof fn lemma_failed_handling_isolated(
    id: JobId,
    reason: String,
    jobs: Seq<JobEntry>,
    r: RegistryView,
)
    ensures
        step_running(InternalCoreTask::StartJob(id)),
        step_jobs(InternalCoreTask::StartJob(id), HandlingOutcome::Failed(reason), jobs) == jobs,
        step_registry(InternalCoreTask::StartJob(id), HandlingOutcome::Failed(reason), jobs, r).log
            == r.log.push(CoreEvent::JobFailed(id, reason)),
{
}

/// `job_index` names the first match: a position whose earlier entries all
/// carry other identifiers is the one `job_index` picks.
proof fn lemma_job_index_first(jobs: Seq<JobEntry>, id: Seq<char>, m: int)
    requires
        0 <= m < jobs.len(),
        jobs[m].id@ == id,
        forall|j: int| 0 <= j < m ==> (#[trigger] jobs[j]).id@ != id,
    ensures
        job_index(jobs, id) == m,
    decreases jobs.len(),
{
    if m > 0 {
        lemma_job_index_first(jobs.drop_first(), id, m - 1);
    }
}

/// When no tracked job carries the identifier, `job_index` reports none.
proof fn lemma_job_index_absent(jobs: Seq<JobEntry>, id: Seq<char>)
    requires
        forall|j: int| 0 <= j < jobs.len() ==> (#[trigger] jobs[j]).id@ != id,
    ensures
        job_index(jobs, id) == -1,
    decreases jobs.len(),
{
    if jobs.len() > 0 {
        lemma_job_index_absent(jobs.drop_first(), id);
    }
}

/// Raise the advisory cancellation flag on the first tracked job with this
/// identifier, if any.
fn mark_cancel(jobs: &mut Vec<JobEntry>, id: &JobId)
    ensures
        final(jobs)@ == ({
            let ix = job_index(old(jobs)@, id@);
            if ix == -1 {
                old(jobs)@
            } else {
                old(jobs)@.update(
                    ix,
                    JobEntry { id: old(jobs)@[ix].id, cancel_requested: true },
                )
            }
        }),
{
    let mut i: usize = 0;
    while i < jobs.len()
        invariant
            jobs@ == old(jobs)@,
            0 <= i <= jobs@.len(),
            forall|j: int| 0 <= j < i ==> (#[trigger] jobs@[j]).id@ != id@,
        decreases jobs@.len() - i,
    {
        if jobs[i].id == *id {
            proof {
                lemma_job_index_first(jobs@, id@, i as int);
            }
            let entry = &mut jobs[i];
            entry.cancel_requested = true;
            proof {
                assert(jobs@ =~= old(jobs)@.update(
                    i as int,
                    JobEntry { id: old(jobs)@[i as int].id, cancel_requested: true },
                ));
            }
            return ;
        }
        i = i + 1;
    }
    proof {
        lemma_job_index_absent(jobs@, id@);
    }
}

/// Whether a job with this identifier is tracked as running.
fn job_running(jobs: &Vec<JobEntry>, id: &JobId) -> (b: bool)
    ensures
        b == has_job(jobs@, id@),
{
    let mut i: usize = 0;
    while i < jobs.len()
        invariant
            0 <= i <= jobs@.len(),
            forall|j: int| 0 <= j < i ==> (#[trigger] jobs@[j]).id@ != id@,
        decreases jobs@.len() - i,
    {
        if jobs[i].id == *id {
            proof {
                lemma_job_index_first(jobs@, id@, i as int);
            }
            return true;
        }
        i = i + 1;
    }
    proof {
        lemma_job_index_absent(jobs@, id@);
    }
    false
}

/// Strict FIFO law: at every reachable dispatcher state the processed
/// history is exactly a prefix of the submission history, and the pending
/// queue is exactly the rest — so tasks are handled in precisely the order
/// submitted, none lost and none reordered.
pub proof fn lemma_fifo_order(m: EventManager)
    requires
        m@.wf(),
    ensures
        m@.processed == m@.submitted.take(m@.processed.len() as int),
        m@.pending == m@.submitted.skip(m@.processed.len() as int),
{
    assert(m@.processed =~= (m@.processed + m@.pending).take(m@.processed.len() as int));
    assert(m@.pending =~= (m@.processed + m@.pending).skip(m@.processed.len() as int));
}

} // verus!
