//! Task and event envelopes exchanged with the dispatch core.
//!
//! An [`InternalCoreTask`] is one unit of requested work, built by a producer
//! and consumed exactly once by the dispatch loop. A [`CoreEvent`] is one
//! notification, built inside the dispatch loop and broadcast to every live
//! subscriber. Both are immutable, owned values that carry only plain data,
//! never live handles.

use vstd::prelude::*;

verus! {

/// Identifier of a job known to the dispatch core.
pub type JobId = String;

/// One unit of requested work, submitted by a producer and handled by the
/// dispatch loop. The set of variants is closed: the dispatch loop matches
/// on every one of them.
#[derive(Debug, PartialEq, Eq)]
pub enum InternalCoreTask {
    /// Ask the dispatch loop to start the job with this identifier. The
    /// long-running work itself is delegated; the dispatcher records the job
    /// and reports the outcome of the delegation as an event.
    StartJob(JobId),
    /// Ask that the job with this identifier stop at its next safe point.
    /// Cancellation is advisory: the dispatcher only raises a flag that the
    /// delegated work polls.
    CancelJob(JobId),
    /// Ask for the current state of the job with this identifier; the answer
    /// is broadcast as an event.
    QueryJob(JobId),
    /// Explicit shutdown signal: the dispatch loop terminates and closes
    /// every open subscription.
    Shutdown,
}

/// One notification broadcast to subscribers.
#[derive(Debug, PartialEq, Eq)]
pub enum CoreEvent {
    /// The job with this identifier was started.
    JobStarted(JobId),
    /// The job with this identifier reported progress (an absolute step
    /// count chosen by the job).
    JobProgress(JobId, u64),
    /// The job with this identifier finished successfully.
    JobCompleted(JobId),
    /// The job with this identifier failed, with the reason.
    JobFailed(JobId, String),
    /// Answer to a query: whether the job with this identifier is currently
    /// running.
    JobState(JobId, bool),
    /// The media library changed and clients should refresh.
    LibraryChanged,
    /// Generic informational message.
    Info(String),
}

impl Clone for InternalCoreTask {
    /// Cloning a task envelope yields a value equal to the original.
    fn clone(&self) -> (r: Self)
        ensures
            r == *self,
    {
        match self {
            InternalCoreTask::StartJob(id) => InternalCoreTask::StartJob(id.clone()),
            InternalCoreTask::CancelJob(id) => InternalCoreTask::CancelJob(id.clone()),
            InternalCoreTask::QueryJob(id) => InternalCoreTask::QueryJob(id.clone()),
            InternalCoreTask::Shutdown => InternalCoreTask::Shutdown,
        }
    }
}

impl Clone for CoreEvent {
    /// Cloning an event envelope yields a value equal to the original, so
    /// fan-out hands every subscriber the same notification.
    fn clone(&self) -> (r: Self)
        ensures
            r == *self,
    {
        match self {
            CoreEvent::JobStarted(id) => CoreEvent::JobStarted(id.clone()),
            CoreEvent::JobProgress(id, step) => CoreEvent::JobProgress(id.clone(), *step),
            CoreEvent::JobCompleted(id) => CoreEvent::JobCompleted(id.clone()),
            CoreEvent::JobFailed(id, reason) => CoreEvent::JobFailed(id.clone(), reason.clone()),
            CoreEvent::JobState(id, running) => CoreEvent::JobState(id.clone(), *running),
            CoreEvent::LibraryChanged => CoreEvent::LibraryChanged,
            CoreEvent::Info(message) => CoreEvent::Info(message.clone()),
        }
    }
}

/// Error returned to a producer that submits a task after the dispatch loop
/// has terminated. Non-retryable for the current request.
#[derive(Clone, Copy, Debug, PartialEq, Eq, Structural)]
pub struct DispatchClosed;

/// Outcome of the delegated part of a handling routine, reported back to the
/// dispatch loop by the hosting process (for instance whether spawning a
/// library scan succeeded). The dispatcher turns a failure into exactly one
/// failure event; it never stops on one.
#[derive(Debug, PartialEq, Eq)]
pub enum HandlingOutcome {
    /// The delegated work was started (or performed) successfully.
    Succeeded,
    /// The delegated work could not be performed, with the reason.
    Failed(String),
}

} // verus!
