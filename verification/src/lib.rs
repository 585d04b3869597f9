//! Core context and event/task dispatch system for a self-hosted media
//! library server.
//!
//! The library models the internal dispatch machinery: producers submit
//! [`event::InternalCoreTask`] values through the shared context, a single
//! dispatch loop ([`event_manager::EventManager`]) consumes them strictly in
//! submission order, and the resulting [`event::CoreEvent`] notifications are
//! fanned out to every live subscriber held by the subscription registry.
//! The hosting process supplies the scheduling around this state machine;
//! every decision the dispatcher makes is verified here.

use std::sync::Arc;
use vstd::prelude::*;

pub mod auth;
pub mod context;
pub mod event;
pub mod event_manager;
pub mod subscription;

use context::Ctx;
use event::{CoreEvent, InternalCoreTask};
use event_manager::{EventManager, JobEntry};
use subscription::SubscriptionView;

verus! {

/// Bound of each subscriber's event buffer: a slow consumer holds at most
/// this many undelivered events before the drop-oldest policy applies.
pub const EVENT_BUFFER_CAPACITY: usize = 1024;

/// The fun ascii art printed to the console when the server starts.
pub const STUMP_SHADOW_TEXT: &'static str = "   _____ _______ _    _ __  __ _____\n  / ____|__   __| |  | |  \\/  |  __ \\\n | (___    | |  | |  | | \\  / | |__) |\n  \\___ \\   | |  | |  | | |\\/| |  ___/\n  ____) |  | |  | |__| | |  | | |\n |_____/   |_|   \\____/|_|  |_|_|\n";

/// The main entry point for a server-side application built on this core.
/// It pairs the shared context handle with the dispatch loop that manages
/// incoming tasks and outgoing events; both are constructed together
/// exactly once per process.
pub struct StumpCore {
    /// The shared, cloneable context handle producers carry.
    pub ctx: Ctx,
    /// The dispatch loop: task queue, job table and subscription registry.
    pub event_manager: EventManager,
}

impl StumpCore {
    /// A new core instance: a fresh context handle and a dispatch loop in
    /// its running state with no pending tasks, no tracked jobs and no
    /// subscribers.
    pub fn new() -> (core: StumpCore)
        ensures
            core.event_manager@.wf(),
            core.event_manager@.running,
            core.event_manager@.pending == Seq::<InternalCoreTask>::empty(),
            core.event_manager@.submitted == Seq::<InternalCoreTask>::empty(),
            core.event_manager@.processed == Seq::<InternalCoreTask>::empty(),
            core.event_manager@.jobs == Seq::<JobEntry>::empty(),
            core.event_manager@.registry.capacity == EVENT_BUFFER_CAPACITY,
            core.event_manager@.registry.subs == Seq::<SubscriptionView>::empty(),
            core.event_manager@.registry.next_id == 0,
            core.event_manager@.registry.log == Seq::<CoreEvent>::empty(),
            core.ctx == (Ctx { core_id: 0 }),
    {
        StumpCore { ctx: Ctx::new(0), event_manager: EventManager::new(EVENT_BUFFER_CAPACITY) }
    }

    /// The core wrapped in an [`Arc`]. Takes ownership of `self`; provided
    /// for consumers that share the instance across tasks.
    pub fn arced(self) -> (r: Arc<StumpCore>)
        ensures
            (r == self),
    {
        Arc::new(self)
    }

    /// A new handle to this core's context — the same underlying dispatch
    /// machinery, never a new instance of it.
    pub fn get_context(&self) -> (c: Ctx)
        ensures
            c == self.ctx,
    {
        self.ctx.get_ctx()
    }

    /// The shadow text for the core: the ascii art printed to the console
    /// when the server starts.
    pub fn get_shadow_text(&self) -> (r: &'static str)
        ensures
            r@ == STUMP_SHADOW_TEXT@,
    {
        STUMP_SHADOW_TEXT
    }
}

} // verus!
