//! The shared application context handle.
//!
//! Exactly one dispatch machinery exists per running process; the context
//! is the cheap, cloneable handle that request handlers and background
//! workers carry to reach it. Cloning a handle never creates new dispatch
//! machinery: every clone names the same instance, so everything submitted
//! through any clone lands in the same ordered task queue.

use vstd::prelude::*;

verus! {

/// The process-wide shared handle. It carries the identifier of the
/// dispatch machinery it belongs to; the live channel ends and the opaque
/// persistence handle are owned by the hosting process, which pairs this
/// handle with the [`crate::event_manager::EventManager`] carrying the
/// same identifier.
#[derive(Clone, Copy, Debug, PartialEq, Eq, Structural)]
pub struct Ctx {
    /// Identifier of the dispatch machinery this handle names. All clones
    /// carry the same identifier: they all write to the same task channel.
    pub core_id: u64,
}

impl Ctx {
    /// A handle naming the dispatch machinery with this identifier.
    pub fn new(core_id: u64) -> (c: Ctx)
        ensures
            c.core_id == core_id,
    {
        Ctx { core_id }
    }

    /// A new handle to the same machinery — never a new instance of the
    /// dispatch machinery itself.
    pub fn get_ctx(&self) -> (c: Ctx)
        ensures
            c == *self,
    {
        *self
    }
}

} // verus!
