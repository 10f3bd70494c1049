//! What a protocol implements to take part in a simulation.

use vstd::prelude::*;
use crate::events::ProcessId;
use crate::events::TimerId;
use crate::runtime::Runtime;

verus! {

/// A simulated process. Each callback runs to completion; during it the
/// process acts on the runtime: it reads the clock, sends, broadcasts, sets
/// and cancels timers, draws random numbers and stores metrics. A callback
/// leaves the runtime as those actions leave it: it cannot move the clock,
/// change the set-up or put back an event that has left the queue.
pub trait ProcessHandle {
    /// Called once, before any event is dispatched.
    fn start(&mut self, rt: &mut Runtime)
        requires
            old(rt).wf(),
        ensures
            final(rt).extends(*old(rt)),
    ;

    /// Called when a message from `from` is delivered.
    fn on_message(&mut self, rt: &mut Runtime, from: ProcessId, payload: bytes::Bytes)
        requires
            old(rt).wf(),
        ensures
            final(rt).extends(*old(rt)),
    ;

    /// Called when the timer `id`, which was not cancelled, fires.
    fn on_timer(&mut self, rt: &mut Runtime, id: TimerId)
        requires
            old(rt).wf(),
        ensures
            final(rt).extends(*old(rt)),
    ;
}

} // verus!
