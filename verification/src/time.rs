//! Timers, as the calling process sets and cancels them.

use vstd::prelude::*;
use crate::events::EventId;
use crate::jiffy::Jiffies;
use crate::runtime::Runtime;

verus! {

/// Sets a timer of the calling process to fire `after` jiffies from now.
/// Returns the id of the event that fires it, by which the timer can be
/// cancelled; `None`, with nothing changed, exactly where the firing time
/// or the id does not fit in a `usize`.
pub fn schedule_timeout(sim: &mut Runtime, after: Jiffies) -> (r: Option<EventId>)
    requires
        old(sim).wf(),
    ensures
        final(sim).extends(*old(sim)),
        final(sim).same_nics(*old(sim)),
        old(sim).scheduled(*final(sim), after, r),
{
    sim.schedule_timer_after(after)
}

/// Cancels the timer `timeout_id` of the calling process, so that it never
/// fires. An id that is not a queued timer of the caller is left alone.
pub fn reset_timeout(sim: &mut Runtime, timeout_id: EventId)
    requires
        old(sim).wf(),
    ensures
        final(sim).extends(*old(sim)),
        final(sim).same_nics(*old(sim)),
        old(sim).cancelled(*final(sim), timeout_id, old(sim).owns_timer(timeout_id)),
{
    sim.reset_timer(timeout_id);
}

} // verus!
