//! The simulated clock. The scheduler moves it forward before it
//! dispatches an event; handlers only read it.

use vstd::prelude::*;
use crate::jiffy::Jiffies;

verus! {

/// The current simulated time of one simulation.
#[derive(Clone, Copy, Debug)]
pub struct Clock {
    present: Jiffies,
}

impl Clock {
    /// The time that the clock shows.
    pub closed spec fn time(&self) -> Jiffies {
        self.present
    }

    /// A clock at jiffy 0.
    pub fn new() -> (c: Clock)
        ensures
            c.time() == Jiffies(0),
    {
        Clock { present: Jiffies(0) }
    }
}

/// Puts the clock back to jiffy 0, as it is before a simulation starts.
pub fn drop_clock(clock: &mut Clock)
    ensures
        final(clock).time() == Jiffies(0),
{
    clock.present = Jiffies(0);
}

/// Moves the clock to `future` and returns the time it showed. Time never
/// runs backwards: `future` is not before the present.
pub fn fast_forward_clock(clock: &mut Clock, future: Jiffies) -> (present: Jiffies)
    requires
        old(clock).time().0 <= future.0,
    ensures
        final(clock).time() == future,
        present == old(clock).time(),
{
    let present = clock.present;
    clock.present = future;
    present
}

/// Whether the clock can be moved to `future`: whether `future` is not
/// before the present.
pub fn can_fast_forward(clock: &Clock, future: Jiffies) -> (b: bool)
    ensures
        b == (clock.time().0 <= future.0),
{
    clock.present.0 <= future.0
}

/// The current simulated time.
pub fn now(clock: &Clock) -> (t: Jiffies)
    ensures
        t == clock.time(),
{
    clock.present
}

} // verus!
