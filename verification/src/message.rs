//! Messages on their way between two processes.

use core::cmp::Ordering;
use vstd::prelude::*;
use vstd::std_specs::cmp::PartialEqSpecImpl;
use vstd::std_specs::cmp::PartialOrdSpecImpl;
use crate::events::ProcessId;
use crate::jiffy::Jiffies;

verus! {

/// One hop of a message: from whom, to whom, and what.
#[derive(Clone, Debug)]
pub struct ProcessStep<M> {
    pub source: ProcessId,
    pub dest: ProcessId,
    pub message: M,
}

/// A hop with the time at which it arrives. Routed messages are compared
/// by arrival time alone.
#[derive(Clone, Debug)]
pub struct RoutedMessage<M> {
    pub arrival_time: Jiffies,
    pub step: ProcessStep<M>,
}

impl<M> RoutedMessage<M> {
    /// The hop `step`, arriving at `arrival_time`.
    pub fn new(arrival_time: Jiffies, step: ProcessStep<M>) -> (r: RoutedMessage<M>)
        ensures
            r.arrival_time == arrival_time,
            r.step == step,
    {
        RoutedMessage { arrival_time, step }
    }

    /// Whether this message arrives strictly before `other`.
    pub fn arrives_before(&self, other: &RoutedMessage<M>) -> (b: bool)
        ensures
            b == (self.arrival_time.0 < other.arrival_time.0),
    {
        self.arrival_time.0 < other.arrival_time.0
    }
}

impl<M> PartialEqSpecImpl for RoutedMessage<M> {
    open spec fn obeys_eq_spec() -> bool {
        true
    }

    open spec fn eq_spec(&self, other: &RoutedMessage<M>) -> bool {
        self.arrival_time.0 == other.arrival_time.0
    }
}

impl<M> PartialEq for RoutedMessage<M> {
    fn eq(&self, other: &RoutedMessage<M>) -> (r: bool) {
        self.arrival_time.0 == other.arrival_time.0
    }
}

impl<M> PartialOrdSpecImpl for RoutedMessage<M> {
    open spec fn obeys_partial_cmp_spec() -> bool {
        true
    }

    open spec fn partial_cmp_spec(&self, other: &RoutedMessage<M>) -> Option<Ordering> {
        if self.arrival_time.0 < other.arrival_time.0 {
            Some(Ordering::Less)
        } else if self.arrival_time.0 == other.arrival_time.0 {
            Some(Ordering::Equal)
        } else {
            Some(Ordering::Greater)
        }
    }
}

impl<M> PartialOrd for RoutedMessage<M> {
    fn partial_cmp(&self, other: &RoutedMessage<M>) -> (r: Option<Ordering>) {
        if self.arrival_time.0 < other.arrival_time.0 {
            Some(Ordering::Less)
        } else if self.arrival_time.0 == other.arrival_time.0 {
            Some(Ordering::Equal)
        } else {
            Some(Ordering::Greater)
        }
    }
}

} // verus!
