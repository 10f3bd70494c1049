//! The scheduler: it starts the processes and then dispatches events in
//! order of delivery until none is due within the time budget.

use vstd::prelude::*;
use crate::anykv::AnyKv;
use crate::events::EventView;
use crate::events::EventType;
use crate::events::ProcessId;
use crate::process::ProcessHandle;
use crate::runtime::ascending;
use crate::runtime::lemma_callback_succeeds;
use crate::runtime::lemma_dispatch_succeeds;
use crate::runtime::lemma_succeeds_transitive;
use crate::runtime::succeeds;
use crate::runtime::Runtime;

verus! {

/// `chain` is the runtime as it was before the first process was started
/// and after each process was: the processes are started in ascending
/// order of id, each on what the one before it left.
pub open spec fn bootstrap(first: Runtime, last: Runtime, chain: Seq<Runtime>) -> bool {
    &&& chain.len() == first.setup().population + 1
    &&& chain[0] == first
    &&& chain.last() == last
    &&& forall|i: int|
        0 <= i < chain.len() - 1 ==> (#[trigger] chain[i + 1]).started(
            chain[i],
            (i + 1) as ProcessId,
        )
}

/// One turn of the scheduler leads from `before` to `after`: the event that
/// is due is taken for dispatch, and then the callback for it acts on the
/// runtime.
pub open spec fn turn(before: Runtime, after: Runtime) -> bool {
    exists|e: EventView, taken: Runtime| #[trigger]
        before.dispatches(taken, e) && after.extends(taken)
}

/// `chain` is the runtime as it was before the first turn and after each
/// turn of a run that ends in `last`, where nothing is left to dispatch.
pub open spec fn course(first: Runtime, last: Runtime, chain: Seq<Runtime>) -> bool {
    &&& chain.len() >= 1
    &&& chain[0] == first
    &&& chain.last() == last
    &&& last.finished()
    &&& forall|i: int| 0 <= i < chain.len() - 1 ==> turn(#[trigger] chain[i], chain[i + 1])
}

/// One simulation: the runtime and a handler for each process.
pub struct Simulation<H> {
    runtime: Runtime,
    handlers: Vec<H>,
}

impl<H: ProcessHandle> Simulation<H> {
    /// The runtime of the simulation.
    pub closed spec fn state(&self) -> Runtime {
        self.runtime
    }

    /// The handlers, that of process `i + 1` at position `i`.
    pub closed spec fn handlers(&self) -> Seq<H> {
        self.handlers@
    }

    /// The runtime is well-formed and each process has its handler.
    pub open spec fn wf(&self) -> bool {
        self.state().wf() && self.handlers().len() == self.state().setup().population
    }

    /// A simulation of the processes of `runtime`, with `handlers[i]` for
    /// process `i + 1`. `None` exactly where the number of handlers is not
    /// the number of processes.
    pub fn new(runtime: Runtime, handlers: Vec<H>) -> (r: Option<Simulation<H>>)
        requires
            runtime.wf(),
        ensures
            r is Some <==> handlers@.len() == runtime.setup().population,
            r is Some ==> r.unwrap().wf() && r.unwrap().state() == runtime
                && r.unwrap().handlers() == handlers@,
    {
        if handlers.len() != runtime.process_number() {
            return None;
        }
        Some(Simulation { runtime, handlers })
    }

    /// The runtime of the simulation.
    pub fn runtime(&self) -> (rt: &Runtime)
        ensures
            *rt == self.state(),
    {
        &self.runtime
    }

    /// Starts every process, in ascending order of id. The clock stays
    /// where it is and nothing is dispatched; the last process started is
    /// the one of greatest id.
    pub fn start(&mut self)
        requires
            old(self).wf(),
        ensures
            final(self).wf(),
            final(self).state().spec_now() == old(self).state().spec_now(),
            final(self).state().setup() == old(self).state().setup(),
            final(self).state().dispatched() == old(self).state().dispatched(),
            final(self).state().spec_rank() == old(self).state().setup().population,
            succeeds(final(self).state(), old(self).state()),
            exists|chain: Seq<Runtime>| #[trigger]
                bootstrap(old(self).state(), final(self).state(), chain),
    {
        let n = self.handlers.len();
        proof {
            self.runtime.lemma_wf();
        }
        let ghost mut chain: Seq<Runtime> = seq![self.runtime];
        let mut i: usize = 0;
        while i < n
            invariant
                i <= n,
                n == self.handlers.len(),
                n >= 1,
                chain.len() == i + 1,
                chain[0] == old(self).state(),
                chain.last() == self.state(),
                forall|k: int|
                    0 <= k < i ==> (#[trigger] chain[k + 1]).started(chain[k], (k + 1) as ProcessId),
                self.wf(),
                self.state().spec_now() == old(self).state().spec_now(),
                self.state().setup() == old(self).state().setup(),
                self.state().dispatched() == old(self).state().dispatched(),
                i > 0 ==> self.state().spec_rank() == i,
                succeeds(self.state(), old(self).state()),
            decreases n - i,
        {
            let ghost before = self.runtime;
            self.runtime.enter(i + 1);
            let ghost entered = self.runtime;
            self.handlers[i].start(&mut self.runtime);
            proof {
                assert(succeeds(entered, before));
                lemma_callback_succeeds(self.state(), entered);
                lemma_succeeds_transitive(self.state(), entered, before);
                lemma_succeeds_transitive(self.state(), before, old(self).state());
                let longer = chain.push(self.runtime);
                assert forall|k: int| 0 <= k < i + 1 implies (#[trigger] longer[k + 1]).started(
                    longer[k],
                    (k + 1) as ProcessId,
                ) by {
                    if k < i {
                        assert(longer[k + 1] == chain[k + 1] && longer[k] == chain[k]);
                    } else {
                        assert(longer[k] == before);
                        assert(entered.pending() == before.pending());
                    }
                }
                chain = longer;
            }
            i = i + 1;
        }
        assert(bootstrap(old(self).state(), self.state(), chain));
    }

    /// Dispatches the next event, if one is due within the time budget:
    /// the event is taken from the queue, which moves the clock to its
    /// delivery time, and then the handler of its destination is called
    /// with it. Returns whether an event was dispatched; when none was,
    /// nothing has changed.
    pub fn step(&mut self) -> (dispatched: bool)
        requires
            old(self).wf(),
        ensures
            final(self).wf(),
            dispatched ==> turn(old(self).state(), final(self).state()),
            !dispatched ==> {
                &&& old(self).state().finished()
                &&& final(self).state() == old(self).state()
            },
    {
        let ghost before = self.runtime;
        let next = self.runtime.next_event();
        match next {
            None => false,
            Some(e) => {
                let ghost seen = e@;
                let ghost taken = self.runtime;
                proof {
                    before.lemma_wf();
                    assert(before.pending().contains_key(e.id));
                    assert(before.is_process(e.dest));
                }
                let dest = e.dest;
                match e.event_type {
                    EventType::Timeout => {
                        self.handlers[dest - 1].on_timer(&mut self.runtime, e.id);
                    },
                    EventType::Message(m) => {
                        self.handlers[dest - 1].on_message(&mut self.runtime, m.source, m.payload);
                    },
                }
                assert(before.dispatches(taken, seen) && self.state().extends(taken));
                true
            },
        }
    }

    /// Runs the simulation to its end: dispatches events in ascending
    /// order of (delivery time, id) until the queue is empty or all that is
    /// queued is due after the time budget.
    pub fn run(&mut self)
        requires
            old(self).wf(),
        ensures
            final(self).wf(),
            final(self).state().finished(),
            final(self).state().setup() == old(self).state().setup(),
            ascending(final(self).state().dispatched()),
            old(self).state().dispatched().is_prefix_of(final(self).state().dispatched()),
            old(self).state().spec_now().0 <= final(self).state().spec_now().0,
            succeeds(final(self).state(), old(self).state()),
            exists|chain: Seq<Runtime>| #[trigger]
                course(old(self).state(), final(self).state(), chain),
    {
        proof {
            self.runtime.lemma_wf();
        }
        let ghost mut chain: Seq<Runtime> = seq![self.runtime];
        loop
            invariant
                chain.len() >= 1,
                chain[0] == old(self).state(),
                chain.last() == self.state(),
                forall|i: int| 0 <= i < chain.len() - 1 ==> turn(#[trigger] chain[i], chain[i + 1]),
                self.wf(),
                self.state().setup() == old(self).state().setup(),
                old(self).state().dispatched().is_prefix_of(self.state().dispatched()),
                old(self).state().spec_now().0 <= self.state().spec_now().0,
                succeeds(self.state(), old(self).state()),
            ensures
                self.state().finished(),
            decreases usize::MAX - self.state().dispatched().len(),
        {
            proof {
                self.runtime.lemma_wf();
            }
            let ghost before = self.runtime;
            let more = self.step();
            proof {
                self.runtime.lemma_wf();
                if more {
                    before.lemma_wf();
                    let (e, taken) = choose|e: EventView, taken: Runtime| #[trigger]
                        before.dispatches(taken, e) && self.state().extends(taken);
                    assert(before.pending().contains_key(e.id));
                    lemma_dispatch_succeeds(taken, before, e);
                    lemma_callback_succeeds(self.state(), taken);
                    lemma_succeeds_transitive(self.state(), taken, before);
                    lemma_succeeds_transitive(self.state(), before, old(self).state());
                    let longer = chain.push(self.runtime);
                    assert forall|i: int| 0 <= i < longer.len() - 1 implies turn(
                        #[trigger] longer[i],
                        longer[i + 1],
                    ) by {
                        if i < chain.len() - 1 {
                            assert(longer[i] == chain[i] && longer[i + 1] == chain[i + 1]);
                        } else {
                            assert(longer[i] == before);
                        }
                    }
                    chain = longer;
                }
            }
            if !more {
                break;
            }
        }
        assert(course(old(self).state(), self.state(), chain));
        proof {
            self.runtime.lemma_wf();
        }
    }

    /// Ends the simulation and hands out the store of metrics.
    pub fn stop(self) -> (kv: AnyKv)
        requires
            self.wf(),
        ensures
            kv.wf(),
            kv@ == self.state().metrics(),
    {
        self.runtime.into_store()
    }
}

} // verus!
