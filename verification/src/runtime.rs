//! The runtime that handlers act on: the clock, the event queue, the NICs,
//! the latency table and the random source of one simulation.

use vstd::prelude::*;
use crate::anykv::AnyKv;
use crate::anykv::Stored;
use crate::anykv::Value;
use crate::bandwidth::BandwidthType;
use crate::bandwidth::NetworkBoundedQueue;
use crate::clock::fast_forward_clock;
use crate::clock::now;
use crate::clock::Clock;
use crate::events::Destination;
use crate::events::Event;
use crate::events::EventId;
use crate::events::EventType;
use crate::events::EventTypeView;
use crate::events::EventView;
use crate::events::Message;
use crate::events::MessageView;
use crate::events::ProcessId;
use crate::events::TimerId;
use crate::jiffy::Jiffies;
use crate::latency::Distributions;
use crate::queue::event_key;
use crate::queue::key_le;
use crate::queue::key_lt;
use crate::queue::EventQueue;
use crate::queue::Key;
use crate::random::Randomizer;
use crate::random::Seed;
use crate::topology::resolve;
use crate::topology::LatencyRule;
use crate::topology::PoolId;
use crate::topology::Topology;

verus! {

/// Why a simulation cannot be set up.
#[derive(Clone, Copy, Debug, PartialEq, Eq, Structural)]
pub enum BuildError {
    /// No factory was given to make the handlers.
    MissingFactory,
    /// There is no process, or a declared pool has none.
    ZeroPool,
    /// The time budget is zero.
    NonPositiveBudget,
    /// A rule or a process names a pool that was not declared.
    UnknownPool,
    /// Some pair of pools has no latency distribution that can be sampled.
    MissingTopology,
    /// A NIC cap is zero bytes per jiffy.
    ZeroBandwidth,
}

/// What is fixed when a simulation is set up.
pub struct Setup {
    pub population: nat,
    pub horizon: Jiffies,
    pub loopback: Jiffies,
    pub rules: Seq<LatencyRule>,
    pub fallback: Option<Distributions>,
    pub pools: Seq<PoolId>,
}

/// What submitting an event changes besides a NIC: the queued events, the
/// state of the random source and the next fresh id.
pub struct Wire {
    pub pending: Map<EventId, EventView>,
    pub rng: u64,
    pub next_id: EventId,
}

/// The keys are in strictly ascending order.
pub open spec fn ascending(trace: Seq<Key>) -> bool {
    forall|i: int, j: int| 0 <= i < j < trace.len() ==> key_lt(trace[i], trace[j])
}

/// The state of one simulation, as its handlers see it during a callback.
pub struct Runtime {
    clock: Clock,
    queue: EventQueue,
    next_id: EventId,
    nics: Vec<NetworkBoundedQueue>,
    pool_of: Vec<PoolId>,
    pools: usize,
    topology: Topology,
    rng: Randomizer,
    budget: Jiffies,
    self_delay: Jiffies,
    current: ProcessId,
    kv: AnyKv,
    trace: Ghost<Seq<Key>>,
}

/// Why the given parts cannot make a runtime, if they cannot: the first of
/// the listed faults that holds.
pub open spec fn setup_fault(
    pool_of: Seq<PoolId>,
    caps: Seq<BandwidthType>,
    rules: Seq<LatencyRule>,
    fallback: Option<Distributions>,
) -> Option<BuildError> {
    if pool_of.len() == 0 {
        Some(BuildError::ZeroPool)
    } else if exists|i: int| 0 <= i < pool_of.len() && pool_of[i] >= caps.len() {
        Some(BuildError::UnknownPool)
    } else if exists|p: int| 0 <= p < caps.len() && caps[p] == BandwidthType::Bounded(0) {
        Some(BuildError::ZeroBandwidth)
    } else if !crate::topology::covers(rules, fallback, caps.len()) {
        Some(BuildError::MissingTopology)
    } else {
        None
    }
}

impl Runtime {
    /// The current simulated time.
    pub closed spec fn spec_now(&self) -> Jiffies {
        self.clock.time()
    }

    /// The process whose callback runs, or ran last.
    pub closed spec fn spec_rank(&self) -> ProcessId {
        self.current
    }

    /// What was fixed at set-up.
    pub closed spec fn setup(&self) -> Setup {
        Setup {
            population: self.nics.len() as nat,
            horizon: self.budget,
            loopback: self.self_delay,
            rules: self.topology.rules@,
            fallback: self.topology.fallback,
            pools: self.pool_of@,
        }
    }

    /// The queued events by id.
    pub closed spec fn pending(&self) -> Map<EventId, EventView> {
        self.queue@.map_values(|e: Event| e@)
    }

    /// The state of the random source.
    pub closed spec fn rng_state(&self) -> u64 {
        self.rng.spec_state()
    }

    /// The id that the next submitted event gets.
    pub closed spec fn fresh_id(&self) -> EventId {
        self.next_id
    }

    /// The NIC of process `pid`.
    pub closed spec fn nic(&self, pid: ProcessId) -> NetworkBoundedQueue {
        self.nics@[pid - 1]
    }

    /// The keys of the events dispatched so far, in the order of dispatch.
    pub closed spec fn dispatched(&self) -> Seq<Key> {
        self.trace@
    }

    /// The metrics and state that handlers have stored.
    pub closed spec fn metrics(&self) -> Map<Seq<char>, Value> {
        self.kv@
    }

    /// `pid` is a process of this simulation.
    pub open spec fn is_process(&self, pid: ProcessId) -> bool {
        1 <= pid <= self.setup().population
    }

    /// The invariant of the engine. Every queued event has an id below the
    /// next fresh one, is due no earlier than now and goes to a process of
    /// the simulation; the dispatched keys ascend, and every queued event
    /// comes after the last of them.
    pub closed spec fn wf(&self) -> bool {
        &&& self.queue.wf()
        &&& self.kv.wf()
        &&& self.nics.len() == self.pool_of.len()
        &&& self.nics.len() >= 1
        &&& forall|i: int| 0 <= i < self.nics.len() ==> (#[trigger] self.nics@[i]).wf()
        &&& forall|i: int| 0 <= i < self.pool_of.len() ==> (#[trigger] self.pool_of@[i]) < self.pools
        &&& self.topology.complete(self.pools as nat)
        &&& 1 <= self.current <= self.nics.len()
        &&& forall|id: EventId| #[trigger]
            self.queue@.contains_key(id) ==> {
                &&& id < self.next_id
                &&& self.queue@[id].time.0 >= self.clock.time().0
                &&& 1 <= self.queue@[id].dest <= self.nics.len()
            }
        &&& ascending(self.trace@)
        &&& forall|i: int|
            0 <= i < self.trace@.len() ==> (#[trigger] self.trace@[i]).1 < self.next_id
                && self.trace@[i].0 <= self.clock.time().0
        &&& forall|id: EventId| #[trigger]
            self.queue@.contains_key(id) && self.trace@.len() > 0 ==> key_lt(
                self.trace@.last(),
                event_key(self.queue@[id]),
            )
        &&& self.trace@.len() + self.queue@.len() <= self.next_id
    }

    /// What a callback may have done to the runtime it was given: the
    /// clock, the rank, the set-up and the record of dispatches are as
    /// before; ids were only used up; and an event that was submitted
    /// before the callback is either still queued as it was or gone.
    pub open spec fn extends(&self, before: Runtime) -> bool {
        &&& self.wf()
        &&& self.spec_now() == before.spec_now()
        &&& self.spec_rank() == before.spec_rank()
        &&& self.setup() == before.setup()
        &&& self.dispatched() == before.dispatched()
        &&& self.fresh_id() >= before.fresh_id()
        &&& forall|id: EventId|
            id < before.fresh_id() && #[trigger] self.pending().contains_key(id)
                ==> before.pending().contains_key(id) && self.pending()[id]
                == before.pending()[id]
    }

    /// What the start of process `pid` may have done to the runtime: as
    /// `extends`, but that the rank is now `pid`.
    pub open spec fn started(&self, before: Runtime, pid: ProcessId) -> bool {
        &&& self.wf()
        &&& self.spec_now() == before.spec_now()
        &&& self.spec_rank() == pid
        &&& self.setup() == before.setup()
        &&& self.dispatched() == before.dispatched()
        &&& self.fresh_id() >= before.fresh_id()
        &&& forall|id: EventId|
            id < before.fresh_id() && #[trigger] self.pending().contains_key(id)
                ==> before.pending().contains_key(id) && self.pending()[id]
                == before.pending()[id]
    }

    /// In a well-formed runtime there is a process, the rank is one, and
    /// every queued event has a used id, a destination in the simulation
    /// and a delivery time that is not in the past.
    pub proof fn lemma_wf(&self)
        requires
            self.wf(),
        ensures
            self.setup().population >= 1,
            self.is_process(self.spec_rank()),
            forall|id: EventId| #[trigger]
                self.pending().contains_key(id) ==> {
                    &&& id < self.fresh_id()
                    &&& self.pending()[id].id == id
                    &&& self.pending()[id].time.0 >= self.spec_now().0
                    &&& self.is_process(self.pending()[id].dest)
                },
            ascending(self.dispatched()),
            self.dispatched().len() + self.pending().len() <= self.fresh_id(),
            forall|pid: ProcessId| self.is_process(pid) ==> (#[trigger] self.nic(pid)).wf(),
    {
        self.queue.lemma_keyed();
        assert(self.pending().dom() =~= self.queue@.dom());
    }

    /// A runtime at jiffy 0 with nothing queued, for processes `1..=n`
    /// where `n` is the length of `pool_of`, which gives each process its
    /// pool; `caps` gives each pool the cap of its NICs. Fails with the
    /// first fault of `setup_fault`.
    pub fn new(
        seed: Seed,
        budget: Jiffies,
        pool_of: Vec<PoolId>,
        caps: Vec<BandwidthType>,
        topology: Topology,
        self_delay: Jiffies,
    ) -> (r: Result<Runtime, BuildError>)
        ensures
            match r {
                Ok(rt) => {
                    &&& setup_fault(pool_of@, caps@, topology.rules@, topology.fallback) is None
                    &&& rt.wf()
                    &&& rt.spec_now() == Jiffies(0)
                    &&& rt.spec_rank() == 1
                    &&& rt.pending() == Map::<EventId, EventView>::empty()
                    &&& rt.rng_state() == seed
                    &&& rt.metrics() == Map::<Seq<char>, Value>::empty()
                    &&& rt.fresh_id() == 0
                    &&& rt.dispatched() == Seq::<Key>::empty()
                    &&& rt.setup() == (Setup {
                        population: pool_of@.len(),
                        horizon: budget,
                        loopback: self_delay,
                        rules: topology.rules@,
                        fallback: topology.fallback,
                        pools: pool_of@,
                    })
                    &&& forall|pid: ProcessId|
                        1 <= pid <= pool_of@.len() ==> {
                            &&& (#[trigger] rt.nic(pid)).spec_bandwidth() == caps@[pool_of@[pid
                                - 1] as int]
                            &&& rt.nic(pid).spec_last_departure() == 0
                            &&& rt.nic(pid).sent().len() == 0
                        }
                },
                Err(e) => setup_fault(pool_of@, caps@, topology.rules@, topology.fallback)
                    == Some(e),
            },
    {
        let n = pool_of.len();
        let pools = caps.len();
        if n == 0 {
            return Err(BuildError::ZeroPool);
        }
        let mut i: usize = 0;
        while i < n
            invariant
                n == pool_of.len(),
                pools == caps.len(),
                i <= n,
                forall|k: int| 0 <= k < i ==> pool_of@[k] < pools,
            decreases n - i,
        {
            if pool_of[i] >= pools {
                return Err(BuildError::UnknownPool);
            }
            i = i + 1;
        }
        let mut p: usize = 0;
        while p < pools
            invariant
                n == pool_of.len(),
                n > 0,
                pools == caps.len(),
                forall|j: int| 0 <= j < n ==> pool_of@[j] < pools,
                p <= pools,
                forall|j: int| 0 <= j < p ==> caps@[j] != BandwidthType::Bounded(0),
            decreases pools - p,
        {
            match caps[p] {
                BandwidthType::Bounded(rate) => {
                    if rate == 0 {
                        return Err(BuildError::ZeroBandwidth);
                    }
                },
                BandwidthType::Unbounded => {},
            }
            p = p + 1;
        }
        let mut nics: Vec<NetworkBoundedQueue> = Vec::new();
        let mut k: usize = 0;
        while k < n
            invariant
                n == pool_of.len(),
                pools == caps.len(),
                forall|j: int| 0 <= j < n ==> pool_of@[j] < pools,
                forall|j: int| 0 <= j < pools ==> caps@[j] != BandwidthType::Bounded(0),
                k <= n,
                nics.len() == k,
                forall|j: int|
                    0 <= j < k ==> {
                        &&& (#[trigger] nics@[j]).wf()
                        &&& nics@[j].spec_bandwidth() == caps@[pool_of@[j] as int]
                        &&& nics@[j].spec_last_departure() == 0
                        &&& nics@[j].sent().len() == 0
                    },
            decreases n - k,
        {
            let cap = caps[pool_of[k]];
            match NetworkBoundedQueue::new(cap) {
                Some(nic) => {
                    nics.push(nic);
                },
                None => {
                    assert(false);
                },
            }
            k = k + 1;
        }
        if !topology.is_complete(pools) {
            return Err(BuildError::MissingTopology);
        }
        let rt = Runtime {
            clock: Clock::new(),
            queue: EventQueue::new(),
            next_id: 0,
            nics,
            pool_of,
            pools,
            topology,
            rng: Randomizer::new(seed),
            budget,
            self_delay,
            current: 1,
            kv: AnyKv::new(),
            trace: Ghost(Seq::empty()),
        };
        proof {
            assert(rt.pending() =~= Map::<EventId, EventView>::empty());
            assert(rt.queue@.len() == 0);
        }
        Ok(rt)
    }

    /// The current simulated time.
    pub fn now(&self) -> (t: Jiffies)
        ensures
            t == self.spec_now(),
    {
        now(&self.clock)
    }

    /// The process whose callback runs.
    pub fn rank(&self) -> (pid: ProcessId)
        ensures
            pid == self.spec_rank(),
    {
        self.current
    }

    /// The number of processes in the simulation.
    pub fn process_number(&self) -> (n: usize)
        ensures
            n == self.setup().population,
    {
        self.nics.len()
    }

    /// The simulated-time ceiling: no event due after it is dispatched.
    pub fn time_budget(&self) -> (t: Jiffies)
        ensures
            t == self.setup().horizon,
    {
        self.budget
    }

    /// The number of queued events.
    pub fn queued(&self) -> (n: usize)
        requires
            self.wf(),
        ensures
            n == self.pending().len(),
    {
        assert(self.pending().dom() =~= self.queue@.dom());
        self.queue.len()
    }

    /// The random state, the queued events and the next fresh id: what
    /// submitting an event can change besides a NIC.
    pub open spec fn wire(&self) -> Wire {
        Wire { pending: self.pending(), rng: self.rng_state(), next_id: self.fresh_id() }
    }

    /// The pool of process `pid`.
    pub open spec fn pool(&self, pid: ProcessId) -> PoolId {
        self.setup().pools[pid - 1]
    }

    /// The latency distribution from `from` to `dest`.
    pub open spec fn link(&self, from: ProcessId, dest: ProcessId) -> Option<Distributions> {
        resolve(self.setup().rules, self.setup().fallback, self.pool(from), self.pool(dest))
    }

    /// When a message from `from` that left the NIC at `release` reaches
    /// `dest`, and the random state after the latency was drawn. A message
    /// to oneself does not pass the network: it arrives after the loopback
    /// delay, and nothing is drawn.
    pub open spec fn arrival(&self, from: ProcessId, dest: ProcessId, release: nat, rng: u64) -> (
        nat,
        u64,
    ) {
        if from == dest {
            ((self.spec_now().0 + self.setup().loopback.0) as nat, rng)
        } else {
            let (latency, after) = self.link(from, dest).unwrap().spec_sample(rng);
            ((release + latency.0) as nat, after)
        }
    }

    /// The wire after one copy of `msg` was addressed to `dest`: the
    /// latency is drawn, and the message is queued under the next fresh id
    /// unless its arrival time or that id does not fit in a `usize`.
    pub open spec fn spec_deliver(&self, w: Wire, dest: ProcessId, release: nat, msg: MessageView)
        -> Wire {
        let (at, rng) = self.arrival(msg.source, dest, release, w.rng);
        if at <= usize::MAX && w.next_id < usize::MAX {
            Wire {
                pending: w.pending.insert(
                    w.next_id,
                    EventView {
                        id: w.next_id,
                        time: Jiffies(at as usize),
                        dest,
                        event_type: EventTypeView::Message(msg),
                    },
                ),
                rng,
                next_id: (w.next_id + 1) as usize,
            }
        } else {
            Wire { pending: w.pending, rng, next_id: w.next_id }
        }
    }

    /// The wire after one copy of `msg` was addressed to each of the
    /// processes `1..=upto`, in ascending order.
    pub open spec fn spec_fan_out(&self, w: Wire, release: nat, msg: MessageView, upto: nat)
        -> Wire
        decreases upto,
    {
        if upto == 0 {
            w
        } else {
            self.spec_deliver(
                self.spec_fan_out(w, release, msg, (upto - 1) as nat),
                upto as ProcessId,
                release,
                msg,
            )
        }
    }

    /// The wire after a timer of `dest` was set to fire at `time`.
    pub open spec fn spec_timer(&self, dest: ProcessId, time: Jiffies) -> Wire {
        Wire {
            pending: self.pending().insert(
                self.fresh_id(),
                EventView {
                    id: self.fresh_id(),
                    time,
                    dest,
                    event_type: EventTypeView::Timeout,
                },
            ),
            rng: self.rng_state(),
            next_id: (self.fresh_id() + 1) as usize,
        }
    }

    /// All NICs are as they were in `before`.
    pub open spec fn same_nics(&self, before: Runtime) -> bool {
        forall|pid: ProcessId| self.is_process(pid) ==> #[trigger] self.nic(pid) == before.nic(pid)
    }

    /// All NICs but that of `sender` are as they were in `before`.
    pub open spec fn same_nics_but(&self, before: Runtime, sender: ProcessId) -> bool {
        forall|pid: ProcessId|
            self.is_process(pid) && pid != sender ==> #[trigger] self.nic(pid) == before.nic(pid)
    }

    fn enqueue(&mut self, time: Jiffies, dest: ProcessId, event_type: EventType) -> (r: Option<
        EventId,
    >)
        requires
            old(self).wf(),
            time.0 >= old(self).spec_now().0,
            old(self).is_process(dest),
        ensures
            final(self).extends(*old(self)),
            final(self).metrics() == old(self).metrics(),
            final(self).same_nics(*old(self)),
            final(self).rng_state() == old(self).rng_state(),
            old(self).fresh_id() < usize::MAX ==> {
                &&& r == Some(old(self).fresh_id())
                &&& final(self).fresh_id() == old(self).fresh_id() + 1
                &&& final(self).pending() == old(self).pending().insert(
                    old(self).fresh_id(),
                    EventView { id: old(self).fresh_id(), time, dest, event_type: event_type@ },
                )
            },
            old(self).fresh_id() == usize::MAX ==> r is None && final(self).wire() == old(
                self,
            ).wire(),
    {
        if self.next_id == usize::MAX {
            return None;
        }
        let id = self.next_id;
        let ghost before = *self;
        let event = Event { id, time, dest, event_type };
        let ghost seen = event@;
        proof {
            self.queue.lemma_keyed();
        }
        self.queue.push(event);
        self.next_id = id + 1;
        proof {
            assert(!before.queue@.contains_key(id));
            assert(self.queue@.dom() =~= before.queue@.dom().insert(id));
            assert(self.pending() =~= before.pending().insert(id, seen));
            assert(self.queue@.len() == before.queue@.len() + 1);
            assert forall|j: EventId| #[trigger]
                self.queue@.contains_key(j) && self.trace@.len() > 0 implies key_lt(
                self.trace@.last(),
                event_key(self.queue@[j]),
            ) by {
                if j == id {
                    let last = self.trace@[self.trace@.len() - 1];
                    assert(last.1 < before.next_id && last.0 <= before.clock.time().0);
                } else {
                    assert(before.queue@.contains_key(j));
                }
            }
            assert forall|j: EventId| #[trigger] self.queue@.contains_key(j) implies {
                &&& j < self.next_id
                &&& self.queue@[j].time.0 >= self.clock.time().0
                &&& 1 <= self.queue@[j].dest <= self.nics.len()
            } by {
                if j != id {
                    assert(before.queue@.contains_key(j));
                }
            }
            assert forall|j: EventId|
                j < before.fresh_id() && #[trigger] self.pending().contains_key(j) implies
                before.pending().contains_key(j) && self.pending()[j] == before.pending()[j] by {
                assert(j != id);
            }
        }
        Some(id)
    }

    /// Sets a timer of the calling process to fire `after` jiffies from
    /// now, and returns its id. `None`, with nothing changed, exactly where
    /// the firing time or the id does not fit in a `usize`.
    pub fn schedule_timer_after(&mut self, after: Jiffies) -> (r: Option<TimerId>)
        requires
            old(self).wf(),
        ensures
            final(self).extends(*old(self)),
            final(self).metrics() == old(self).metrics(),
            final(self).same_nics(*old(self)),
            old(self).scheduled(*final(self), after, r),
    {
        let present = self.now();
        match present.checked_add(after) {
            Some(time) => {
                proof {
                    self.lemma_wf();
                }
                self.enqueue(time, self.current, EventType::Timeout)
            },
            None => None,
        }
    }

    /// `after` is this runtime once a timer was asked for `delay` jiffies
    /// from now, with `id` as the answer.
    pub open spec fn scheduled(&self, after: Runtime, delay: Jiffies, id: Option<TimerId>) -> bool {
        if self.spec_now().0 + delay.0 <= usize::MAX && self.fresh_id() < usize::MAX {
            &&& id == Some(self.fresh_id())
            &&& after.wire() == self.spec_timer(
                self.spec_rank(),
                Jiffies((self.spec_now().0 + delay.0) as usize),
            )
        } else {
            &&& id is None
            &&& after.wire() == self.wire()
        }
    }

    /// `id` is a queued timer of the calling process.
    pub open spec fn owns_timer(&self, id: TimerId) -> bool {
        &&& self.pending().contains_key(id)
        &&& self.pending()[id].event_type is Timeout
        &&& self.pending()[id].dest == self.spec_rank()
    }

    /// `after` is this runtime once the timer `id` was cancelled, with
    /// `done` as the answer: a queued timer of the caller is taken out of
    /// the queue; anything else is left alone.
    pub open spec fn cancelled(&self, after: Runtime, id: TimerId, done: bool) -> bool {
        &&& done == self.owns_timer(id)
        &&& after.rng_state() == self.rng_state()
        &&& after.fresh_id() == self.fresh_id()
        &&& after.pending() == (if self.owns_timer(id) {
            self.pending().remove(id)
        } else {
            self.pending()
        })
    }

    /// Cancels the timer `id` of the calling process, so that it never
    /// fires. Cancelling a timer that has fired, was cancelled before or
    /// belongs to another process does nothing. Returns whether a timer was
    /// cancelled.
    pub fn reset_timer(&mut self, id: TimerId) -> (done: bool)
        requires
            old(self).wf(),
        ensures
            final(self).extends(*old(self)),
            final(self).metrics() == old(self).metrics(),
            final(self).same_nics(*old(self)),
            old(self).cancelled(*final(self), id, done),
            !final(self).pending().contains_key(id) || !old(self).owns_timer(id),
    {
        let ghost before = *self;
        let own = match self.queue.get(id) {
            Some(e) => {
                let is_timer = match &e.event_type {
                    EventType::Timeout => true,
                    EventType::Message(_) => false,
                };
                is_timer && e.dest == self.current
            },
            None => false,
        };
        if !own {
            return false;
        }
        proof {
            self.queue.lemma_keyed();
        }
        self.queue.cancel(id);
        proof {
            assert(self.queue@.dom() =~= before.queue@.dom().remove(id));
            assert(self.pending() =~= before.pending().remove(id));
            assert(self.queue@.len() == before.queue@.len() - 1);
            assert forall|j: EventId| #[trigger] self.queue@.contains_key(j) implies {
                &&& j < self.next_id
                &&& self.queue@[j].time.0 >= self.clock.time().0
                &&& 1 <= self.queue@[j].dest <= self.nics.len()
                &&& (self.trace@.len() > 0 ==> key_lt(
                    self.trace@.last(),
                    event_key(self.queue@[j]),
                ))
            } by {
                assert(before.queue@.contains_key(j));
            }
        }
        true
    }

    fn deliver(&mut self, dest: ProcessId, release: Jiffies, msg: Message) -> (r: Option<EventId>)
        requires
            old(self).wf(),
            old(self).is_process(dest),
            old(self).is_process(msg.source),
            release.0 >= old(self).spec_now().0,
        ensures
            final(self).extends(*old(self)),
            final(self).metrics() == old(self).metrics(),
            final(self).same_nics(*old(self)),
            final(self).wire() == old(self).spec_deliver(
                old(self).wire(),
                dest,
                release.0 as nat,
                msg@,
            ),
            r == (if final(self).fresh_id() > old(self).fresh_id() {
                Some(old(self).fresh_id())
            } else {
                None
            }),
    {
        let from = msg.source;
        let time = if from == dest {
            self.now().checked_add(self.self_delay)
        } else {
            let link = self.topology.resolve(self.pool_of[from - 1], self.pool_of[dest - 1]);
            assert(link is Some && link.unwrap().valid()) by {
                assert(self.pool_of@[from - 1] < self.pools);
                assert(self.pool_of@[dest - 1] < self.pools);
            }
            let latency = link.unwrap().sample(&mut self.rng);
            release.checked_add(latency)
        };
        match time {
            Some(at) => self.enqueue(at, dest, EventType::Message(msg)),
            None => None,
        }
    }

    /// Puts `size` bytes on the NIC of the calling process and returns
    /// when they have left it.
    fn occupy(&mut self, size: usize) -> (r: Option<Jiffies>)
        requires
            old(self).wf(),
        ensures
            final(self).extends(*old(self)),
            final(self).metrics() == old(self).metrics(),
            final(self).wire() == old(self).wire(),
            final(self).same_nics_but(*old(self), old(self).spec_rank()),
            old(self).nic(old(self).spec_rank()).transmitted(
                final(self).nic(old(self).spec_rank()),
                old(self).spec_now(),
                size as nat,
            ),
            r == (if old(self).nic(old(self).spec_rank()).spec_release(
                old(self).spec_now(),
                size as nat,
            ) <= usize::MAX {
                Some(
                    Jiffies(
                        old(self).nic(old(self).spec_rank()).spec_release(
                            old(self).spec_now(),
                            size as nat,
                        ) as usize,
                    ),
                )
            } else {
                None
            }),
            r is Some ==> r.unwrap().0 >= old(self).spec_now().0,
    {
        let here = self.current;
        let present = self.now();
        let ghost before = *self;
        let release = self.nics[here - 1].transmit(present, size);
        proof {
            assert(self.nics@ =~= before.nics@.update(here - 1, self.nics@[here - 1]));
            assert forall|i: int| 0 <= i < self.nics.len() implies (#[trigger] self.nics@[i]).wf() by {
                if i != here - 1 {
                    assert(self.nics@[i] == before.nics@[i]);
                }
            }
            assert forall|pid: ProcessId| self.is_process(pid) && pid != here implies #[trigger]
                self.nic(pid) == before.nic(pid) by {
                assert(self.nics@[pid - 1] == before.nics@[pid - 1]);
            }
        }
        release
    }

    /// Addresses one copy of the message to each process in ascending
    /// order of id.
    fn fan_out(&mut self, release: Jiffies, payload: &bytes::Bytes)
        requires
            old(self).wf(),
            release.0 >= old(self).spec_now().0,
        ensures
            final(self).extends(*old(self)),
            final(self).metrics() == old(self).metrics(),
            final(self).same_nics(*old(self)),
            final(self).wire() == old(self).spec_fan_out(
                old(self).wire(),
                release.0 as nat,
                MessageView {
                    source: old(self).spec_rank(),
                    payload: crate::events::payload_bytes(*payload),
                },
                old(self).setup().population,
            ),
    {
        let here = self.current;
        let n = self.nics.len();
        let ghost before = *self;
        let ghost msg = MessageView {
            source: here,
            payload: crate::events::payload_bytes(*payload),
        };
        let mut dest: usize = 0;
        while dest < n
            invariant
                dest <= n,
                n == before.setup().population,
                here == before.spec_rank(),
                before.is_process(here),
                before.wf(),
                release.0 >= before.spec_now().0,
                msg.source == here,
                msg.payload == crate::events::payload_bytes(*payload),
                self.extends(before),
                self.metrics() == before.metrics(),
                self.same_nics(before),
                self.wire() == before.spec_fan_out(
                    before.wire(),
                    release.0 as nat,
                    msg,
                    dest as nat,
                ),
            decreases n - dest,
        {
            dest = dest + 1;
            let copy = Message { source: here, payload: payload.clone() };
            let ghost prev = *self;
            self.deliver(dest, release, copy);
            proof {
                assert(copy@ == msg);
                assert(prev.spec_deliver(prev.wire(), dest, release.0 as nat, msg)
                    == before.spec_deliver(prev.wire(), dest, release.0 as nat, msg));
                assert forall|pid: ProcessId| self.is_process(pid) implies #[trigger] self.nic(pid)
                    == before.nic(pid) by {
                    assert(self.nic(pid) == prev.nic(pid));
                    assert(prev.is_process(pid));
                }
            }
        }
    }

    /// `after` is this runtime once the calling process sent `payload` to
    /// `dest`. A message to a process that does not exist changes nothing.
    /// A message to oneself is queued after the loopback delay and costs
    /// no bandwidth. Any other message occupies the sender's NIC, and once
    /// it has left it travels for a latency drawn for the pair.
    pub open spec fn sent(&self, after: Runtime, dest: ProcessId, payload: Seq<u8>) -> bool {
        let msg = MessageView { source: self.spec_rank(), payload };
        let here = self.spec_rank();
        let release = self.nic(here).spec_release(self.spec_now(), payload.len());
        if !self.is_process(dest) {
            after.wire() == self.wire() && after.same_nics(*self)
        } else if dest == here {
            after.wire() == self.spec_deliver(self.wire(), dest, self.spec_now().0 as nat, msg)
                && after.same_nics(*self)
        } else {
            &&& after.same_nics_but(*self, here)
            &&& self.nic(here).transmitted(after.nic(here), self.spec_now(), payload.len())
            &&& after.wire() == (if release <= usize::MAX {
                self.spec_deliver(self.wire(), dest, release, msg)
            } else {
                self.wire()
            })
        }
    }

    /// Sends `payload` from the calling process to `dest`. Returns the id
    /// of the queued delivery, or `None` where none was queued.
    pub fn send_to(&mut self, dest: ProcessId, payload: bytes::Bytes) -> (r: Option<EventId>)
        requires
            old(self).wf(),
        ensures
            final(self).extends(*old(self)),
            final(self).metrics() == old(self).metrics(),
            old(self).sent(*final(self), dest, crate::events::payload_bytes(payload)),
            r == (if final(self).fresh_id() > old(self).fresh_id() {
                Some(old(self).fresh_id())
            } else {
                None
            }),
    {
        if dest == 0 || dest > self.nics.len() {
            return None;
        }
        let here = self.current;
        let msg = Message { source: here, payload };
        if dest == here {
            let present = self.now();
            return self.deliver(dest, present, msg);
        }
        let size = msg.virtual_size();
        let ghost before = *self;
        match self.occupy(size) {
            Some(at) => {
                let ghost mid = *self;
                let r = self.deliver(dest, at, msg);
                proof {
                    assert(mid.spec_deliver(mid.wire(), dest, at.0 as nat, msg@)
                        == before.spec_deliver(before.wire(), dest, at.0 as nat, msg@));
                    assert forall|pid: ProcessId|
                        self.is_process(pid) && pid != here implies #[trigger] self.nic(pid)
                        == before.nic(pid) by {
                        assert(self.nic(pid) == mid.nic(pid));
                        assert(mid.is_process(pid));
                    }
                    assert(mid.is_process(here));
                    assert(self.nic(here) == mid.nic(here));
                }
                r
            },
            None => None,
        }
    }

    /// `after` is this runtime once the calling process broadcast
    /// `payload`: the sender's NIC is occupied once, and then a copy goes
    /// to every process in ascending order of id, each with a latency of
    /// its own. Where the NIC's release time does not fit in a `usize`,
    /// nothing is sent.
    pub open spec fn broadcasted(&self, after: Runtime, payload: Seq<u8>) -> bool {
        let msg = MessageView { source: self.spec_rank(), payload };
        let here = self.spec_rank();
        let release = self.nic(here).spec_release(self.spec_now(), payload.len());
        &&& after.same_nics_but(*self, here)
        &&& self.nic(here).transmitted(after.nic(here), self.spec_now(), payload.len())
        &&& after.wire() == (if release <= usize::MAX {
            self.spec_fan_out(self.wire(), release, msg, self.setup().population)
        } else {
            self.wire()
        })
    }

    /// Sends `payload` from the calling process to every process of the
    /// simulation. Returns the number of deliveries queued.
    pub fn broadcast(&mut self, payload: bytes::Bytes) -> (count: usize)
        requires
            old(self).wf(),
        ensures
            final(self).extends(*old(self)),
            final(self).metrics() == old(self).metrics(),
            old(self).broadcasted(*final(self), crate::events::payload_bytes(payload)),
            count == final(self).fresh_id() - old(self).fresh_id(),
    {
        let here = self.current;
        let size = payload.len();
        let first = self.next_id;
        let ghost before = *self;
        let ghost msg = MessageView {
            source: here,
            payload: crate::events::payload_bytes(payload),
        };
        match self.occupy(size) {
            Some(at) => {
                let ghost mid = *self;
                self.fan_out(at, &payload);
                proof {
                    let n = before.setup().population;
                    before.lemma_fan_out_frame(mid, mid.wire(), at.0 as nat, msg, n);
                    assert forall|pid: ProcessId|
                        self.is_process(pid) && pid != here implies #[trigger] self.nic(pid)
                        == before.nic(pid) by {
                        assert(self.nic(pid) == mid.nic(pid));
                        assert(mid.is_process(pid));
                    }
                    assert(mid.is_process(here));
                    assert(self.nic(here) == mid.nic(here));
                }
                self.next_id - first
            },
            None => 0,
        }
    }

    /// What a fan-out queues depends on the runtime only through its clock
    /// and its set-up.
    pub proof fn lemma_fan_out_frame(
        &self,
        other: Runtime,
        w: Wire,
        release: nat,
        msg: MessageView,
        upto: nat,
    )
        requires
            self.setup() == other.setup(),
            self.spec_now() == other.spec_now(),
        ensures
            self.spec_fan_out(w, release, msg, upto) == other.spec_fan_out(w, release, msg, upto),
        decreases upto,
    {
        if upto > 0 {
            self.lemma_fan_out_frame(other, w, release, msg, (upto - 1) as nat);
        }
    }

    /// Sends `payload` from the calling process where `destination` says:
    /// to every process, or back to the caller. Returns the number of
    /// deliveries queued.
    pub fn submit(&mut self, destination: Destination, payload: bytes::Bytes) -> (count: usize)
        requires
            old(self).wf(),
        ensures
            final(self).extends(*old(self)),
            final(self).metrics() == old(self).metrics(),
            match destination {
                Destination::Broadcast => old(self).broadcasted(
                    *final(self),
                    crate::events::payload_bytes(payload),
                ),
                Destination::SendSelf => old(self).sent(
                    *final(self),
                    old(self).spec_rank(),
                    crate::events::payload_bytes(payload),
                ),
            },
            count == final(self).fresh_id() - old(self).fresh_id(),
    {
        match destination {
            Destination::Broadcast => self.broadcast(payload),
            Destination::SendSelf => {
                let here = self.current;
                match self.send_to(here, payload) {
                    Some(_) => 1,
                    None => 0,
                }
            },
        }
    }

    /// The jiffy until which the NIC of process `pid` is busy: the end of
    /// its last transmission, or 0 before the first.
    pub fn busy_until(&self, pid: ProcessId) -> (t: Jiffies)
        requires
            self.wf(),
            self.is_process(pid),
        ensures
            t.0 == self.nic(pid).spec_last_departure(),
    {
        self.nics[pid - 1].last_departure()
    }

    /// The queue holds nothing that may still be dispatched: it is empty,
    /// or all that is queued is due after the time budget.
    pub open spec fn finished(&self) -> bool {
        forall|id: EventId| #[trigger]
            self.pending().contains_key(id) ==> self.pending()[id].time.0
                > self.setup().horizon.0
    }

    /// `e` is the queued event that is dispatched next: no queued event has
    /// an earlier delivery time, or the same time and a smaller id.
    pub open spec fn is_due(&self, e: EventView) -> bool {
        &&& self.pending().contains_key(e.id)
        &&& self.pending()[e.id] == e
        &&& forall|j: EventId| #[trigger]
            self.pending().contains_key(j) ==> key_le(
                (e.time.0, e.id),
                (self.pending()[j].time.0, j),
            )
    }

    /// `after` is this runtime once `e` was taken for dispatch: the clock
    /// shows its delivery time, the rank is its destination, and it has
    /// moved from the queue to the record of dispatches.
    pub open spec fn dispatches(&self, after: Runtime, e: EventView) -> bool {
        &&& self.is_due(e)
        &&& e.time.0 <= self.setup().horizon.0
        &&& after.spec_now() == e.time
        &&& after.spec_rank() == e.dest
        &&& after.pending() == self.pending().remove(e.id)
        &&& after.dispatched() == self.dispatched().push((e.time.0, e.id))
        &&& after.setup() == self.setup()
        &&& after.rng_state() == self.rng_state()
        &&& after.fresh_id() == self.fresh_id()
        &&& after.metrics() == self.metrics()
        &&& after.same_nics(*self)
    }

    /// Takes the next event for dispatch: the earliest queued event, unless
    /// it is due after the time budget. The clock moves to its delivery
    /// time and the rank becomes its destination. `None`, with nothing
    /// changed, exactly when the simulation has finished.
    pub fn next_event(&mut self) -> (r: Option<Event>)
        requires
            old(self).wf(),
        ensures
            final(self).wf(),
            match r {
                Some(e) => old(self).dispatches(*final(self), e@),
                None => old(self).finished() && *final(self) == *old(self),
            },
    {
        let ghost before = *self;
        proof {
            self.queue.lemma_keyed();
        }
        match self.queue.peek() {
            None => {
                assert(self.pending() =~= Map::<EventId, EventView>::empty());
                return None;
            },
            Some((time, id)) => {
                if time.0 > self.budget.0 {
                    assert forall|j: EventId| #[trigger]
                        self.pending().contains_key(j) implies self.pending()[j].time.0
                        > self.setup().horizon.0 by {
                        assert(self.queue@.contains_key(j));
                    }
                    return None;
                }
            },
        }
        let popped = self.queue.pop_min();
        let e = match popped {
            Some(e) => e,
            None => {
                return None;
            },
        };
        proof {
            assert(before.queue@.contains_key(e.id));
        }
        fast_forward_clock(&mut self.clock, e.time);
        self.current = e.dest;
        self.trace = Ghost(before.trace@.push((e.time.0, e.id)));
        proof {
            let key = (e.time.0, e.id);
            let trace = self.trace@;
            assert(event_key(e) == key);
            assert(self.queue@.dom() =~= before.queue@.dom().remove(e.id));
            assert(self.pending() =~= before.pending().remove(e.id));
            assert(self.queue@.len() == before.queue@.len() - 1);
            assert(trace.last() == key);
            assert forall|i: int, j: int| 0 <= i < j < trace.len() implies key_lt(
                trace[i],
                trace[j],
            ) by {
                if j == trace.len() - 1 {
                    assert(trace[i] == before.trace@[i]);
                    assert(key_lt(before.trace@.last(), key));
                    if i < before.trace@.len() - 1 {
                        assert(key_lt(before.trace@[i], before.trace@.last()));
                    }
                } else {
                    assert(trace[i] == before.trace@[i] && trace[j] == before.trace@[j]);
                }
            }
            assert forall|i: int| 0 <= i < trace.len() implies (#[trigger] trace[i]).1
                < self.next_id && trace[i].0 <= self.clock.time().0 by {
                if i < before.trace@.len() {
                    assert(trace[i] == before.trace@[i]);
                }
            }
            assert forall|j: EventId| #[trigger] self.queue@.contains_key(j) implies {
                &&& j < self.next_id
                &&& self.queue@[j].time.0 >= self.clock.time().0
                &&& 1 <= self.queue@[j].dest <= self.nics.len()
                &&& key_lt(trace.last(), event_key(self.queue@[j]))
            } by {
                assert(before.queue@.contains_key(j));
                assert(key_le(event_key(e), event_key(before.queue@[j])));
                assert(before.queue@[j].id == j);
            }
            assert forall|j: EventId| #[trigger] before.pending().contains_key(j) implies key_le(
                (e.time.0, e.id),
                (before.pending()[j].time.0, j),
            ) by {
                assert(before.queue@.contains_key(j));
                assert(key_le(event_key(e), event_key(before.queue@[j])));
                assert(before.queue@[j].id == j);
            }
        }
        Some(e)
    }

    /// The store of metrics and state.
    pub fn store(&self) -> (kv: &AnyKv)
        requires
            self.wf(),
        ensures
            kv.wf(),
            kv@ == self.metrics(),
    {
        &self.kv
    }

    /// Binds `key` to `value` in the store, in place of what it was bound
    /// to before. Nothing else changes.
    pub fn put<T: Stored>(&mut self, key: &str, value: T)
        requires
            old(self).wf(),
        ensures
            final(self).extends(*old(self)),
            final(self).wire() == old(self).wire(),
            final(self).same_nics(*old(self)),
            final(self).metrics() == old(self).metrics().insert(key@, value.wrap()),
    {
        crate::anykv::set(&mut self.kv, key, value);
    }

    /// Replaces the value that `key` is bound to in the store by what `f`
    /// makes of it. The key is bound, and to a value that was stored as a
    /// `T`. Nothing else changes.
    pub fn update<T: Stored, F: FnOnce(T) -> T>(&mut self, key: &str, f: F)
        requires
            old(self).wf(),
            crate::anykv::holds::<T>(old(self).metrics(), key@),
            f.requires((T::unwrap(old(self).metrics()[key@]).unwrap(),)),
        ensures
            final(self).extends(*old(self)),
            final(self).wire() == old(self).wire(),
            final(self).same_nics(*old(self)),
            exists|changed: T|
                f.ensures((T::unwrap(old(self).metrics()[key@]).unwrap(),), changed)
                    && final(self).metrics() == old(self).metrics().insert(
                    key@,
                    #[trigger] changed.wrap(),
                ),
    {
        crate::anykv::modify(&mut self.kv, key, f);
    }

    /// Gives up the runtime for its store, so that the host can read the
    /// metrics after the run.
    pub fn into_store(self) -> (kv: AnyKv)
        requires
            self.wf(),
        ensures
            kv.wf(),
            kv@ == self.metrics(),
    {
        self.kv
    }

    /// Makes `pid` the calling process, as the scheduler does before it
    /// starts a process.
    pub(crate) fn enter(&mut self, pid: ProcessId)
        requires
            old(self).wf(),
            old(self).is_process(pid),
        ensures
            final(self).wf(),
            final(self).spec_rank() == pid,
            final(self).spec_now() == old(self).spec_now(),
            final(self).setup() == old(self).setup(),
            final(self).dispatched() == old(self).dispatched(),
            final(self).wire() == old(self).wire(),
            final(self).metrics() == old(self).metrics(),
            final(self).same_nics(*old(self)),
    {
        self.current = pid;
    }

    /// Draws the next number of the simulation's random stream.
    pub fn random(&mut self) -> (r: u64)
        requires
            old(self).wf(),
        ensures
            final(self).extends(*old(self)),
            final(self).pending() == old(self).pending(),
            final(self).fresh_id() == old(self).fresh_id(),
            final(self).metrics() == old(self).metrics(),
            final(self).rng_state() == crate::random::next_state(old(self).rng_state()),
            r == crate::random::mix(crate::random::next_state(old(self).rng_state())),
            final(self).same_nics(*old(self)),
    {
        self.rng.next_u64()
    }
}

/// What has happened to the runtime since `before`, by callbacks and by
/// dispatches: ids were only used up, and no event that had left the queue
/// by then is queued again.
pub open spec fn succeeds(after: Runtime, before: Runtime) -> bool {
    &&& after.fresh_id() >= before.fresh_id()
    &&& forall|id: EventId|
        id < before.fresh_id() && #[trigger] after.pending().contains_key(id)
            ==> before.pending().contains_key(id)
}

/// Of any two dispatched events the earlier dispatched has the earlier
/// delivery time, or the same delivery time and the smaller id.
pub proof fn law_dispatch_order(rt: Runtime, i: int, j: int)
    requires
        rt.wf(),
        0 <= i < j < rt.dispatched().len(),
    ensures
        rt.dispatched()[i].0 < rt.dispatched()[j].0 || (rt.dispatched()[i].0
            == rt.dispatched()[j].0 && rt.dispatched()[i].1 < rt.dispatched()[j].1),
{
    rt.lemma_wf();
    assert(key_lt(rt.dispatched()[i], rt.dispatched()[j]));
}

/// During the callback for an event the clock shows the delivery time of
/// that event: the dispatch sets it, and nothing that a callback does
/// moves it.
pub proof fn law_clock_shows_delivery_time(
    before: Runtime,
    taken: Runtime,
    during: Runtime,
    e: EventView,
)
    requires
        before.dispatches(taken, e),
        during.extends(taken),
    ensures
        taken.spec_now() == e.time,
        during.spec_now() == e.time,
        during.spec_rank() == e.dest,
{
}

/// The clock never runs backwards: a dispatch moves it to a time that is
/// not before the present.
pub proof fn law_time_is_monotonic(before: Runtime, taken: Runtime, e: EventView)
    requires
        before.wf(),
        before.dispatches(taken, e),
    ensures
        before.spec_now().0 <= taken.spec_now().0,
{
    before.lemma_wf();
    assert(before.pending().contains_key(e.id));
}

/// A callback leaves a runtime that succeeds the one it was given.
pub proof fn lemma_callback_succeeds(after: Runtime, before: Runtime)
    requires
        after.extends(before),
    ensures
        succeeds(after, before),
{
}

/// A dispatch leaves a runtime that succeeds the one before it.
pub proof fn lemma_dispatch_succeeds(after: Runtime, before: Runtime, e: EventView)
    requires
        before.dispatches(after, e),
    ensures
        succeeds(after, before),
{
}

/// Succession is transitive.
pub proof fn lemma_succeeds_transitive(c: Runtime, b: Runtime, a: Runtime)
    requires
        succeeds(c, b),
        succeeds(b, a),
    ensures
        succeeds(c, a),
{
    assert forall|id: EventId|
        id < a.fresh_id() && #[trigger] c.pending().contains_key(id) implies a.pending().contains_key(
        id,
    ) by {
        assert(b.pending().contains_key(id));
    }
}

/// A cancelled timer never fires: once a process has cancelled a timer
/// of its own, no dispatch at any later point hands out that timer.
pub proof fn law_cancelled_timer_never_fires(
    at_cancel: Runtime,
    cancelled: Runtime,
    later: Runtime,
    next: Runtime,
    id: TimerId,
    e: EventView,
)
    requires
        at_cancel.wf(),
        at_cancel.owns_timer(id),
        at_cancel.cancelled(cancelled, id, true),
        succeeds(later, cancelled),
        later.dispatches(next, e),
    ensures
        e.id != id,
{
    at_cancel.lemma_wf();
    assert(!cancelled.pending().contains_key(id));
    if e.id == id {
        assert(later.pending().contains_key(id));
    }
}

/// The two NICs have the same cap, are busy until the same jiffy and have
/// sent the same.
pub open spec fn nics_alike(x: NetworkBoundedQueue, y: NetworkBoundedQueue) -> bool {
    &&& x.spec_bandwidth() == y.spec_bandwidth()
    &&& x.spec_last_departure() == y.spec_last_departure()
    &&& x.sent() == y.sent()
}

/// The two runtimes are in the same state: the same set-up, clock, rank,
/// queue, random state, next id, metrics, record of dispatches and NICs.
pub open spec fn alike(a: Runtime, b: Runtime) -> bool {
    &&& a.setup() == b.setup()
    &&& a.spec_now() == b.spec_now()
    &&& a.spec_rank() == b.spec_rank()
    &&& a.wire() == b.wire()
    &&& a.metrics() == b.metrics()
    &&& a.dispatched() == b.dispatched()
    &&& forall|pid: ProcessId|
        a.is_process(pid) ==> nics_alike(#[trigger] a.nic(pid), #[trigger] b.nic(pid))
}

/// Replay of a send: from the same state, the same message to the same
/// process leaves the same state.
pub proof fn law_replay_send(
    a: Runtime,
    b: Runtime,
    a_after: Runtime,
    b_after: Runtime,
    dest: ProcessId,
    payload: Seq<u8>,
)
    requires
        alike(a, b),
        a.wf(),
        b.wf(),
        a_after.extends(a),
        b_after.extends(b),
        a_after.metrics() == a.metrics(),
        b_after.metrics() == b.metrics(),
        a.sent(a_after, dest, payload),
        b.sent(b_after, dest, payload),
    ensures
        alike(a_after, b_after),
{
    a.lemma_wf();
    b.lemma_wf();
    let here = a.spec_rank();
    assert(nics_alike(a.nic(here), b.nic(here)));
    assert forall|pid: ProcessId| a_after.is_process(pid) implies nics_alike(
        #[trigger] a_after.nic(pid),
        #[trigger] b_after.nic(pid),
    ) by {
        assert(nics_alike(a.nic(pid), b.nic(pid)));
    }
}

/// Replay of a broadcast: from the same state, the same broadcast leaves
/// the same state.
pub proof fn law_replay_broadcast(
    a: Runtime,
    b: Runtime,
    a_after: Runtime,
    b_after: Runtime,
    payload: Seq<u8>,
)
    requires
        alike(a, b),
        a.wf(),
        b.wf(),
        a_after.extends(a),
        b_after.extends(b),
        a_after.metrics() == a.metrics(),
        b_after.metrics() == b.metrics(),
        a.broadcasted(a_after, payload),
        b.broadcasted(b_after, payload),
    ensures
        alike(a_after, b_after),
{
    a.lemma_wf();
    b.lemma_wf();
    let here = a.spec_rank();
    assert(nics_alike(a.nic(here), b.nic(here)));
    let msg = MessageView { source: here, payload };
    let release = a.nic(here).spec_release(a.spec_now(), payload.len());
    a.lemma_fan_out_frame(b, a.wire(), release, msg, a.setup().population);
    assert forall|pid: ProcessId| a_after.is_process(pid) implies nics_alike(
        #[trigger] a_after.nic(pid),
        #[trigger] b_after.nic(pid),
    ) by {
        assert(nics_alike(a.nic(pid), b.nic(pid)));
    }
}

/// Replay of a timer: from the same state, setting a timer for the same
/// delay gives the same id and leaves the same state.
pub proof fn law_replay_schedule(
    a: Runtime,
    b: Runtime,
    a_after: Runtime,
    b_after: Runtime,
    delay: Jiffies,
    a_id: Option<TimerId>,
    b_id: Option<TimerId>,
)
    requires
        alike(a, b),
        a_after.extends(a),
        b_after.extends(b),
        a_after.same_nics(a),
        b_after.same_nics(b),
        a_after.metrics() == a.metrics(),
        b_after.metrics() == b.metrics(),
        a.scheduled(a_after, delay, a_id),
        b.scheduled(b_after, delay, b_id),
    ensures
        a_id == b_id,
        alike(a_after, b_after),
{
    assert forall|pid: ProcessId| a_after.is_process(pid) implies nics_alike(
        #[trigger] a_after.nic(pid),
        #[trigger] b_after.nic(pid),
    ) by {
        assert(nics_alike(a.nic(pid), b.nic(pid)));
    }
}

/// Replay of a cancellation: from the same state, cancelling the same
/// timer gives the same answer and leaves the same state.
pub proof fn law_replay_cancel(
    a: Runtime,
    b: Runtime,
    a_after: Runtime,
    b_after: Runtime,
    id: TimerId,
    a_done: bool,
    b_done: bool,
)
    requires
        alike(a, b),
        a_after.extends(a),
        b_after.extends(b),
        a_after.same_nics(a),
        b_after.same_nics(b),
        a_after.metrics() == a.metrics(),
        b_after.metrics() == b.metrics(),
        a.cancelled(a_after, id, a_done),
        b.cancelled(b_after, id, b_done),
    ensures
        a_done == b_done,
        alike(a_after, b_after),
{
    assert forall|pid: ProcessId| a_after.is_process(pid) implies nics_alike(
        #[trigger] a_after.nic(pid),
        #[trigger] b_after.nic(pid),
    ) by {
        assert(nics_alike(a.nic(pid), b.nic(pid)));
    }
}

/// Replay of a dispatch: from the same state the same event is
/// dispatched, and it leaves the same state.
pub proof fn law_replay_dispatch(
    a: Runtime,
    b: Runtime,
    a_after: Runtime,
    b_after: Runtime,
    a_event: EventView,
    b_event: EventView,
)
    requires
        alike(a, b),
        a.wf(),
        b.wf(),
        a.dispatches(a_after, a_event),
        b.dispatches(b_after, b_event),
    ensures
        a_event == b_event,
        alike(a_after, b_after),
{
    a.lemma_wf();
    b.lemma_wf();
    assert(a.pending().contains_key(b_event.id));
    assert(b.pending().contains_key(a_event.id));
    assert(key_le((a_event.time.0, a_event.id), (b_event.time.0, b_event.id)));
    assert(key_le((b_event.time.0, b_event.id), (a_event.time.0, a_event.id)));
    assert forall|pid: ProcessId| a_after.is_process(pid) implies nics_alike(
        #[trigger] a_after.nic(pid),
        #[trigger] b_after.nic(pid),
    ) by {
        assert(nics_alike(a.nic(pid), b.nic(pid)));
    }
}

/// Setting a timer and cancelling it before anything else happens leaves
/// the queue and the random source as they were.
pub proof fn law_cancel_undoes_schedule(
    before: Runtime,
    armed: Runtime,
    reset: Runtime,
    delay: Jiffies,
    id: TimerId,
    done: bool,
)
    requires
        before.wf(),
        before.scheduled(armed, delay, Some(id)),
        armed.spec_rank() == before.spec_rank(),
        armed.cancelled(reset, id, done),
    ensures
        done,
        reset.pending() == before.pending(),
        reset.rng_state() == before.rng_state(),
{
    before.lemma_wf();
    assert(!before.pending().contains_key(id));
    assert(armed.owns_timer(id));
    assert(reset.pending() =~= before.pending());
}

} // verus!
