//! Setting up a simulation: pools of processes, the latency table, the NIC
//! cap, the time budget and the seed.

use vstd::prelude::*;
use crate::bandwidth::BandwidthType;
use crate::jiffy::Jiffies;
use crate::latency::Distributions;
use crate::process::ProcessHandle;
use crate::random::Seed;
use crate::runtime::setup_fault;
use crate::runtime::BuildError;
use crate::runtime::Runtime;
use crate::simulation::Simulation;
use crate::topology::LatencyRule;
use crate::topology::PoolId;
use crate::topology::Topology;

verus! {

/// A named group of processes. Its NICs have the cap given here, or
/// failing that the cap of the whole simulation.
pub struct Pool {
    pub name: String,
    pub count: usize,
    pub bandwidth: Option<BandwidthType>,
}

/// The cap of the NICs of each pool, by pool id, where `default` is the
/// cap of the whole simulation.
pub open spec fn caps_of(default: BandwidthType, pools: Seq<Pool>) -> Seq<BandwidthType> {
    seq![default] + Seq::new(
        pools.len(),
        |i: int|
            match pools[i].bandwidth {
                Some(cap) => cap,
                None => default,
            },
    )
}

/// One line of the latency table, by pool names. The empty name stands for
/// the processes that belong to no named pool.
pub enum LatencyDescription {
    /// Between two processes of the named pool.
    WithinPool(String, Distributions),
    /// From a process of the first pool to one of the second.
    BetweenPools(String, String, Distributions),
    /// Between any two processes.
    Catchall(Distributions),
}

/// The id of the first pool from position `from` on that has the given
/// name. Named pools have the ids from 1 on, in the order in which they
/// were added.
pub open spec fn first_named(pools: Seq<Pool>, name: Seq<char>, from: int) -> Option<PoolId>
    decreases pools.len() - from,
{
    if from < 0 || from >= pools.len() {
        None
    } else if pools[from].name@ == name {
        Some((from + 1) as PoolId)
    } else {
        first_named(pools, name, from + 1)
    }
}

/// The id of the pool of the given name: 0 for the empty name, else the
/// first named pool of that name.
pub open spec fn pool_id(pools: Seq<Pool>, name: Seq<char>) -> Option<PoolId> {
    if name.len() == 0 {
        Some(0)
    } else {
        first_named(pools, name, 0)
    }
}

/// The rule with pool ids in place of names, if all its names are known.
pub open spec fn resolved(pools: Seq<Pool>, rule: LatencyDescription) -> Option<LatencyRule> {
    match rule {
        LatencyDescription::WithinPool(name, dist) => match pool_id(pools, name@) {
            Some(p) => Some(LatencyRule::WithinPool(p, dist)),
            None => None,
        },
        LatencyDescription::BetweenPools(src, dst, dist) => match (
            pool_id(pools, src@),
            pool_id(pools, dst@),
        ) {
            (Some(s), Some(d)) => Some(LatencyRule::BetweenPools(s, d, dist)),
            _ => None,
        },
        LatencyDescription::Catchall(dist) => Some(LatencyRule::Catchall(dist)),
    }
}

/// Every rule names only known pools.
pub open spec fn all_known(pools: Seq<Pool>, rules: Seq<LatencyDescription>) -> bool {
    forall|i: int| 0 <= i < rules.len() ==> (#[trigger] resolved(pools, rules[i])) is Some
}

/// The rules with pool ids in place of names.
pub open spec fn resolved_rules(pools: Seq<Pool>, rules: Seq<LatencyDescription>) -> Seq<
    LatencyRule,
> {
    Seq::new(rules.len(), |i: int| resolved(pools, rules[i]).unwrap())
}

/// Some named pool has no process.
pub open spec fn some_pool_empty(pools: Seq<Pool>) -> bool {
    exists|i: int| 0 <= i < pools.len() && (#[trigger] pools[i]).count == 0
}

/// The pool of each process, in order of process id: first the processes
/// of no named pool, then those of each named pool in turn.
pub open spec fn layout(unnamed: usize, pools: Seq<Pool>) -> Seq<PoolId>
    decreases pools.len(),
{
    if pools.len() == 0 {
        Seq::new(unnamed as nat, |i: int| 0usize)
    } else {
        layout(unnamed, pools.drop_last()) + Seq::new(
            pools.last().count as nat,
            |i: int| pools.len() as PoolId,
        )
    }
}

/// What a builder has been told.
pub struct Plan {
    pub seed: Seed,
    pub max_steps: Jiffies,
    pub max_network_latency: Jiffies,
    pub process_count: usize,
    pub has_factory: bool,
    pub bandwidth: BandwidthType,
    pub pools: Seq<Pool>,
    pub rules: Seq<LatencyDescription>,
    pub self_delay: Jiffies,
}

impl Plan {
    /// `rt` is the runtime that a simulation of this plan starts from.
    pub open spec fn starts(self, rt: Runtime) -> bool {
        &&& rt.wf()
        &&& rt.spec_now() == Jiffies(0)
        &&& rt.pending() == Map::<crate::events::EventId, crate::events::EventView>::empty()
        &&& rt.rng_state() == self.seed
        &&& rt.fresh_id() == 0
        &&& rt.dispatched() == Seq::<crate::queue::Key>::empty()
        &&& rt.metrics() == Map::<Seq<char>, crate::anykv::Value>::empty()
        &&& rt.setup() == (crate::runtime::Setup {
            population: layout(self.process_count, self.pools).len(),
            horizon: self.max_steps,
            loopback: self.self_delay,
            rules: resolved_rules(self.pools, self.rules),
            fallback: Some(self.fallback()),
            pools: layout(self.process_count, self.pools),
        })
        &&& forall|pid: crate::events::ProcessId|
            1 <= pid <= layout(self.process_count, self.pools).len() ==> {
                &&& (#[trigger] rt.nic(pid)).spec_bandwidth() == caps_of(
                    self.bandwidth,
                    self.pools,
                )[layout(self.process_count, self.pools)[pid - 1] as int]
                &&& rt.nic(pid).spec_last_departure() == 0
                &&& rt.nic(pid).sent().len() == 0
            }
    }

    /// The latency between two processes for which no rule speaks: uniform
    /// from 0 to the greatest network latency.
    pub open spec fn fallback(self) -> Distributions {
        Distributions::Uniform(Jiffies(0), self.max_network_latency)
    }

    /// Why no simulation can be built from the plan, if none can: the
    /// first of these that holds. No factory was given; the time budget is
    /// zero; a named pool is empty; a rule names an unknown pool; and then
    /// the faults of the set-up itself: there is no process at all, a NIC
    /// cap is zero, or some pair of pools has no latency distribution that
    /// can be sampled.
    pub open spec fn fault(self) -> Option<BuildError> {
        if !self.has_factory {
            Some(BuildError::MissingFactory)
        } else if self.max_steps.0 == 0 {
            Some(BuildError::NonPositiveBudget)
        } else if some_pool_empty(self.pools) {
            Some(BuildError::ZeroPool)
        } else if !all_known(self.pools, self.rules) {
            Some(BuildError::UnknownPool)
        } else {
            setup_fault(
                layout(self.process_count, self.pools),
                caps_of(self.bandwidth, self.pools),
                resolved_rules(self.pools, self.rules),
                Some(self.fallback()),
            )
        }
    }
}

/// The configuration of a simulation, told piece by piece.
pub struct SimulationBuilder<F> {
    seed: Seed,
    max_steps: Jiffies,
    max_network_latency: Jiffies,
    process_count: usize,
    factory: Option<F>,
    bandwidth: BandwidthType,
    pools: Vec<Pool>,
    rules: Vec<LatencyDescription>,
    self_delay: Jiffies,
}

fn find_pool(pools: &Vec<Pool>, name: &String) -> (r: Option<PoolId>)
    ensures
        r == pool_id(pools@, name@),
{
    let blank = String::new();
    if *name == blank {
        assert(name@ =~= blank@);
        return Some(0);
    }
    assert(name@.len() != 0) by {
        if name@.len() == 0 {
            assert(name@ =~= blank@);
        }
    }
    let mut i: usize = 0;
    while i < pools.len()
        invariant
            i <= pools.len(),
            name@.len() != 0,
            first_named(pools@, name@, i as int) == first_named(pools@, name@, 0),
        decreases pools.len() - i,
    {
        if pools[i].name == *name {
            return Some(i + 1);
        }
        i = i + 1;
    }
    None
}

fn resolve_rule(pools: &Vec<Pool>, rule: &LatencyDescription) -> (r: Option<LatencyRule>)
    ensures
        r == resolved(pools@, *rule),
{
    match rule {
        LatencyDescription::WithinPool(name, dist) => match find_pool(pools, name) {
            Some(p) => Some(LatencyRule::WithinPool(p, *dist)),
            None => None,
        },
        LatencyDescription::BetweenPools(src, dst, dist) => {
            let s = find_pool(pools, src);
            let d = find_pool(pools, dst);
            match (s, d) {
                (Some(s), Some(d)) => Some(LatencyRule::BetweenPools(s, d, *dist)),
                _ => None,
            }
        },
        LatencyDescription::Catchall(dist) => Some(LatencyRule::Catchall(*dist)),
    }
}

fn resolve_all(pools: &Vec<Pool>, rules: &Vec<LatencyDescription>) -> (r: Option<Vec<LatencyRule>>)
    ensures
        r is Some <==> all_known(pools@, rules@),
        r is Some ==> r.unwrap()@ == resolved_rules(pools@, rules@),
{
    let mut out: Vec<LatencyRule> = Vec::new();
    let mut i: usize = 0;
    while i < rules.len()
        invariant
            i <= rules.len(),
            out.len() == i,
            forall|k: int| 0 <= k < i ==> (#[trigger] resolved(pools@, rules@[k])) is Some,
            forall|k: int| 0 <= k < i ==> out@[k] == resolved(pools@, rules@[k]).unwrap(),
        decreases rules.len() - i,
    {
        match resolve_rule(pools, &rules[i]) {
            Some(rule) => {
                out.push(rule);
            },
            None => {
                return None;
            },
        }
        i = i + 1;
    }
    assert(out@ =~= resolved_rules(pools@, rules@));
    Some(out)
}

fn any_pool_empty(pools: &Vec<Pool>) -> (b: bool)
    ensures
        b == some_pool_empty(pools@),
{
    let mut i: usize = 0;
    while i < pools.len()
        invariant
            i <= pools.len(),
            forall|k: int| 0 <= k < i ==> (#[trigger] pools@[k]).count != 0,
        decreases pools.len() - i,
    {
        if pools[i].count == 0 {
            return true;
        }
        i = i + 1;
    }
    false
}

fn caps(default: BandwidthType, pools: &Vec<Pool>) -> (r: Vec<BandwidthType>)
    ensures
        r@ == caps_of(default, pools@),
{
    let mut out: Vec<BandwidthType> = Vec::new();
    out.push(default);
    let mut i: usize = 0;
    while i < pools.len()
        invariant
            i <= pools.len(),
            out.len() == i + 1,
            out@[0] == default,
            forall|k: int|
                0 <= k < i ==> out@[k + 1] == (match (#[trigger] pools@[k]).bandwidth {
                    Some(cap) => cap,
                    None => default,
                }),
        decreases pools.len() - i,
    {
        let cap = match pools[i].bandwidth {
            Some(cap) => cap,
            None => default,
        };
        out.push(cap);
        i = i + 1;
    }
    assert(out@ =~= caps_of(default, pools@));
    out
}

proof fn lemma_layout_ids(unnamed: usize, pools: Seq<Pool>)
    ensures
        forall|i: int|
            0 <= i < layout(unnamed, pools).len() ==> (#[trigger] layout(unnamed, pools)[i])
                <= pools.len(),
    decreases pools.len(),
{
    if pools.len() > 0 {
        lemma_layout_ids(unnamed, pools.drop_last());
        let head = layout(unnamed, pools.drop_last());
        assert forall|i: int| 0 <= i < layout(unnamed, pools).len() implies (#[trigger] layout(
            unnamed,
            pools,
        )[i]) <= pools.len() by {
            if i < head.len() {
                assert(layout(unnamed, pools)[i] == head[i]);
            }
        }
    }
}

fn lay_out(unnamed: usize, pools: &Vec<Pool>) -> (r: Vec<PoolId>)
    ensures
        r@ == layout(unnamed, pools@),
{
    let mut out: Vec<PoolId> = Vec::new();
    let mut k: usize = 0;
    while k < unnamed
        invariant
            k <= unnamed,
            out@ == Seq::new(k as nat, |i: int| 0usize),
        decreases unnamed - k,
    {
        out.push(0);
        k = k + 1;
        assert(out@ =~= Seq::new(k as nat, |i: int| 0usize));
    }
    assert(pools@.take(0) =~= Seq::<Pool>::empty());
    let mut p: usize = 0;
    while p < pools.len()
        invariant
            p <= pools.len(),
            out@ == layout(unnamed, pools@.take(p as int)),
        decreases pools.len() - p,
    {
        let count = pools[p].count;
        let id: PoolId = p + 1;
        let ghost base = out@;
        let mut c: usize = 0;
        while c < count
            invariant
                c <= count,
                out@ == base + Seq::new(c as nat, |i: int| id),
            decreases count - c,
        {
            out.push(id);
            c = c + 1;
            assert(out@ =~= base + Seq::new(c as nat, |i: int| id));
        }
        proof {
            let next = pools@.take(p + 1);
            assert(next.drop_last() =~= pools@.take(p as int));
            assert(next.last() == pools@[p as int]);
            assert(next.len() == id);
        }
        p = p + 1;
    }
    assert(pools@.take(pools.len() as int) =~= pools@);
    out
}

impl<F> SimulationBuilder<F> {
    /// What the builder has been told so far.
    pub closed spec fn plan(&self) -> Plan {
        Plan {
            seed: self.seed,
            max_steps: self.max_steps,
            max_network_latency: self.max_network_latency,
            process_count: self.process_count,
            has_factory: self.factory is Some,
            bandwidth: self.bandwidth,
            pools: self.pools@,
            rules: self.rules@,
            self_delay: self.self_delay,
        }
    }

    /// The factory, if one was given.
    pub closed spec fn maker(&self) -> Option<F> {
        self.factory
    }

    /// A builder with the defaults: seed 0, a budget of 1000 jiffies, a
    /// greatest network latency of 10 jiffies, no process, no factory, no
    /// NIC cap, no rule, and no loopback delay.
    pub fn new() -> (b: SimulationBuilder<F>)
        ensures
            b.plan() == (Plan {
                seed: 0,
                max_steps: Jiffies(1000),
                max_network_latency: Jiffies(10),
                process_count: 0,
                has_factory: false,
                bandwidth: BandwidthType::Unbounded,
                pools: Seq::empty(),
                rules: Seq::empty(),
                self_delay: Jiffies(0),
            }),
    {
        SimulationBuilder {
            seed: 0,
            max_steps: Jiffies(1000),
            max_network_latency: Jiffies(10),
            process_count: 0,
            factory: None,
            bandwidth: BandwidthType::Unbounded,
            pools: Vec::new(),
            rules: Vec::new(),
            self_delay: Jiffies(0),
        }
    }

    /// Sets the seed of the random source.
    pub fn with_seed(self, seed: Seed) -> (b: SimulationBuilder<F>)
        ensures
            b.plan() == (Plan { seed, ..self.plan() }),
            b.maker() == self.maker(),
    {
        let mut b = self;
        b.seed = seed;
        b
    }

    /// Sets the time budget: no event due after it is dispatched.
    pub fn with_max_steps(self, max_steps: Jiffies) -> (b: SimulationBuilder<F>)
        ensures
            b.plan() == (Plan { max_steps, ..self.plan() }),
            b.maker() == self.maker(),
    {
        let mut b = self;
        b.max_steps = max_steps;
        b
    }

    /// Sets the greatest latency between two processes for which no rule
    /// speaks.
    pub fn with_max_network_latency(self, max_network_latency: Jiffies) -> (b: SimulationBuilder<F>)
        ensures
            b.plan() == (Plan { max_network_latency, ..self.plan() }),
            b.maker() == self.maker(),
    {
        let mut b = self;
        b.max_network_latency = max_network_latency;
        b
    }

    /// Sets the number of processes that belong to no named pool. They get
    /// the first ids.
    pub fn with_process_count(self, count: usize) -> (b: SimulationBuilder<F>)
        ensures
            b.plan() == (Plan { process_count: count, ..self.plan() }),
            b.maker() == self.maker(),
    {
        let mut b = self;
        b.process_count = count;
        b
    }

    /// Sets the factory that makes the handler of each process.
    pub fn with_factory<G>(self, factory: G) -> (b: SimulationBuilder<G>)
        ensures
            b.plan() == (Plan { has_factory: true, ..self.plan() }),
            b.maker() == Some(factory),
    {
        SimulationBuilder {
            bandwidth: self.bandwidth,
            seed: self.seed,
            max_steps: self.max_steps,
            max_network_latency: self.max_network_latency,
            process_count: self.process_count,
            factory: Some(factory),
            pools: self.pools,
            rules: self.rules,
            self_delay: self.self_delay,
        }
    }

    /// Sets the cap of every NIC whose pool has no cap of its own.
    pub fn with_bandwidth(self, bandwidth: BandwidthType) -> (b: SimulationBuilder<F>)
        ensures
            b.plan() == (Plan { bandwidth, ..self.plan() }),
            b.maker() == self.maker(),
    {
        let mut b = self;
        b.bandwidth = bandwidth;
        b
    }

    /// Sets the delay of a message that a process sends to itself.
    pub fn with_self_delay(self, self_delay: Jiffies) -> (b: SimulationBuilder<F>)
        ensures
            b.plan() == (Plan { self_delay, ..self.plan() }),
            b.maker() == self.maker(),
    {
        let mut b = self;
        b.self_delay = self_delay;
        b
    }

    /// Adds a pool of `count` processes under `name`. Its processes get the
    /// ids after those of the pools added before.
    pub fn add_pool(self, name: String, count: usize) -> (b: SimulationBuilder<F>)
        ensures
            b.plan() == (Plan {
                pools: self.plan().pools.push(Pool { name, count, bandwidth: None }),
                ..self.plan()
            }),
            b.maker() == self.maker(),
    {
        let mut b = self;
        b.pools.push(Pool { name, count, bandwidth: None });
        b
    }

    /// Adds a pool as `add_pool` does, with a NIC cap of its own.
    pub fn add_pool_with_bandwidth(
        self,
        name: String,
        count: usize,
        bandwidth: BandwidthType,
    ) -> (b: SimulationBuilder<F>)
        ensures
            b.plan() == (Plan {
                pools: self.plan().pools.push(Pool { name, count, bandwidth: Some(bandwidth) }),
                ..self.plan()
            }),
            b.maker() == self.maker(),
    {
        let mut b = self;
        b.pools.push(Pool { name, count, bandwidth: Some(bandwidth) });
        b
    }

    /// Sets the latency table. Among the rules that speak of a pair, one
    /// between the two pools goes before one within a pool, that before a
    /// catch-all, and an earlier before a later.
    pub fn latency_topology(self, rules: Vec<LatencyDescription>) -> (b: SimulationBuilder<F>)
        ensures
            b.plan() == (Plan { rules: rules@, ..self.plan() }),
            b.maker() == self.maker(),
    {
        let mut b = self;
        b.rules = rules;
        b
    }

    /// Checks the plan and builds the simulation: the runtime at jiffy 0
    /// with nothing queued and the random source at the seed, and one
    /// handler from the factory for each process, made in order of process
    /// id. Fails with the first fault of the plan. The factory can be
    /// called.
    pub fn build<H: ProcessHandle>(self) -> (r: Result<Simulation<H>, BuildError>) where
        F: Fn() -> H,

        requires
            self.maker() is Some ==> self.maker().unwrap().requires(()),
        ensures
            match r {
                Ok(sim) => {
                    &&& self.plan().fault() is None
                    &&& sim.wf()
                    &&& self.plan().starts(sim.state())
                    &&& forall|i: int|
                        0 <= i < sim.handlers().len() ==> self.maker().unwrap().ensures(
                            (),
                            #[trigger] sim.handlers()[i],
                        )
                },
                Err(e) => self.plan().fault() == Some(e),
            },
    {
        if self.factory.is_none() {
            return Err(BuildError::MissingFactory);
        }
        let runtime = match self.build_runtime() {
            Ok(runtime) => runtime,
            Err(e) => {
                return Err(e);
            },
        };
        let n = runtime.process_number();
        let mut handlers: Vec<H> = Vec::new();
        let mut i: usize = 0;
        while i < n
            invariant
                i <= n,
                handlers.len() == i,
                self.factory is Some,
                self.factory.unwrap().requires(()),
                forall|k: int|
                    0 <= k < i ==> self.factory.unwrap().ensures((), #[trigger] handlers@[k]),
            decreases n - i,
        {
            match &self.factory {
                Some(make) => {
                    handlers.push(make());
                },
                None => {},
            }
            i = i + 1;
        }
        match Simulation::new(runtime, handlers) {
            Some(sim) => Ok(sim),
            None => {
                proof {
                    assert(false);
                }
                vstd::pervasive::unreached()
            },
        }
    }

    /// Checks the plan and sets up the runtime: at jiffy 0, nothing
    /// queued, the random source at the seed. Fails with the first fault
    /// of the plan but the missing factory, which `build` looks for first.
    pub fn build_runtime(&self) -> (r: Result<Runtime, BuildError>)
        requires
            self.plan().has_factory,
        ensures
            match r {
                Ok(rt) => self.plan().fault() is None && self.plan().starts(rt),
                Err(e) => self.plan().fault() == Some(e),
            },
    {
        if self.max_steps.0 == 0 {
            return Err(BuildError::NonPositiveBudget);
        }
        if any_pool_empty(&self.pools) {
            return Err(BuildError::ZeroPool);
        }
        let rules = match resolve_all(&self.pools, &self.rules) {
            Some(rules) => rules,
            None => {
                return Err(BuildError::UnknownPool);
            },
        };
        let pool_of = lay_out(self.process_count, &self.pools);
        proof {
            lemma_layout_ids(self.process_count, self.pools@);
        }
        let topology = Topology {
            rules,
            fallback: Some(Distributions::Uniform(Jiffies(0), self.max_network_latency)),
        };
        let caps = caps(self.bandwidth, &self.pools);
        Runtime::new(self.seed, self.max_steps, pool_of, caps, topology, self.self_delay)
    }
}

} // verus!
