use bytes::Bytes;
use dscale::anykv::AnyKv;
use dscale::{
    BandwidthType, BuildError, Distributions, Jiffies, LatencyDescription, LatencyRule,
    ProcessHandle, ProcessId, Runtime, Simulation, SimulationBuilder, TimerId, Topology,
};
use std::cell::RefCell;
use std::rc::Rc;

/// (time, receiver, sender, payload) of every delivered message.
type Deliveries = Rc<RefCell<Vec<(usize, usize, usize, Vec<u8>)>>>;

/// (time, process, timer) of every fired timer.
type Firings = Rc<RefCell<Vec<(usize, usize, usize)>>>;

fn catchall(dist: Distributions) -> Vec<LatencyDescription> {
    vec![LatencyDescription::Catchall(dist)]
}

fn plain_runtime(
    seed: u64,
    budget: usize,
    processes: usize,
    dist: Distributions,
    bandwidth: BandwidthType,
    self_delay: usize,
) -> Runtime {
    let topology = Topology { rules: vec![LatencyRule::Catchall(dist)], fallback: None };
    match Runtime::new(
        seed,
        Jiffies(budget),
        vec![0; processes],
        vec![bandwidth],
        topology,
        Jiffies(self_delay),
    ) {
        Ok(rt) => rt,
        Err(e) => panic!("set-up failed: {:?}", e),
    }
}

struct PingPong {
    seen: Deliveries,
}

impl ProcessHandle for PingPong {
    fn start(&mut self, rt: &mut Runtime) {
        if rt.rank() == 1 {
            rt.send_to(2, Bytes::from_static(b"ping"));
        }
    }

    fn on_message(&mut self, rt: &mut Runtime, from: ProcessId, payload: Bytes) {
        self.seen.borrow_mut().push((rt.now().0, rt.rank(), from, payload.to_vec()));
        if payload.as_ref() == b"ping" {
            rt.send_to(from, Bytes::from_static(b"pong"));
        }
    }

    fn on_timer(&mut self, _rt: &mut Runtime, _id: TimerId) {}
}

#[test]
fn deterministic_clock_ping_pong() {
    let seen: Deliveries = Rc::new(RefCell::new(Vec::new()));
    let handle = seen.clone();
    let built = SimulationBuilder::<fn() -> PingPong>::new()
        .with_seed(42)
        .with_process_count(2)
        .with_bandwidth(BandwidthType::Unbounded)
        .latency_topology(catchall(Distributions::Constant(Jiffies(10))))
        .with_factory(move || PingPong { seen: handle.clone() })
        .build();
    let mut sim = match built {
        Ok(sim) => sim,
        Err(e) => panic!("build failed: {:?}", e),
    };
    sim.start();
    assert_eq!(sim.runtime().now(), Jiffies(0));
    assert_eq!(sim.runtime().queued(), 1);
    sim.run();
    assert_eq!(
        *seen.borrow(),
        vec![(10, 2, 1, b"ping".to_vec()), (20, 1, 2, b"pong".to_vec())]
    );
    assert_eq!(sim.runtime().now(), Jiffies(20));
    assert_eq!(sim.runtime().queued(), 0);
}

struct Shouter {
    seen: Deliveries,
    payload: &'static [u8],
    times: usize,
    only: Option<ProcessId>,
}

impl ProcessHandle for Shouter {
    fn start(&mut self, rt: &mut Runtime) {
        if self.only.is_none() || self.only == Some(rt.rank()) {
            for _ in 0..self.times {
                rt.broadcast(Bytes::from_static(self.payload));
            }
        }
    }

    fn on_message(&mut self, rt: &mut Runtime, from: ProcessId, payload: Bytes) {
        self.seen.borrow_mut().push((rt.now().0, rt.rank(), from, payload.to_vec()));
    }

    fn on_timer(&mut self, _rt: &mut Runtime, _id: TimerId) {}
}

fn shouters(n: usize, seen: &Deliveries, payload: &'static [u8], times: usize, only: Option<ProcessId>) -> Vec<Shouter> {
    (0..n).map(|_| Shouter { seen: seen.clone(), payload, times, only }).collect()
}

#[test]
fn tie_break_by_source_id() {
    let seen: Deliveries = Rc::new(RefCell::new(Vec::new()));
    let rt = plain_runtime(1, 100, 3, Distributions::Constant(Jiffies(5)), BandwidthType::Unbounded, 0);
    let mut sim = Simulation::new(rt, shouters(3, &seen, b"x", 1, None)).unwrap_or_else(|| panic!("handlers"));
    sim.start();
    sim.run();
    let log = seen.borrow();
    for dest in 1..=3usize {
        let at_five: Vec<usize> = log
            .iter()
            .filter(|d| d.0 == 5 && d.1 == dest)
            .map(|d| d.2)
            .collect();
        let expected: Vec<usize> = (1..=3usize).filter(|s| *s != dest).collect();
        assert_eq!(at_five, expected);
        let own: Vec<usize> = log.iter().filter(|d| d.1 == dest && d.2 == dest).map(|d| d.0).collect();
        assert_eq!(own, vec![0]);
    }
    assert_eq!(log.len(), 9);
}

#[test]
fn bandwidth_serialization() {
    let seen: Deliveries = Rc::new(RefCell::new(Vec::new()));
    let rt = plain_runtime(1, 1000, 3, Distributions::Constant(Jiffies(0)), BandwidthType::Bounded(1), 0);
    let mut sim = Simulation::new(rt, shouters(3, &seen, b"0123456789", 3, Some(1)))
        .unwrap_or_else(|| panic!("handlers"));
    sim.start();
    assert_eq!(sim.runtime().busy_until(1), Jiffies(30));
    assert_eq!(sim.runtime().busy_until(2), Jiffies(0));
    sim.run();
    let log = seen.borrow();
    for dest in 2..=3usize {
        let times: Vec<usize> = log.iter().filter(|d| d.1 == dest).map(|d| d.0).collect();
        assert_eq!(times, vec![10, 20, 30]);
    }
    let own: Vec<usize> = log.iter().filter(|d| d.1 == 1).map(|d| d.0).collect();
    assert_eq!(own, vec![0, 0, 0]);
}

struct Canceller {
    fired: Firings,
    timer: Option<TimerId>,
    cancel: bool,
    cancelled: Rc<RefCell<Vec<bool>>>,
}

impl ProcessHandle for Canceller {
    fn start(&mut self, rt: &mut Runtime) {
        self.timer = rt.schedule_timer_after(Jiffies(100));
        if self.cancel {
            rt.send_to(rt.rank(), Bytes::from_static(b"cancel"));
        }
    }

    fn on_message(&mut self, rt: &mut Runtime, _from: ProcessId, _payload: Bytes) {
        assert_eq!(rt.now(), Jiffies(50));
        if let Some(id) = self.timer {
            let done = rt.reset_timer(id);
            let again = rt.reset_timer(id);
            self.cancelled.borrow_mut().push(done);
            self.cancelled.borrow_mut().push(again);
        }
    }

    fn on_timer(&mut self, rt: &mut Runtime, id: TimerId) {
        self.fired.borrow_mut().push((rt.now().0, rt.rank(), id));
    }
}

#[test]
fn timer_cancel() {
    let fired: Firings = Rc::new(RefCell::new(Vec::new()));
    let cancelled = Rc::new(RefCell::new(Vec::new()));
    let rt = plain_runtime(1, 200, 1, Distributions::Constant(Jiffies(1)), BandwidthType::Unbounded, 50);
    let handler = Canceller { fired: fired.clone(), timer: None, cancel: true, cancelled: cancelled.clone() };
    let mut sim = Simulation::new(rt, vec![handler]).unwrap_or_else(|| panic!("handlers"));
    sim.start();
    assert_eq!(sim.runtime().queued(), 2);
    sim.run();
    assert!(fired.borrow().is_empty());
    assert_eq!(*cancelled.borrow(), vec![true, false]);
    assert_eq!(sim.runtime().queued(), 0);
    assert_eq!(sim.runtime().now(), Jiffies(50));
}

#[test]
fn timer_fires_when_not_cancelled() {
    let fired: Firings = Rc::new(RefCell::new(Vec::new()));
    let cancelled = Rc::new(RefCell::new(Vec::new()));
    let rt = plain_runtime(1, 200, 1, Distributions::Constant(Jiffies(1)), BandwidthType::Unbounded, 50);
    let handler = Canceller { fired: fired.clone(), timer: None, cancel: false, cancelled };
    let mut sim = Simulation::new(rt, vec![handler]).unwrap_or_else(|| panic!("handlers"));
    sim.start();
    sim.run();
    assert_eq!(*fired.borrow(), vec![(100, 1, 0)]);
}

struct LateTimer {
    fired: Firings,
    after: usize,
}

impl ProcessHandle for LateTimer {
    fn start(&mut self, rt: &mut Runtime) {
        rt.schedule_timer_after(Jiffies(self.after));
    }

    fn on_message(&mut self, _rt: &mut Runtime, _from: ProcessId, _payload: Bytes) {}

    fn on_timer(&mut self, rt: &mut Runtime, id: TimerId) {
        self.fired.borrow_mut().push((rt.now().0, rt.rank(), id));
    }
}

#[test]
fn budget_cut() {
    let fired: Firings = Rc::new(RefCell::new(Vec::new()));
    let rt = plain_runtime(1, 1000, 1, Distributions::Constant(Jiffies(1)), BandwidthType::Unbounded, 0);
    let mut sim = Simulation::new(rt, vec![LateTimer { fired: fired.clone(), after: 1001 }])
        .unwrap_or_else(|| panic!("handlers"));
    sim.start();
    sim.run();
    assert!(fired.borrow().is_empty());
    assert_eq!(sim.runtime().queued(), 1);
    assert_eq!(sim.runtime().now(), Jiffies(0));
    assert!(!sim.step());
}

#[test]
fn event_due_at_the_budget_is_dispatched() {
    let fired: Firings = Rc::new(RefCell::new(Vec::new()));
    let rt = plain_runtime(1, 1000, 1, Distributions::Constant(Jiffies(1)), BandwidthType::Unbounded, 0);
    let mut sim = Simulation::new(rt, vec![LateTimer { fired: fired.clone(), after: 1000 }])
        .unwrap_or_else(|| panic!("handlers"));
    sim.start();
    sim.run();
    assert_eq!(*fired.borrow(), vec![(1000, 1, 0)]);
    assert_eq!(sim.runtime().now(), Jiffies(1000));
}

#[test]
fn budget_of_zero_runs_only_the_bootstrap() {
    let seen: Deliveries = Rc::new(RefCell::new(Vec::new()));
    let rt = plain_runtime(42, 0, 2, Distributions::Constant(Jiffies(10)), BandwidthType::Unbounded, 1);
    let mut sim = Simulation::new(rt, vec![PingPong { seen: seen.clone() }, PingPong { seen: seen.clone() }])
        .unwrap_or_else(|| panic!("handlers"));
    sim.start();
    sim.run();
    assert!(seen.borrow().is_empty());
    assert_eq!(sim.runtime().queued(), 1);
    assert_eq!(sim.runtime().now(), Jiffies(0));
}

struct SelfSender {
    seen: Deliveries,
}

impl ProcessHandle for SelfSender {
    fn start(&mut self, rt: &mut Runtime) {
        rt.schedule_timer_after(Jiffies(4));
    }

    fn on_message(&mut self, rt: &mut Runtime, from: ProcessId, payload: Bytes) {
        self.seen.borrow_mut().push((rt.now().0, rt.rank(), from, payload.to_vec()));
    }

    fn on_timer(&mut self, rt: &mut Runtime, _id: TimerId) {
        rt.submit(dscale::Destination::SendSelf, Bytes::from_static(b"me"));
    }
}

#[test]
fn self_send_arrives_after_the_self_delay() {
    let seen: Deliveries = Rc::new(RefCell::new(Vec::new()));
    let rt = plain_runtime(9, 100, 1, Distributions::Constant(Jiffies(30)), BandwidthType::Bounded(1), 7);
    let mut sim = Simulation::new(rt, vec![SelfSender { seen: seen.clone() }])
        .unwrap_or_else(|| panic!("handlers"));
    sim.start();
    sim.run();
    assert_eq!(*seen.borrow(), vec![(11, 1, 1, b"me".to_vec())]);
    assert_eq!(sim.runtime().busy_until(1), Jiffies(0));
}

fn splitmix(state: &mut u64) -> u64 {
    *state = state.wrapping_add(0x9e37_79b9_7f4a_7c15);
    let mut z = *state;
    z = (z ^ (z >> 30)).wrapping_mul(0xbf58_476d_1ce4_e5b9);
    z = (z ^ (z >> 27)).wrapping_mul(0x94d0_49bb_1331_11eb);
    z ^ (z >> 31)
}

#[test]
fn broadcast_to_a_thousand_costs_one_transmission() {
    let seen: Deliveries = Rc::new(RefCell::new(Vec::new()));
    let n = 1000usize;
    let mut rt = plain_runtime(
        77,
        1000,
        n,
        Distributions::Uniform(Jiffies(3), Jiffies(12)),
        BandwidthType::Bounded(2),
        0,
    );
    let queued = rt.broadcast(Bytes::from_static(b"tiny"));
    assert_eq!(queued, n);
    assert_eq!(rt.busy_until(1), Jiffies(2));
    // One draw for each recipient but the sender itself.
    let mut state = 77u64;
    let mut expected: Vec<(usize, usize)> = vec![(0, 1)];
    for dest in 2..=n {
        let latency = 3 + (splitmix(&mut state) % 10) as usize;
        expected.push((2 + latency, dest));
    }
    assert_eq!(rt.random(), splitmix(&mut state));
    expected.sort_by_key(|(time, dest)| (*time, *dest));
    let mut sim = Simulation::new(rt, shouters(n, &seen, b"", 0, None)).unwrap_or_else(|| panic!("handlers"));
    sim.run();
    let got: Vec<(usize, usize)> = seen.borrow().iter().map(|d| (d.0, d.1)).collect();
    assert_eq!(got, expected);
    assert!(seen.borrow().iter().all(|d| d.2 == 1 && d.3 == b"tiny".to_vec()));
}

struct Gossip;

impl ProcessHandle for Gossip {
    fn start(&mut self, rt: &mut Runtime) {
        if rt.rank() == 1 {
            rt.put("received", 0u64);
            rt.put("arrival_sum", 0u64);
            rt.put("last", Jiffies(0));
        }
        rt.broadcast(Bytes::from_static(b"hello"));
    }

    fn on_message(&mut self, rt: &mut Runtime, from: ProcessId, _payload: Bytes) {
        let received: u64 = dscale::anykv::get(rt.store(), "received");
        let sum: u64 = dscale::anykv::get(rt.store(), "arrival_sum");
        rt.put("received", received + 1);
        rt.put("arrival_sum", sum + (rt.now().0 as u64) * (rt.rank() as u64));
        rt.put("last", rt.now());
        if rt.random() % 16 == 0 {
            rt.send_to(from, Bytes::from_static(b"again"));
        }
    }

    fn on_timer(&mut self, _rt: &mut Runtime, _id: TimerId) {}
}

fn gossip_run(seed: u64) -> (u64, u64, Jiffies, usize) {
    let built = SimulationBuilder::<fn() -> Gossip>::new()
        .with_seed(seed)
        .with_max_steps(Jiffies(60000))
        .add_pool("validators".to_string(), 100)
        .latency_topology(vec![LatencyDescription::WithinPool(
            "validators".to_string(),
            Distributions::Normal(Jiffies(50), Jiffies(10)),
        )])
        .with_bandwidth(BandwidthType::Bounded(4))
        .with_factory(|| Gossip)
        .build();
    let mut sim = match built {
        Ok(sim) => sim,
        Err(e) => panic!("build failed: {:?}", e),
    };
    sim.start();
    sim.run();
    let queued = sim.runtime().queued();
    let kv: AnyKv = sim.stop();
    assert_eq!(kv.len(), 3);
    (
        dscale::anykv::get(&kv, "received"),
        dscale::anykv::get(&kv, "arrival_sum"),
        dscale::anykv::get(&kv, "last"),
        queued,
    )
}

#[test]
fn seed_replay() {
    let first = gossip_run(12345);
    let second = gossip_run(12345);
    assert_eq!(first, second);
    assert!(first.0 >= 10000);
    let other = gossip_run(54321);
    assert_ne!(first.1, other.1);
}

#[test]
fn schedule_then_cancel_leaves_no_trace() {
    let mut with = plain_runtime(5, 100, 2, Distributions::Uniform(Jiffies(1), Jiffies(9)), BandwidthType::Unbounded, 0);
    let mut without = plain_runtime(5, 100, 2, Distributions::Uniform(Jiffies(1), Jiffies(9)), BandwidthType::Unbounded, 0);
    let id = dscale::schedule_timeout(&mut with, Jiffies(10));
    assert_eq!(id, Some(0));
    assert_eq!(with.queued(), 1);
    dscale::reset_timeout(&mut with, 0);
    assert_eq!(with.queued(), 0);
    with.send_to(2, Bytes::from_static(b"a"));
    without.send_to(2, Bytes::from_static(b"a"));
    let a = with.next_event().map(|e| (e.time, e.dest));
    let b = without.next_event().map(|e| (e.time, e.dest));
    assert_eq!(a, b);
    assert!(a.is_some());
    assert_eq!(with.random(), without.random());
    assert!(with.next_event().is_none());
}

#[test]
fn build_reports_each_fault() {
    fn fault(b: SimulationBuilder<fn() -> Gossip>) -> Option<BuildError> {
        b.build().err()
    }
    fn make() -> Gossip {
        Gossip
    }
    let base = || SimulationBuilder::<fn() -> Gossip>::new().with_process_count(2);
    assert_eq!(fault(base()), Some(BuildError::MissingFactory));
    assert_eq!(
        fault(base().with_factory(make as fn() -> Gossip).with_max_steps(Jiffies(0))),
        Some(BuildError::NonPositiveBudget)
    );
    assert_eq!(
        fault(base().with_factory(make as fn() -> Gossip).add_pool("empty".to_string(), 0)),
        Some(BuildError::ZeroPool)
    );
    assert_eq!(
        fault(base().with_factory(make as fn() -> Gossip).with_process_count(0)),
        Some(BuildError::ZeroPool)
    );
    assert_eq!(
        fault(base().with_factory(make as fn() -> Gossip).latency_topology(vec![
            LatencyDescription::WithinPool("nowhere".to_string(), Distributions::Constant(Jiffies(1))),
        ])),
        Some(BuildError::UnknownPool)
    );
    assert_eq!(
        fault(base().with_factory(make as fn() -> Gossip).with_bandwidth(BandwidthType::Bounded(0))),
        Some(BuildError::ZeroBandwidth)
    );
    assert_eq!(
        fault(base().with_factory(make as fn() -> Gossip).latency_topology(vec![
            LatencyDescription::Catchall(Distributions::Uniform(Jiffies(9), Jiffies(1))),
        ])),
        Some(BuildError::MissingTopology)
    );
    assert!(base().with_factory(make as fn() -> Gossip).build().is_ok());
}

#[test]
fn runtime_set_up_faults() {
    let topo = || Topology { rules: vec![], fallback: None };
    let some = || Topology { rules: vec![LatencyRule::WithinPool(0, Distributions::Constant(Jiffies(1)))], fallback: None };
    let run = |pool_of: Vec<usize>, caps: Vec<BandwidthType>, t: Topology| {
        Runtime::new(0, Jiffies(10), pool_of, caps, t, Jiffies(0)).err()
    };
    let free = BandwidthType::Unbounded;
    assert_eq!(run(vec![], vec![free], some()), Some(BuildError::ZeroPool));
    assert_eq!(run(vec![0, 1], vec![free], some()), Some(BuildError::UnknownPool));
    assert_eq!(run(vec![0], vec![], some()), Some(BuildError::UnknownPool));
    assert_eq!(run(vec![0], vec![BandwidthType::Bounded(0)], some()), Some(BuildError::ZeroBandwidth));
    assert_eq!(
        run(vec![0], vec![free, BandwidthType::Bounded(0)], some()),
        Some(BuildError::ZeroBandwidth)
    );
    assert_eq!(run(vec![0], vec![free], topo()), Some(BuildError::MissingTopology));
    assert_eq!(run(vec![0, 1], vec![free, free], some()), Some(BuildError::MissingTopology));
    assert_eq!(run(vec![0, 0], vec![free], some()), None);
}

#[test]
fn a_pool_can_have_a_cap_of_its_own() {
    let built = SimulationBuilder::<fn() -> Gossip>::new()
        .with_bandwidth(BandwidthType::Bounded(2))
        .with_process_count(1)
        .add_pool("slow".to_string(), 1)
        .add_pool_with_bandwidth("fast".to_string(), 1, BandwidthType::Bounded(5))
        .add_pool_with_bandwidth("free".to_string(), 1, BandwidthType::Unbounded)
        .latency_topology(catchall(Distributions::Constant(Jiffies(1))))
        .with_factory(|| Gossip)
        .build();
    let mut sim = match built {
        Ok(sim) => sim,
        Err(e) => panic!("build failed: {:?}", e),
    };
    // Every process broadcasts five bytes when it starts.
    sim.start();
    assert_eq!(sim.runtime().busy_until(1), Jiffies(3));
    assert_eq!(sim.runtime().busy_until(2), Jiffies(3));
    assert_eq!(sim.runtime().busy_until(3), Jiffies(1));
    assert_eq!(sim.runtime().busy_until(4), Jiffies(0));
    let zero = SimulationBuilder::<fn() -> Gossip>::new()
        .with_process_count(1)
        .add_pool_with_bandwidth("stuck".to_string(), 1, BandwidthType::Bounded(0))
        .with_factory(|| Gossip)
        .build();
    assert_eq!(zero.err(), Some(BuildError::ZeroBandwidth));
}

#[test]
fn update_changes_a_metric_in_place() {
    let mut rt = plain_runtime(5, 100, 1, Distributions::Constant(Jiffies(1)), BandwidthType::Unbounded, 0);
    rt.put("rounds", 4usize);
    rt.update("rounds", |r: usize| r + 3);
    assert_eq!(dscale::anykv::get::<usize>(rt.store(), "rounds"), 7);
    assert_eq!(rt.queued(), 0);
    assert_eq!(rt.random(), splitmix(&mut 5u64));
}

#[test]
fn pools_pick_their_latency() {
    let seen: Deliveries = Rc::new(RefCell::new(Vec::new()));
    let handle = seen.clone();
    let built = SimulationBuilder::<fn() -> Shouter>::new()
        .with_process_count(1)
        .add_pool("a".to_string(), 1)
        .add_pool("b".to_string(), 2)
        .latency_topology(vec![
            LatencyDescription::Catchall(Distributions::Constant(Jiffies(40))),
            LatencyDescription::WithinPool("b".to_string(), Distributions::Constant(Jiffies(3))),
            LatencyDescription::BetweenPools("b".to_string(), "a".to_string(), Distributions::Constant(Jiffies(7))),
            LatencyDescription::BetweenPools("b".to_string(), "a".to_string(), Distributions::Constant(Jiffies(8))),
            LatencyDescription::BetweenPools("a".to_string(), "b".to_string(), Distributions::Constant(Jiffies(9))),
        ])
        .with_factory(move || Shouter { seen: handle.clone(), payload: b"p", times: 1, only: Some(3) })
        .build();
    let mut sim = match built {
        Ok(sim) => sim,
        Err(e) => panic!("build failed: {:?}", e),
    };
    assert_eq!(sim.runtime().process_number(), 4);
    sim.start();
    sim.run();
    // Process 3 is the first of pool "b"; 1 is unnamed, 2 is in "a", 4 in "b".
    assert_eq!(
        *seen.borrow(),
        vec![
            (0, 3, 3, b"p".to_vec()),
            (3, 4, 3, b"p".to_vec()),
            (7, 2, 3, b"p".to_vec()),
            (40, 1, 3, b"p".to_vec()),
        ]
    );
}

#[test]
fn send_to_a_stranger_changes_nothing() {
    let mut rt = plain_runtime(5, 100, 2, Distributions::Constant(Jiffies(1)), BandwidthType::Bounded(1), 0);
    assert_eq!(rt.send_to(0, Bytes::from_static(b"abc")), None);
    assert_eq!(rt.send_to(3, Bytes::from_static(b"abc")), None);
    assert_eq!(rt.queued(), 0);
    assert_eq!(rt.busy_until(1), Jiffies(0));
    assert_eq!(rt.send_to(2, Bytes::from_static(b"abc")), Some(0));
    assert_eq!(rt.busy_until(1), Jiffies(3));
    assert_eq!(rt.send_to(2, Bytes::from_static(b"abcd")), Some(1));
    assert_eq!(rt.busy_until(1), Jiffies(7));
    let first = rt.next_event().unwrap_or_else(|| panic!("queued"));
    assert_eq!((first.id, first.time, first.dest), (0, Jiffies(4), 2));
    assert_eq!(first.size(), Some(2 * std::mem::size_of::<usize>() + 3));
    assert_eq!(rt.now(), Jiffies(4));
    assert_eq!(rt.rank(), 2);
    let second = rt.next_event().unwrap_or_else(|| panic!("queued"));
    assert_eq!((second.id, second.time, second.dest), (1, Jiffies(8), 2));
    assert_eq!(rt.time_budget(), Jiffies(100));
}

#[test]
fn unruled_pairs_fall_back_to_the_greatest_latency() {
    let seen: Deliveries = Rc::new(RefCell::new(Vec::new()));
    let handle = seen.clone();
    let built = SimulationBuilder::<fn() -> PingPong>::new()
        .with_seed(42)
        .with_process_count(2)
        .with_max_network_latency(Jiffies(5))
        .with_self_delay(Jiffies(2))
        .with_factory(move || PingPong { seen: handle.clone() })
        .build();
    let mut sim = match built {
        Ok(sim) => sim,
        Err(e) => panic!("build failed: {:?}", e),
    };
    sim.start();
    sim.run();
    let mut state = 42u64;
    let ping = (splitmix(&mut state) % 6) as usize;
    let pong = ping + (splitmix(&mut state) % 6) as usize;
    assert_eq!(
        *seen.borrow(),
        vec![(ping, 2, 1, b"ping".to_vec()), (pong, 1, 2, b"pong".to_vec())]
    );
    assert_eq!((ping, pong), (1, 2));
}

#[test]
fn builder_sets_the_self_delay() {
    let seen: Deliveries = Rc::new(RefCell::new(Vec::new()));
    let handle = seen.clone();
    let built = SimulationBuilder::<fn() -> SelfSender>::new()
        .with_process_count(1)
        .with_self_delay(Jiffies(9))
        .with_factory(move || SelfSender { seen: handle.clone() })
        .build();
    let mut sim = match built {
        Ok(sim) => sim,
        Err(e) => panic!("build failed: {:?}", e),
    };
    sim.start();
    sim.run();
    assert_eq!(*seen.borrow(), vec![(13, 1, 1, b"me".to_vec())]);
    assert_eq!(sim.runtime().time_budget(), Jiffies(1000));
}

#[test]
fn a_simulation_needs_one_handler_for_each_process() {
    let seen: Deliveries = Rc::new(RefCell::new(Vec::new()));
    let make = || plain_runtime(1, 10, 2, Distributions::Constant(Jiffies(1)), BandwidthType::Unbounded, 0);
    assert!(Simulation::new(make(), shouters(1, &seen, b"x", 1, None)).is_none());
    assert!(Simulation::new(make(), shouters(3, &seen, b"x", 1, None)).is_none());
    assert!(Simulation::new(make(), shouters(2, &seen, b"x", 1, None)).is_some());
}

#[test]
fn steps_dispatch_one_event_at_a_time() {
    let seen: Deliveries = Rc::new(RefCell::new(Vec::new()));
    let rt = plain_runtime(1, 100, 2, Distributions::Constant(Jiffies(4)), BandwidthType::Unbounded, 1);
    let mut sim = Simulation::new(rt, shouters(2, &seen, b"x", 1, Some(2))).unwrap_or_else(|| panic!("handlers"));
    assert!(!sim.step());
    sim.start();
    assert_eq!(sim.runtime().rank(), 2);
    assert_eq!(sim.runtime().queued(), 2);
    assert!(sim.step());
    assert_eq!(sim.runtime().now(), Jiffies(1));
    assert_eq!(sim.runtime().rank(), 2);
    assert_eq!(*seen.borrow(), vec![(1, 2, 2, b"x".to_vec())]);
    assert!(sim.step());
    assert_eq!(sim.runtime().now(), Jiffies(4));
    assert_eq!(sim.runtime().rank(), 1);
    assert!(!sim.step());
    assert_eq!(seen.borrow().len(), 2);
}
