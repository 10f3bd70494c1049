use bytes::Bytes;
use dscale::anykv::{AnyKv, Tally};
use dscale::bandwidth::NetworkBoundedQueue;
use dscale::clock::{can_fast_forward, drop_clock, fast_forward_clock, Clock};
use dscale::events::{Event, EventType, Message};
use dscale::latency::Distributions;
use dscale::queue::EventQueue;
use dscale::quorum::{
    adversary_threshold, first_predefined_leader, leader_id, quorum_size,
    second_predefined_leader, view_leader,
};
use dscale::random::Randomizer;
use dscale::topology::{LatencyRule, Topology};
use dscale::{now, BandwidthType, Combiner, Jiffies, ProcessStep, RoutedMessage};

fn timer(id: usize, time: usize, dest: usize) -> Event {
    Event { id, time: Jiffies(time), dest, event_type: EventType::Timeout }
}

#[test]
fn jiffies_arithmetic() {
    assert_eq!(Jiffies(100) + Jiffies(5000), Jiffies(5100));
    assert_eq!(Jiffies(5000) - Jiffies(100), Jiffies(4900));
    assert_eq!(3usize * Jiffies(7), 21);
    assert_eq!(Jiffies(3).checked_sub(Jiffies(4)), None);
    assert_eq!(Jiffies(4).checked_sub(Jiffies(4)), Some(Jiffies(0)));
    assert_eq!(Jiffies(usize::MAX).checked_add(Jiffies(1)), None);
    assert_eq!(Jiffies(usize::MAX - 1).checked_add(Jiffies(1)), Some(Jiffies(usize::MAX)));
    let mut t = Jiffies(1);
    t.add_assign(Jiffies(2));
    t.advance(4);
    assert_eq!(t, Jiffies(7));
    assert!(Jiffies(1).before(Jiffies(2)));
    assert!(!Jiffies(2).before(Jiffies(2)));
    assert!(Jiffies(1) < Jiffies(2));
    assert_eq!(Jiffies::default(), Jiffies(0));
}

#[test]
fn jiffies_as_text() {
    assert_eq!(Jiffies(12345).to_text(), "Jiffies(12345)");
    assert_eq!(Jiffies(0).to_text(), "Jiffies(0)");
    assert_eq!(Jiffies(10).to_text(), "Jiffies(10)");
    assert_eq!(Jiffies(usize::MAX).to_text(), format!("Jiffies({})", usize::MAX));
}

#[test]
fn clock_moves_forward_only() {
    let mut clock = Clock::new();
    assert_eq!(now(&clock), Jiffies(0));
    assert_eq!(fast_forward_clock(&mut clock, Jiffies(12)), Jiffies(0));
    assert_eq!(now(&clock), Jiffies(12));
    assert!(!can_fast_forward(&clock, Jiffies(11)));
    assert!(can_fast_forward(&clock, Jiffies(12)));
    drop_clock(&mut clock);
    assert_eq!(now(&clock), Jiffies(0));
}

#[test]
fn queue_pops_by_time_then_id() {
    let mut q = EventQueue::new();
    assert_eq!(q.peek(), None);
    assert!(q.pop_min().is_none());
    q.push(timer(4, 20, 1));
    q.push(timer(2, 10, 1));
    q.push(timer(1, 10, 2));
    q.push(timer(3, 5, 3));
    q.push(timer(0, 20, 1));
    assert_eq!(q.len(), 5);
    assert_eq!(q.peek(), Some((Jiffies(5), 3)));
    assert_eq!(q.get(2).map(|e| e.time), Some(Jiffies(10)));
    assert!(q.get(9).is_none());
    let mut order = Vec::new();
    while let Some(e) = q.pop_min() {
        order.push((e.time.0, e.id));
    }
    assert_eq!(order, vec![(5, 3), (10, 1), (10, 2), (20, 0), (20, 4)]);
    assert_eq!(q.len(), 0);
}

#[test]
fn queue_cancel_and_replace() {
    let mut q = EventQueue::new();
    q.push(timer(1, 10, 1));
    q.push(timer(2, 11, 1));
    assert!(q.cancel(1));
    assert!(!q.cancel(1));
    assert!(!q.cancel(7));
    assert_eq!(q.len(), 1);
    q.push(timer(2, 3, 4));
    assert_eq!(q.len(), 1);
    let e = q.pop_min().unwrap_or_else(|| panic!("queued"));
    assert_eq!((e.id, e.time, e.dest), (2, Jiffies(3), 4));
    assert!(q.pop_min().is_none());
}

#[test]
fn queue_keeps_payloads() {
    let mut q = EventQueue::new();
    let payload = Bytes::from(vec![1u8, 2, 3]);
    q.push(Event {
        id: 0,
        time: Jiffies(1),
        dest: 2,
        event_type: EventType::Message(Message { source: 1, payload: payload.clone() }),
    });
    let e = q.pop_min().unwrap_or_else(|| panic!("queued"));
    assert_eq!(e.size(), Some(2 * std::mem::size_of::<usize>() + 3));
    match e.event_type {
        EventType::Message(m) => {
            assert_eq!(m.source, 1);
            assert_eq!(m.virtual_size(), 3);
            assert_eq!(m.payload, payload);
        }
        EventType::Timeout => panic!("a message was queued"),
    }
    assert_eq!(timer(0, 0, 1).size(), Some(std::mem::size_of::<usize>()));
}

#[test]
fn nic_serializes_and_rounds_up() {
    assert!(NetworkBoundedQueue::new(BandwidthType::Bounded(0)).is_none());
    let mut nic = NetworkBoundedQueue::new(BandwidthType::Bounded(3)).unwrap_or_else(|| panic!("nic"));
    assert_eq!(nic.bandwidth(), BandwidthType::Bounded(3));
    assert_eq!(nic.transmit(Jiffies(0), 10), Some(Jiffies(4)));
    assert_eq!(nic.transmit(Jiffies(1), 3), Some(Jiffies(5)));
    assert_eq!(nic.transmit(Jiffies(1), 0), Some(Jiffies(5)));
    assert_eq!(nic.transmit(Jiffies(100), 1), Some(Jiffies(101)));
    assert_eq!(nic.last_departure(), Jiffies(101));
    assert_eq!(nic.transmit(Jiffies(usize::MAX), 1), None);
    assert_eq!(nic.last_departure(), Jiffies(101));
    let mut free = NetworkBoundedQueue::new(BandwidthType::Unbounded).unwrap_or_else(|| panic!("nic"));
    assert_eq!(free.transmit(Jiffies(9), 1_000_000), Some(Jiffies(9)));
    assert_eq!(free.last_departure(), Jiffies(0));
}

#[test]
fn nic_never_exceeds_its_rate() {
    let rate = 7usize;
    let mut nic = NetworkBoundedQueue::new(BandwidthType::Bounded(rate)).unwrap_or_else(|| panic!("nic"));
    let mut rng = Randomizer::new(3);
    let mut sent: Vec<(usize, usize)> = Vec::new();
    let mut clock = 0usize;
    let mut largest = 0usize;
    for _ in 0..200 {
        clock += rng.below(5) as usize;
        let size = rng.below(60) as usize;
        largest = largest.max(size);
        let end = nic.transmit(Jiffies(clock), size).unwrap_or_else(|| panic!("fits")).0;
        let start = end - if size == 0 { 0 } else { (size - 1) / rate + 1 };
        sent.push((start, size));
    }
    for t in 0..=nic.last_departure().0 {
        let by_t: usize = sent.iter().filter(|(start, _)| *start <= t).map(|(_, size)| *size).sum();
        assert!(by_t <= rate * t + largest);
    }
}

#[test]
fn random_stream_is_fixed_by_the_seed() {
    let mut rng = Randomizer::new(0);
    assert_eq!(rng.next_u64(), 16294208416658607535);
    assert_eq!(rng.next_u64(), 7960286522194355700);
    assert_eq!(rng.next_u64(), 487617019471545679);
    assert_eq!(rng.state(), 0x9e37_79b9_7f4a_7c15u64.wrapping_mul(3));
    let mut other = Randomizer::new(7);
    assert_eq!(other.below(1000), 487);
    let mut a = Randomizer::new(99);
    let mut b = Randomizer::new(99);
    for _ in 0..50 {
        assert_eq!(a.next_u64(), b.next_u64());
    }
}

#[test]
fn distributions_sample_as_stated() {
    let mut rng = Randomizer::new(42);
    assert_eq!(Distributions::Constant(Jiffies(9)).sample(&mut rng), Jiffies(9));
    assert_eq!(rng.state(), 42);
    assert_eq!(Distributions::Uniform(Jiffies(5), Jiffies(14)).sample(&mut rng), Jiffies(8));
    assert_eq!(rng.state(), 42u64.wrapping_add(0x9e37_79b9_7f4a_7c15));
    assert_eq!(Distributions::Uniform(Jiffies(6), Jiffies(6)).sample(&mut rng), Jiffies(6));

    let mut rng = Randomizer::new(12345);
    let normal = Distributions::Normal(Jiffies(50), Jiffies(10));
    let drawn: Vec<usize> = (0..5).map(|_| normal.sample(&mut rng).0).collect();
    assert_eq!(drawn, vec![48, 54, 28, 52, 70]);
    assert_eq!(rng.state(), 4990025626462025076);

    let mut rng = Randomizer::new(1);
    assert_eq!(Distributions::Normal(Jiffies(0), Jiffies(0)).sample(&mut rng), Jiffies(1));
    assert_eq!(rng.state(), 15362738631823041017);
    let mut rng = Randomizer::new(3);
    assert_eq!(Distributions::Normal(Jiffies(1), Jiffies(1000)).sample(&mut rng), Jiffies(1093));
    let mut rng = Randomizer::new(3);
    assert_eq!(
        Distributions::Normal(Jiffies(usize::MAX), Jiffies(0)).sample(&mut rng),
        Jiffies(usize::MAX)
    );
}

#[test]
fn distributions_stay_in_range() {
    let mut rng = Randomizer::new(2024);
    let uniform = Distributions::Uniform(Jiffies(10), Jiffies(20));
    let normal = Distributions::Normal(Jiffies(3), Jiffies(5));
    let mut low = false;
    let mut high = false;
    for _ in 0..2000 {
        let u = uniform.sample(&mut rng).0;
        assert!((10..=20).contains(&u));
        low |= u == 10;
        high |= u == 20;
        assert!(normal.sample(&mut rng).0 >= 1);
    }
    assert!(low && high);
    assert!(uniform.is_valid());
    assert!(!Distributions::Uniform(Jiffies(2), Jiffies(1)).is_valid());
    assert!(!Distributions::Uniform(Jiffies(0), Jiffies(usize::MAX)).is_valid());
    assert!(Distributions::Uniform(Jiffies(1), Jiffies(usize::MAX)).is_valid());
}

#[test]
fn topology_prefers_the_most_specific_rule() {
    let c = |k: usize| Distributions::Constant(Jiffies(k));
    let topology = Topology {
        rules: vec![
            LatencyRule::Catchall(c(1)),
            LatencyRule::WithinPool(0, c(2)),
            LatencyRule::BetweenPools(0, 1, c(3)),
            LatencyRule::BetweenPools(0, 0, c(4)),
            LatencyRule::WithinPool(0, c(5)),
            LatencyRule::Catchall(c(6)),
        ],
        fallback: Some(c(7)),
    };
    assert_eq!(topology.resolve(0, 1), Some(c(3)));
    assert_eq!(topology.resolve(0, 0), Some(c(4)));
    assert_eq!(topology.resolve(1, 1), Some(c(1)));
    assert_eq!(topology.resolve(1, 0), Some(c(1)));
    assert!(topology.is_complete(5));
    let sparse = Topology { rules: vec![LatencyRule::WithinPool(1, c(2))], fallback: None };
    assert_eq!(sparse.resolve(1, 1), Some(c(2)));
    assert_eq!(sparse.resolve(0, 0), None);
    assert_eq!(sparse.resolve(0, 1), None);
    assert!(!sparse.is_complete(2));
    assert!(sparse.is_complete(0));
    let fallback = Topology { rules: vec![], fallback: Some(c(7)) };
    assert_eq!(fallback.resolve(3, 4), Some(c(7)));
    let broken = Topology {
        rules: vec![LatencyRule::Catchall(Distributions::Uniform(Jiffies(2), Jiffies(1)))],
        fallback: None,
    };
    assert!(!broken.is_complete(1));
}

#[test]
fn anykv_set_then_get() {
    let mut kv = AnyKv::new();
    assert_eq!(kv.len(), 0);
    dscale::anykv::set(&mut kv, "counter", 42u64);
    dscale::anykv::set(&mut kv, "flag", true);
    dscale::anykv::set(&mut kv, "offset", -3i64);
    dscale::anykv::set(&mut kv, "size", 7usize);
    dscale::anykv::set(&mut kv, "when", Jiffies(5));
    dscale::anykv::set(&mut kv, "avg_latency", Tally { total: 0, count: 0 });
    dscale::anykv::modify(&mut kv, "avg_latency", |t: Tally| Tally {
        total: t.total + 50,
        count: t.count + 1,
    });
    assert_eq!(
        dscale::anykv::get::<Tally>(&kv, "avg_latency"),
        Tally { total: 50, count: 1 }
    );
    assert!(!dscale::anykv::has::<u64>(&kv, "avg_latency"));
    assert_eq!(dscale::anykv::get::<u64>(&kv, "counter"), 42);
    assert!(dscale::anykv::get::<bool>(&kv, "flag"));
    assert_eq!(dscale::anykv::get::<i64>(&kv, "offset"), -3);
    assert_eq!(dscale::anykv::get::<usize>(&kv, "size"), 7);
    assert_eq!(dscale::anykv::get::<Jiffies>(&kv, "when"), Jiffies(5));
    assert_eq!(kv.len(), 6);
    dscale::anykv::set(&mut kv, "counter", 43u64);
    assert_eq!(dscale::anykv::get::<u64>(&kv, "counter"), 43);
    assert_eq!(kv.len(), 6);
}

#[test]
fn anykv_reads_only_the_stored_type() {
    let mut kv = AnyKv::new();
    dscale::anykv::set(&mut kv, "counter", 42u64);
    assert!(dscale::anykv::has::<u64>(&kv, "counter"));
    assert!(!dscale::anykv::has::<usize>(&kv, "counter"));
    assert!(!dscale::anykv::has::<i64>(&kv, "counter"));
    assert!(!dscale::anykv::has::<u64>(&kv, "Counter"));
    assert!(!dscale::anykv::has::<u64>(&kv, ""));
    dscale::anykv::set(&mut kv, "counter", 1usize);
    assert!(!dscale::anykv::has::<u64>(&kv, "counter"));
    assert_eq!(dscale::anykv::get::<usize>(&kv, "counter"), 1);
}

#[test]
fn anykv_modify_and_drop() {
    let mut kv = AnyKv::new();
    dscale::anykv::set(&mut kv, "counter", 0u64);
    dscale::anykv::set(&mut kv, "other", 9u64);
    dscale::anykv::modify(&mut kv, "counter", |c: u64| c + 1);
    dscale::anykv::modify(&mut kv, "counter", |c: u64| c * 10);
    assert_eq!(dscale::anykv::get::<u64>(&kv, "counter"), 10);
    assert_eq!(dscale::anykv::get::<u64>(&kv, "other"), 9);
    dscale::anykv::drop_anykv(&mut kv);
    assert_eq!(kv.len(), 0);
    assert!(!dscale::anykv::has::<u64>(&kv, "counter"));
}

#[test]
fn combiner_hands_out_the_quorum_once() {
    let mut collector: Combiner<i32, 3> = Combiner::new();
    assert!(collector.combine(10).is_none());
    assert!(collector.combine(20).is_none());
    assert_eq!(collector.combine(30), Some([10, 20, 30]));
    assert!(collector.combine(40).is_none());
    assert!(collector.combine(50).is_none());
    assert!(collector.combine(60).is_none());
    let mut single: Combiner<String, 1> = Combiner::new();
    assert_eq!(single.combine("vote".to_string()), Some(["vote".to_string()]));
    assert!(single.combine("late".to_string()).is_none());
}

#[test]
fn routed_messages_compare_by_arrival() {
    let step = |m: &str| ProcessStep { source: 1, dest: 2, message: m.to_string() };
    let early = RoutedMessage::new(Jiffies(3), step("a"));
    let late = RoutedMessage::new(Jiffies(9), step("b"));
    let also_early = RoutedMessage::new(Jiffies(3), step("c"));
    assert!(early < late);
    assert!(late > early);
    assert!(early <= also_early && early >= also_early);
    assert!(early == also_early);
    assert!(early != late);
    assert!(early.arrives_before(&late));
    assert!(!early.arrives_before(&also_early));
    assert_eq!(early.partial_cmp(&late), Some(std::cmp::Ordering::Less));
    assert_eq!(late.step.message, "b");
}

#[test]
fn quorum_arithmetic() {
    assert_eq!(adversary_threshold(1), 0);
    assert_eq!(adversary_threshold(4), 1);
    assert_eq!(adversary_threshold(6), 1);
    assert_eq!(adversary_threshold(7), 2);
    assert_eq!(adversary_threshold(1000), 333);
    assert_eq!(quorum_size(1), 1);
    assert_eq!(quorum_size(4), 3);
    assert_eq!(quorum_size(1000), 667);
    assert_eq!(leader_id(9, 4), 1);
    assert_eq!(first_predefined_leader(1, 4), 1);
    assert_eq!(second_predefined_leader(1, 4), 3);
    assert_eq!(first_predefined_leader(3, 4), 1);
    assert_eq!(second_predefined_leader(3, 7), 4);
    assert_eq!(view_leader(0, 4), 1);
    assert_eq!(view_leader(7, 4), 4);
}
