//! A deterministic discrete-event simulator for distributed protocols.
//!
//! An experiment declares pools of processes, a latency table, NIC caps, a
//! time budget and a seed, and gives a factory for the handlers. The
//! simulation starts every process and then dispatches events in ascending
//! order of (delivery time, event id) until nothing is due within the
//! budget. During a callback a handler acts on the [`Runtime`]: it reads the
//! clock, sends and broadcasts, sets and cancels timers, draws random
//! numbers and stores metrics.
//!
//! Time is an integer count of jiffies, and every operation of the engine
//! is a function of the state it starts from, so a run is reproducible from
//! its seed.
//!
//! - [`jiffy`], [`clock`]: simulated time.
//! - [`random`], [`latency`], [`topology`]: the random source, the
//!   distributions of delay and the rules that pick one for a pair of pools.
//! - [`bandwidth`]: the NIC of a process.
//! - [`events`], [`queue`]: event records and the queue that orders them.
//! - [`runtime`], [`time`]: what handlers act on.
//! - [`process`], [`simulation`], [`simulation_builder`]: handlers, the
//!   scheduler and its set-up.
//! - [`anykv`]: the store of metrics.
//! - [`combiner`], [`message`], [`quorum`]: helpers for protocols.

pub mod anykv;
pub mod bandwidth;
pub mod clock;
pub mod combiner;
pub mod events;
pub mod jiffy;
pub mod latency;
pub mod message;
pub mod process;
pub mod queue;
pub mod quorum;
pub mod random;
pub mod runtime;
pub mod simulation;
pub mod simulation_builder;
pub mod time;
pub mod topology;

pub use anykv::AnyKv;
pub use bandwidth::BandwidthType;
pub use bandwidth::NetworkBoundedQueue;
pub use clock::now;
pub use combiner::Combiner;
pub use events::Destination;
pub use events::Event;
pub use events::EventId;
pub use events::EventType;
pub use events::Message;
pub use events::ProcessId;
pub use events::TimerId;
pub use jiffy::Jiffies;
pub use latency::Distributions;
pub use message::ProcessStep;
pub use message::RoutedMessage;
pub use process::ProcessHandle;
pub use queue::EventQueue;
pub use random::Randomizer;
pub use runtime::BuildError;
pub use runtime::Runtime;
pub use simulation::Simulation;
pub use simulation_builder::LatencyDescription;
pub use simulation_builder::SimulationBuilder;
pub use time::reset_timeout;
pub use time::schedule_timeout;
pub use topology::LatencyRule;
pub use topology::Topology;
