//! The outbound NIC of a process: a bandwidth cap that serialises what the
//! process sends.

use vstd::prelude::*;
use crate::jiffy::Jiffies;

verus! {

/// The rate cap of a NIC.
#[derive(Clone, Copy, Debug, PartialEq, Eq, Structural, Hash)]
pub enum BandwidthType {
    /// Messages leave at once.
    Unbounded,
    /// Bytes per jiffy.
    Bounded(usize),
}

/// One message on the wire: its size and the jiffies at which its
/// transmission starts and ends.
pub struct Transmission {
    pub size: nat,
    pub start: nat,
    pub end: nat,
}

/// The jiffies that `size` bytes take at `rate` bytes per jiffy: the
/// quotient rounded up.
pub open spec fn transmission_time(size: nat, rate: nat) -> nat {
    if size == 0 || rate == 0 {
        0
    } else {
        ((size - 1) / (rate as int) + 1) as nat
    }
}

/// The later of two jiffies.
pub open spec fn later(a: nat, b: nat) -> nat {
    if a >= b {
        a
    } else {
        b
    }
}

/// `log` is what a NIC of the given rate can have sent: each transmission
/// takes its transmission time and starts no earlier than the one before
/// it ends.
pub open spec fn serialized(rate: nat, log: Seq<Transmission>) -> bool {
    forall|i: int|
        0 <= i < log.len() ==> {
            &&& (#[trigger] log[i]).end == log[i].start + transmission_time(log[i].size, rate)
            &&& (i > 0 ==> log[i].start >= log[i - 1].end)
        }
}

/// The bytes of all transmissions of `log`.
pub open spec fn total_size(log: Seq<Transmission>) -> nat
    decreases log.len(),
{
    if log.len() == 0 {
        0
    } else {
        total_size(log.drop_last()) + log.last().size
    }
}

/// The bytes of the transmissions of `log` that have started by jiffy `t`.
pub open spec fn sent_by(log: Seq<Transmission>, t: nat) -> nat
    decreases log.len(),
{
    if log.len() == 0 {
        0
    } else if log.last().start <= t {
        sent_by(log.drop_last(), t) + log.last().size
    } else {
        sent_by(log.drop_last(), t)
    }
}

/// The size of the largest transmission of `log`.
pub open spec fn max_size(log: Seq<Transmission>) -> nat
    decreases log.len(),
{
    if log.len() == 0 {
        0
    } else {
        later(max_size(log.drop_last()), log.last().size)
    }
}

/// A transmission of `size` bytes moves no more than the rate allows in
/// the time it takes.
pub proof fn lemma_transmission_time(size: nat, rate: nat)
    requires
        rate > 0,
    ensures
        size <= rate * transmission_time(size, rate),
{
    if size > 0 {
        let q = (size - 1) / (rate as int);
        vstd::arithmetic::div_mod::lemma_fundamental_div_mod(size - 1, rate as int);
        vstd::arithmetic::div_mod::lemma_mod_bound(size - 1, rate as int);
        assert(rate * (q + 1) == rate * q + rate) by (nonlinear_arith);
        assert(q >= 0) by {
            vstd::arithmetic::div_mod::lemma_div_pos_is_pos(size - 1, rate as int);
        }
    } else {
        assert(rate * 0 == 0) by (nonlinear_arith);
    }
}

proof fn lemma_serialized_prefix(rate: nat, log: Seq<Transmission>)
    requires
        serialized(rate, log),
        log.len() > 0,
    ensures
        serialized(rate, log.drop_last()),
{
    let shorter = log.drop_last();
    assert forall|i: int| 0 <= i < shorter.len() implies {
        &&& (#[trigger] shorter[i]).end == shorter[i].start + transmission_time(
            shorter[i].size,
            rate,
        )
        &&& (i > 0 ==> shorter[i].start >= shorter[i - 1].end)
    } by {
        assert(shorter[i] == log[i]);
        if i > 0 {
            assert(shorter[i - 1] == log[i - 1]);
        }
    }
}

/// All the bytes of a serialised log fit in the time up to the end of its
/// last transmission.
pub proof fn lemma_total_fits(rate: nat, log: Seq<Transmission>)
    requires
        rate > 0,
        serialized(rate, log),
        log.len() > 0,
    ensures
        total_size(log) <= rate * log.last().end,
    decreases log.len(),
{
    let last = log.last();
    lemma_transmission_time(last.size, rate);
    assert(last == log[log.len() - 1]);
    let dur = transmission_time(last.size, rate);
    assert(rate * (last.start + dur) == rate * last.start + rate * dur) by (nonlinear_arith);
    if log.len() == 1 {
        assert(total_size(log.drop_last()) == 0);
        assert(rate * last.start >= 0) by (nonlinear_arith)
            requires
                rate >= 0,
                last.start >= 0,
        ;
    } else {
        let shorter = log.drop_last();
        lemma_serialized_prefix(rate, log);
        lemma_total_fits(rate, shorter);
        assert(shorter.last() == log[log.len() - 2]);
        let prev_end = shorter.last().end;
        assert(last.start >= prev_end);
        assert(rate * prev_end <= rate * last.start) by (nonlinear_arith)
            requires
                rate >= 0,
                prev_end <= last.start,
        ;
    }
}

proof fn lemma_max_size_bounds_last(log: Seq<Transmission>)
    requires
        log.len() > 0,
    ensures
        log.last().size <= max_size(log),
        max_size(log.drop_last()) <= max_size(log),
{
}

proof fn lemma_sent_by_all(rate: nat, log: Seq<Transmission>, t: nat)
    requires
        serialized(rate, log),
        log.len() > 0 ==> log.last().start <= t,
    ensures
        sent_by(log, t) == total_size(log),
    decreases log.len(),
{
    if log.len() > 0 {
        let shorter = log.drop_last();
        lemma_serialized_prefix(rate, log);
        if shorter.len() > 0 {
            assert(shorter.last() == log[log.len() - 2]);
            assert(log.last() == log[log.len() - 1]);
            assert(log[log.len() - 2].end >= log[log.len() - 2].start);
        }
        lemma_sent_by_all(rate, shorter, t);
    }
}

/// Under a cap of `rate` bytes per jiffy, what a sender has put on the wire
/// by jiffy `t` is at most `rate * t` bytes and one message more.
pub proof fn law_bandwidth_bound(rate: nat, log: Seq<Transmission>, t: nat)
    requires
        rate > 0,
        serialized(rate, log),
    ensures
        sent_by(log, t) <= rate * t + max_size(log),
    decreases log.len(),
{
    if log.len() == 0 {
        assert(rate * t >= 0) by (nonlinear_arith)
            requires
                rate >= 0,
                t >= 0,
        ;
    } else {
        let shorter = log.drop_last();
        let last = log.last();
        lemma_serialized_prefix(rate, log);
        lemma_max_size_bounds_last(log);
        if last.start <= t {
            assert(rate * last.start <= rate * t) by (nonlinear_arith)
                requires
                    rate >= 0,
                    last.start <= t,
            ;
            if shorter.len() > 0 {
                assert(shorter.last() == log[log.len() - 2]);
                assert(last == log[log.len() - 1]);
                assert(log[log.len() - 2].end >= log[log.len() - 2].start);
                lemma_sent_by_all(rate, shorter, t);
                lemma_total_fits(rate, shorter);
                let prev_end = shorter.last().end;
                assert(rate * prev_end <= rate * last.start) by (nonlinear_arith)
                    requires
                        rate >= 0,
                        prev_end <= last.start,
                ;
            } else {
                assert(sent_by(shorter, t) == 0);
                assert(rate * t >= 0) by (nonlinear_arith)
                    requires
                        rate >= 0,
                        t >= 0,
                ;
            }
        } else {
            law_bandwidth_bound(rate, shorter, t);
        }
    }
}

/// What a well-formed NIC with a cap has put on the wire by jiffy `t` is
/// at most its rate times `t`, and one message more.
pub proof fn law_nic_bound(nic: NetworkBoundedQueue, rate: usize, t: nat)
    requires
        nic.wf(),
        nic.spec_bandwidth() == BandwidthType::Bounded(rate),
    ensures
        sent_by(nic.sent(), t) <= rate * t + max_size(nic.sent()),
{
    law_bandwidth_bound(rate as nat, nic.sent(), t);
}

/// The state of one NIC: its cap and the jiffy at which its last
/// transmission ends.
pub struct NetworkBoundedQueue {
    bandwidth: BandwidthType,
    last_departure: usize,
    log: Ghost<Seq<Transmission>>,
}

impl NetworkBoundedQueue {
    /// The cap of this NIC.
    pub closed spec fn spec_bandwidth(&self) -> BandwidthType {
        self.bandwidth
    }

    /// The jiffy at which the last transmission ends; 0 before the first.
    pub closed spec fn spec_last_departure(&self) -> nat {
        self.last_departure as nat
    }

    /// Every capped transmission so far, in submission order.
    pub closed spec fn sent(&self) -> Seq<Transmission> {
        self.log@
    }

    /// The cap is not zero, the log is one that the cap allows, and the
    /// last departure is the end of its last transmission.
    pub open spec fn wf(&self) -> bool {
        match self.spec_bandwidth() {
            BandwidthType::Unbounded => self.sent().len() == 0 && self.spec_last_departure() == 0,
            BandwidthType::Bounded(rate) => {
                &&& rate > 0
                &&& serialized(rate as nat, self.sent())
                &&& self.spec_last_departure() == (if self.sent().len() == 0 {
                    0
                } else {
                    self.sent().last().end
                })
            },
        }
    }

    /// When a message of `size` bytes submitted at `now` has left the NIC:
    /// at once without a cap; with one, after the transmission that starts
    /// when the NIC is next free.
    pub open spec fn spec_release(&self, now: Jiffies, size: nat) -> nat {
        match self.spec_bandwidth() {
            BandwidthType::Unbounded => now.0 as nat,
            BandwidthType::Bounded(rate) => later(now.0 as nat, self.spec_last_departure())
                + transmission_time(size, rate as nat),
        }
    }

    /// `after` is this NIC once it has been asked to send `size` bytes at
    /// `now`: with a cap, and where the release time fits, the transmission
    /// is logged and the NIC is busy until its end; otherwise nothing
    /// changes.
    pub open spec fn transmitted(&self, after: NetworkBoundedQueue, now: Jiffies, size: nat)
        -> bool {
        if self.spec_bandwidth() is Bounded && self.spec_release(now, size) <= usize::MAX {
            &&& after.spec_bandwidth() == self.spec_bandwidth()
            &&& after.spec_last_departure() == self.spec_release(now, size)
            &&& after.sent() == self.sent().push(
                Transmission {
                    size,
                    start: later(now.0 as nat, self.spec_last_departure()),
                    end: self.spec_release(now, size),
                },
            )
        } else {
            after == *self
        }
    }

    /// A NIC that has sent nothing, or `None` for a cap of zero bytes per
    /// jiffy.
    pub fn new(bandwidth: BandwidthType) -> (r: Option<NetworkBoundedQueue>)
        ensures
            r is Some <==> bandwidth != BandwidthType::Bounded(0),
            r is Some ==> r.unwrap().wf() && r.unwrap().spec_bandwidth() == bandwidth
                && r.unwrap().spec_last_departure() == 0 && r.unwrap().sent().len() == 0,
    {
        match bandwidth {
            BandwidthType::Bounded(rate) => {
                if rate == 0 {
                    return None;
                }
            },
            BandwidthType::Unbounded => {},
        }
        Some(NetworkBoundedQueue { bandwidth, last_departure: 0, log: Ghost(Seq::empty()) })
    }

    /// The cap of this NIC.
    pub fn bandwidth(&self) -> (b: BandwidthType)
        ensures
            b == self.spec_bandwidth(),
    {
        self.bandwidth
    }

    /// The jiffy at which the last transmission ends.
    pub fn last_departure(&self) -> (t: Jiffies)
        ensures
            t.0 == self.spec_last_departure(),
    {
        Jiffies(self.last_departure)
    }

    /// Puts a message of `size` bytes on the wire at `now` and returns the
    /// jiffy at which it has left. Transmissions are served in submission
    /// order. `None`, with the NIC unchanged, exactly where that jiffy does
    /// not fit in a `usize`.
    pub fn transmit(&mut self, now: Jiffies, size: usize) -> (r: Option<Jiffies>)
        requires
            old(self).wf(),
        ensures
            final(self).wf(),
            final(self).spec_bandwidth() == old(self).spec_bandwidth(),
            r == (if old(self).spec_release(now, size as nat) <= usize::MAX {
                Some(Jiffies(old(self).spec_release(now, size as nat) as usize))
            } else {
                None
            }),
            old(self).transmitted(*final(self), now, size as nat),
    {
        match self.bandwidth {
            BandwidthType::Unbounded => Some(now),
            BandwidthType::Bounded(rate) => {
                let start: usize = if now.0 >= self.last_departure {
                    now.0
                } else {
                    self.last_departure
                };
                let duration: usize = if size == 0 {
                    0
                } else {
                    (size - 1) / rate + 1
                };
                match start.checked_add(duration) {
                    Some(end) => {
                        let ghost before = self.log@;
                        let ghost entry = Transmission {
                            size: size as nat,
                            start: start as nat,
                            end: end as nat,
                        };
                        self.last_departure = end;
                        self.log = Ghost(before.push(entry));
                        proof {
                            let log = before.push(entry);
                            assert(log.last() == entry);
                            assert forall|i: int| 0 <= i < log.len() implies {
                                &&& (#[trigger] log[i]).end == log[i].start + transmission_time(
                                    log[i].size,
                                    rate as nat,
                                )
                                &&& (i > 0 ==> log[i].start >= log[i - 1].end)
                            } by {
                                if i < before.len() {
                                    assert(log[i] == before[i]);
                                    if i > 0 {
                                        assert(log[i - 1] == before[i - 1]);
                                    }
                                } else if i > 0 {
                                    assert(log[i - 1] == before.last());
                                }
                            }
                        }
                        Some(Jiffies(end))
                    },
                    None => None,
                }
            },
        }
    }
}

} // verus!
