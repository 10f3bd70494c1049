//! Quorum arithmetic for the protocols that run on the simulator: how many
//! faulty processes a group tolerates, how many make a quorum, and whose
//! turn it is to lead.

use vstd::prelude::*;
use crate::events::ProcessId;

verus! {

/// The number of faulty processes that `proc_num` processes tolerate: a
/// third of the others, rounded down.
pub open spec fn spec_adversary_threshold(proc_num: nat) -> nat {
    if proc_num == 0 {
        0
    } else {
        ((proc_num - 1) / 3) as nat
    }
}

/// The size of a quorum among `proc_num` processes: twice the adversary
/// threshold, and one.
pub open spec fn spec_quorum_size(proc_num: nat) -> nat {
    2 * spec_adversary_threshold(proc_num) + 1
}

/// The number of faulty processes that `proc_num` processes tolerate.
/// There is at least one process.
pub fn adversary_threshold(proc_num: usize) -> (f: usize)
    requires
        proc_num >= 1,
    ensures
        f == spec_adversary_threshold(proc_num as nat),
{
    (proc_num - 1) / 3
}

/// The size of a quorum among `proc_num` processes. There is at least one
/// process.
pub fn quorum_size(proc_num: usize) -> (q: usize)
    requires
        proc_num >= 1,
    ensures
        q == spec_quorum_size(proc_num as nat),
        q <= proc_num,
{
    2 * adversary_threshold(proc_num) + 1
}

/// The place in the rotation of the leader of `round`: the round modulo
/// the number of processes, which is not zero.
pub fn leader_id(round: usize, proc_num: usize) -> (leader: usize)
    requires
        proc_num > 0,
    ensures
        leader == round % proc_num,
{
    round % proc_num
}

/// The leader of the first of the two fixed-leader rounds of wave `w`,
/// which is round `4w - 3`. Waves are counted from 1.
pub fn first_predefined_leader(w: usize, proc_num: usize) -> (leader: usize)
    requires
        proc_num > 0,
        w >= 1,
        4 * w <= usize::MAX,
    ensures
        leader == (4 * w - 3) % (proc_num as int),
{
    leader_id(4 * w - 3, proc_num)
}

/// The leader of the second of the two fixed-leader rounds of wave `w`,
/// which is round `4w - 1`. Waves are counted from 1.
pub fn second_predefined_leader(w: usize, proc_num: usize) -> (leader: usize)
    requires
        proc_num > 0,
        w >= 1,
        4 * w <= usize::MAX,
    ensures
        leader == (4 * w - 1) % (proc_num as int),
{
    leader_id(4 * w - 1, proc_num)
}

/// The process that leads view `view` when the lead rotates over the
/// processes `1..=proc_num`, of which there is at least one.
pub fn view_leader(view: usize, proc_num: usize) -> (leader: ProcessId)
    requires
        proc_num > 0,
    ensures
        leader == view % proc_num + 1,
        1 <= leader <= proc_num,
{
    view % proc_num + 1
}

/// Among `3f + 1` processes two quorums share more than `f` processes, so
/// that at least one process in both is not faulty.
pub proof fn law_quorums_intersect(f: nat)
    ensures
        spec_adversary_threshold(3 * f + 1) == f,
        2 * spec_quorum_size(3 * f + 1) - (3 * f + 1) == f + 1,
{
}

} // verus!
