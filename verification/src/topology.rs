//! Which latency distribution holds between two pools.

use vstd::prelude::*;
use crate::latency::Distributions;

verus! {

/// Identifies a pool: its position in the order in which pools were
/// declared.
pub type PoolId = usize;

/// One line of the latency table.
#[derive(Clone, Copy, Debug, PartialEq, Eq, Structural)]
pub enum LatencyRule {
    /// Between two processes of the given pool.
    WithinPool(PoolId, Distributions),
    /// From a process of the first pool to one of the second.
    BetweenPools(PoolId, PoolId, Distributions),
    /// Between any two processes.
    Catchall(Distributions),
}

/// How specific a rule is, most specific first.
#[derive(Clone, Copy, Debug, PartialEq, Eq, Structural)]
pub enum Specificity {
    Between,
    Within,
    Any,
}

/// The distribution that `rule` gives for the pair at the given
/// specificity, if it speaks of the pair at that specificity at all.
pub open spec fn rule_applies(rule: LatencyRule, level: Specificity, src: PoolId, dst: PoolId)
    -> Option<Distributions> {
    match (rule, level) {
        (LatencyRule::BetweenPools(s, d, dist), Specificity::Between) => if s == src && d == dst {
            Some(dist)
        } else {
            None
        },
        (LatencyRule::WithinPool(p, dist), Specificity::Within) => if p == src && p == dst {
            Some(dist)
        } else {
            None
        },
        (LatencyRule::Catchall(dist), Specificity::Any) => Some(dist),
        _ => None,
    }
}

/// The first rule from position `from` on that applies at the given
/// specificity.
pub open spec fn first_match(
    rules: Seq<LatencyRule>,
    from: int,
    level: Specificity,
    src: PoolId,
    dst: PoolId,
) -> Option<Distributions>
    decreases rules.len() - from,
{
    if from < 0 || from >= rules.len() {
        None
    } else if rule_applies(rules[from], level, src, dst) is Some {
        rule_applies(rules[from], level, src, dst)
    } else {
        first_match(rules, from + 1, level, src, dst)
    }
}

/// The distribution for a pair of pools: the first rule between exactly
/// these pools; failing that the first rule within the pool, where both are
/// the same; failing that the first catch-all; failing that the fallback.
pub open spec fn resolve(
    rules: Seq<LatencyRule>,
    fallback: Option<Distributions>,
    src: PoolId,
    dst: PoolId,
) -> Option<Distributions> {
    if first_match(rules, 0, Specificity::Between, src, dst) is Some {
        first_match(rules, 0, Specificity::Between, src, dst)
    } else if first_match(rules, 0, Specificity::Within, src, dst) is Some {
        first_match(rules, 0, Specificity::Within, src, dst)
    } else if first_match(rules, 0, Specificity::Any, src, dst) is Some {
        first_match(rules, 0, Specificity::Any, src, dst)
    } else {
        fallback
    }
}

/// Every pair of the first `pools` pools resolves to a distribution that
/// can be sampled.
pub open spec fn covers(rules: Seq<LatencyRule>, fallback: Option<Distributions>, pools: nat)
    -> bool {
    forall|src: PoolId, dst: PoolId|
        src < pools && dst < pools ==> {
            &&& (#[trigger] resolve(rules, fallback, src, dst)) is Some
            &&& resolve(rules, fallback, src, dst).unwrap().valid()
        }
}

fn applies(rule: &LatencyRule, level: Specificity, src: PoolId, dst: PoolId) -> (r: Option<
    Distributions,
>)
    ensures
        r == rule_applies(*rule, level, src, dst),
{
    match (rule, level) {
        (LatencyRule::BetweenPools(s, d, dist), Specificity::Between) => if *s == src && *d
            == dst {
            Some(*dist)
        } else {
            None
        },
        (LatencyRule::WithinPool(p, dist), Specificity::Within) => if *p == src && *p == dst {
            Some(*dist)
        } else {
            None
        },
        (LatencyRule::Catchall(dist), Specificity::Any) => Some(*dist),
        _ => None,
    }
}

/// The latency table of a simulation.
pub struct Topology {
    pub rules: Vec<LatencyRule>,
    pub fallback: Option<Distributions>,
}

impl Topology {
    /// The distribution for a pair of pools.
    pub open spec fn spec_resolve(&self, src: PoolId, dst: PoolId) -> Option<Distributions> {
        resolve(self.rules@, self.fallback, src, dst)
    }

    /// Every pair of the first `pools` pools has a distribution.
    pub open spec fn complete(&self, pools: nat) -> bool {
        covers(self.rules@, self.fallback, pools)
    }

    fn scan(&self, level: Specificity, src: PoolId, dst: PoolId) -> (r: Option<Distributions>)
        ensures
            r == first_match(self.rules@, 0, level, src, dst),
    {
        let mut i: usize = 0;
        while i < self.rules.len()
            invariant
                i <= self.rules.len(),
                first_match(self.rules@, i as int, level, src, dst) == first_match(
                    self.rules@,
                    0,
                    level,
                    src,
                    dst,
                ),
            decreases self.rules.len() - i,
        {
            let found = applies(&self.rules[i], level, src, dst);
            if found.is_some() {
                return found;
            }
            i = i + 1;
        }
        None
    }

    /// Looks up the distribution for a pair of pools; `None` where no rule
    /// applies and there is no fallback.
    pub fn resolve(&self, src: PoolId, dst: PoolId) -> (r: Option<Distributions>)
        ensures
            r == self.spec_resolve(src, dst),
    {
        let between = self.scan(Specificity::Between, src, dst);
        if between.is_some() {
            return between;
        }
        let within = self.scan(Specificity::Within, src, dst);
        if within.is_some() {
            return within;
        }
        let any = self.scan(Specificity::Any, src, dst);
        if any.is_some() {
            return any;
        }
        self.fallback
    }

    /// Whether every pair of the first `pools` pools resolves to a
    /// distribution that can be sampled.
    pub fn is_complete(&self, pools: usize) -> (b: bool)
        ensures
            b == self.complete(pools as nat),
    {
        let mut src: usize = 0;
        while src < pools
            invariant
                src <= pools,
                forall|s: PoolId, d: PoolId|
                    s < src && d < pools ==> {
                        &&& (#[trigger] resolve(self.rules@, self.fallback, s, d)) is Some
                        &&& resolve(self.rules@, self.fallback, s, d).unwrap().valid()
                    },
            decreases pools - src,
        {
            let mut dst: usize = 0;
            while dst < pools
                invariant
                    src < pools,
                    dst <= pools,
                    forall|s: PoolId, d: PoolId|
                        s < src && d < pools ==> {
                            &&& (#[trigger] resolve(self.rules@, self.fallback, s, d)) is Some
                            &&& resolve(self.rules@, self.fallback, s, d).unwrap().valid()
                        },
                    forall|d: PoolId|
                        d < dst ==> {
                            &&& (#[trigger] resolve(self.rules@, self.fallback, src, d)) is Some
                            &&& resolve(self.rules@, self.fallback, src, d).unwrap().valid()
                        },
                decreases pools - dst,
            {
                match self.resolve(src, dst) {
                    Some(dist) => {
                        if !dist.is_valid() {
                            return false;
                        }
                    },
                    None => {
                        return false;
                    },
                }
                dst = dst + 1;
            }
            src = src + 1;
        }
        true
    }
}

} // verus!
