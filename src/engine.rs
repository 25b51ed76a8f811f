use vstd::prelude::*;
use crate::session::{spec_should_probe, Session};

verus! {

/// What the engine does on one tick.
#[derive(Debug)]
pub enum TickPlan {
    /// The user paused probing: send nothing this tick.
    Paused,
    /// Every hop has had its `count` probes: stop the session.
    CountReached,
    /// Send one probe to each of these TTLs, in order.
    Probe(Vec<u8>),
}

/// The TTLs among `1..=n` that the engine still probes.
pub open spec fn probe_ttls(s: Session, n: int) -> Seq<u8>
    decreases n,
{
    if n <= 0 {
        Seq::empty()
    } else if spec_should_probe(s, n as u8) {
        probe_ttls(s, n - 1).push(n as u8)
    } else {
        probe_ttls(s, n - 1)
    }
}

/// The probe-count limit is reached: `count` probes per hop have been sent.
pub open spec fn count_reached(s: Session) -> bool {
    s.config.count matches Some(c) && s.total_sent >= c * s.config.max_ttl
}

/// Probes the count limit still allows, if there is one.
pub open spec fn remaining_budget(s: Session) -> Option<int> {
    match s.config.count {
        Some(c) => Some(c * s.config.max_ttl - s.total_sent),
        None => None,
    }
}

/// The TTLs a tick probes: those still probed, cut to the remaining budget.
pub open spec fn planned_ttls(s: Session) -> Seq<u8> {
    let all = probe_ttls(s, s.config.max_ttl as int);
    match remaining_budget(s) {
        Some(b) => if b < all.len() {
            all.take(b)
        } else {
            all
        },
        None => all,
    }
}

impl Session {
    /// Decides one tick: nothing while paused, stop once the count limit is
    /// reached, otherwise the TTLs from 1 to `max_ttl` that are still probed,
    /// as many of the first of them as the count limit leaves room for.
    pub fn plan_tick(&self) -> (r: TickPlan)
        ensures
            self.paused ==> r is Paused,
            !self.paused && count_reached(*self) ==> r is CountReached,
            !self.paused && !count_reached(*self) ==> (r matches TickPlan::Probe(v) && v@
                == planned_ttls(*self)),
    {
        if self.paused {
            return TickPlan::Paused;
        }
        let mut budget: Option<u128> = None;
        match self.config.count {
            Some(c) => {
                assert((c as u128) * (self.config.max_ttl as u128) <= 0xffff_ffff_ffff_ffff * 255)
                    by (nonlinear_arith)
                    requires
                        c <= 0xffff_ffff_ffff_ffffu64,
                        self.config.max_ttl <= 255,
                ;
                if self.total_sent as u128 >= (c as u128) * (self.config.max_ttl as u128) {
                    return TickPlan::CountReached;
                }
                budget = Some((c as u128) * (self.config.max_ttl as u128) - (self.total_sent as u128));
            },
            None => {},
        }
        let mut v: Vec<u8> = Vec::new();
        let max_ttl = self.config.max_ttl;
        let mut t: u16 = 1;
        while t <= max_ttl as u16
            invariant
                1 <= t <= max_ttl as u16 + 1,
                max_ttl == self.config.max_ttl,
                v@ == probe_ttls(*self, t - 1),
            decreases max_ttl as u16 + 1 - t,
        {
            if self.should_probe(t as u8) {
                v.push(t as u8);
            }
            t = t + 1;
        }
        match budget {
            Some(b) => {
                if b < v.len() as u128 {
                    v.truncate(b as usize);
                }
            },
            None => {},
        }
        TickPlan::Probe(v)
    }
}

/// The count limit holds over a run: when a tick plans probes, the probes
/// sent so far and the planned ones together stay within `count * max_ttl`.
pub proof fn lemma_tick_within_count(s: Session)
    requires
        !count_reached(s),
        s.config.count is Some,
    ensures
        s.total_sent + planned_ttls(s).len() <= s.config.count->0 * s.config.max_ttl,
{
}

/// The tick counter after `seq`, modulo 256.
pub fn next_seq(seq: u8) -> (r: u8)
    ensures
        r == (seq + 1) % 256,
{
    if seq == 255 {
        0
    } else {
        seq + 1
    }
}

} // verus!
