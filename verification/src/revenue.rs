//! The revenue pool: revenue collected for elapsed timeslices is
//! apportioned to pool contributors in proportion to their frozen mask
//! weights, each contribution paid through a claim cursor so no timeslice
//! is paid twice and no timeslice pays out more than was collected for it.

use vstd::prelude::*;
use vstd::math::min;
use vstd::arithmetic::mul::lemma_mul_upper_bound;
use crate::broker::Broker;
use crate::types::{
    Balance, ContributionRecord, Error, Event, HistoryRecord, RegionId, Timeslice,
};

verus! {

/// Does a contribution still cover timeslice `t`? Claimed timeslices lie
/// before the cursor and no longer count.
pub open spec fn covers(rec: ContributionRecord, t: Timeslice) -> bool {
    rec.next_claim <= t < rec.end
}

/// Total pooled mask weight covering timeslice `t`: the sum of the weights
/// of all contributions that cover it.
pub open spec fn covered_weight(m: Map<RegionId, ContributionRecord>, t: Timeslice) -> int
    decreases m.dom().len() when m.dom().finite()
{
    if !m.dom().finite() || m.dom().len() == 0 {
        0
    } else {
        let k = m.dom().choose();
        (if covers(m[k], t) {
            m[k].weight as int
        } else {
            0
        }) + covered_weight(m.remove(k), t)
    }
}

/// The weight a single contribution record adds for timeslice `t`.
pub open spec fn weight_of(m: Map<RegionId, ContributionRecord>, k: RegionId, t: Timeslice) -> int {
    if covers(m[k], t) {
        m[k].weight as int
    } else {
        0
    }
}

/// A covered-weight sum is non-negative.
pub proof fn lemma_covered_weight_nonneg(m: Map<RegionId, ContributionRecord>, t: Timeslice)
    requires
        m.dom().finite(),
    ensures
        covered_weight(m, t) >= 0,
    decreases m.dom().len(),
{
    if m.dom().len() != 0 {
        let k = m.dom().choose();
        assert(m.dom().contains(k));
        lemma_covered_weight_nonneg(m.remove(k), t);
    }
}

/// Extracting any one contribution splits the covered-weight sum.
pub proof fn lemma_covered_weight_remove(
    m: Map<RegionId, ContributionRecord>,
    t: Timeslice,
    k: RegionId,
)
    requires
        m.dom().finite(),
        m.dom().contains(k),
    ensures
        covered_weight(m, t) == weight_of(m, k, t) + covered_weight(m.remove(k), t),
    decreases m.dom().len(),
{
    let k0 = m.dom().choose();
    assert(m.dom().contains(k0));
    if k0 == k {
    } else {
        lemma_covered_weight_remove(m.remove(k0), t, k);
        lemma_covered_weight_remove(m.remove(k), t, k0);
        assert(m.remove(k0).remove(k) =~= m.remove(k).remove(k0));
    }
}

/// What one claimed timeslice pays a contribution of weight `w`: its
/// proportional share of the timeslice's collected revenue, floored, and
/// never more than the revenue still undistributed for that timeslice.
pub open spec fn pay_for(m: Map<Timeslice, HistoryRecord>, w: int, t: Timeslice) -> int {
    if !m.dom().contains(t) {
        0
    } else {
        let h = m[t];
        if h.weight == 0 {
            0
        } else {
            min((w * h.revenue) / (h.weight as int), h.undistributed as int)
        }
    }
}

/// Total payout of the timeslices in `[from, to)`.
pub open spec fn total_pay(m: Map<Timeslice, HistoryRecord>, w: int, from: Timeslice, to: Timeslice) -> int
    decreases to - from,
{
    if from >= to {
        0
    } else {
        pay_for(m, w, from) + total_pay(m, w, (from + 1) as Timeslice, to)
    }
}

/// Appending one timeslice to a payout range adds exactly its payment.
pub proof fn lemma_total_pay_extend(
    m: Map<Timeslice, HistoryRecord>,
    w: int,
    from: Timeslice,
    to: Timeslice,
)
    requires
        from <= to < Timeslice::MAX,
    ensures
        total_pay(m, w, from, (to + 1) as Timeslice) == total_pay(m, w, from, to) + pay_for(
            m,
            w,
            to,
        ),
    decreases to - from,
{
    if from < to {
        lemma_total_pay_extend(m, w, (from + 1) as Timeslice, to);
    } else {
        assert(total_pay(m, w, (to + 1) as Timeslice, (to + 1) as Timeslice) == 0);
        assert(total_pay(m, w, from, (to + 1) as Timeslice) == pay_for(m, w, from) + total_pay(
            m,
            w,
            (from + 1) as Timeslice,
            (to + 1) as Timeslice,
        ));
    }
}

/// The cursor position a claim with budget `max` stops at: the end of the
/// span, the present, or the budget, whichever is closest — but never
/// before the cursor's current place.
pub open spec fn claim_stop(rec: ContributionRecord, now: int, max: int) -> int {
    let bound = min(min(rec.end as int, now), rec.next_claim + max);
    if bound < rec.next_claim {
        rec.next_claim as int
    } else {
        bound
    }
}

impl Broker {
    /// Records `amount` of revenue as collected for timeslice `when`,
    /// raising both the timeslice's revenue and its undistributed portion,
    /// capped at the balance type's maximum. Fails `NotFound` until the
    /// timeslice has arrived and its pool record exists; a failed call has
    /// no effect.
    pub fn credit_revenue(&mut self, when: Timeslice, amount: Balance) -> (r: Result<(), Error>)
        requires
            old(self).wf(),
        ensures
            final(self).wf(),
            r == if old(self).history@.dom().contains(when) {
                Ok::<(), Error>(())
            } else {
                Err::<(), Error>(Error::NotFound)
            },
            r.is_err() ==> *final(self) == *old(self),
            r.is_ok() ==> {
                let h = old(self).history@[when];
                let added = min(amount as int, Balance::MAX - h.revenue);
                &&& final(self).history@ == old(self).history@.insert(
                    when,
                    HistoryRecord {
                        weight: h.weight,
                        revenue: (h.revenue + added) as u64,
                        undistributed: (h.undistributed + added) as u64,
                    },
                )
                &&& *final(self) == (Broker { history: final(self).history, ..*old(self) })
            },
    {
        let h = match self.history.get(&when) {
            Some(h) => *h,
            None => { return Err(Error::NotFound) },
        };
        let added: u64 = if amount <= Balance::MAX - h.revenue {
            amount
        } else {
            Balance::MAX - h.revenue
        };
        self.history.insert(
            when,
            HistoryRecord {
                weight: h.weight,
                revenue: h.revenue + added,
                undistributed: h.undistributed + added,
            },
        );
        Ok(())
    }

    /// Pays a pool contribution its share of every unclaimed, elapsed
    /// timeslice in its span, at most `max_timeslices` of them per call:
    /// for each such timeslice the share is the contribution's frozen mask
    /// weight over the total pooled weight, times the revenue collected
    /// for the timeslice, floored, and capped by what is still
    /// undistributed there. The claim cursor advances so no timeslice is
    /// ever paid twice. Fails `NotFound` when no contribution record
    /// exists for the region; a failed call has no effect.
    pub fn claim_revenue(&mut self, region_id: RegionId, max_timeslices: u32) -> (r: Result<
        (),
        Error,
    >)
        requires
            old(self).wf(),
        ensures
            final(self).wf(),
            r == if old(self).contributions@.dom().contains(region_id) {
                Ok::<(), Error>(())
            } else {
                Err::<(), Error>(Error::NotFound)
            },
            r.is_err() ==> *final(self) == *old(self),
            r.is_ok() ==> {
                let rec = old(self).contributions@[region_id];
                let w = rec.weight as int;
                let stop = claim_stop(rec, old(self).now as int, max_timeslices as int);
                let total = total_pay(old(self).history@, w, rec.next_claim, stop as u32);
                let paid = min(total, Balance::MAX as int);
                &&& final(self).contributions@ == old(self).contributions@.insert(
                    region_id,
                    ContributionRecord { next_claim: stop as u32, ..rec },
                )
                &&& final(self).history@.dom() == old(self).history@.dom()
                &&& forall|t: Timeslice|
                    #[trigger] old(self).history@.dom().contains(t) ==> final(self).history@[t]
                        == (if rec.next_claim <= t < stop {
                        HistoryRecord {
                            undistributed: (old(self).history@[t].undistributed - pay_for(
                                old(self).history@,
                                w,
                                t,
                            )) as u64,
                            ..old(self).history@[t]
                        }
                    } else {
                        old(self).history@[t]
                    })
                &&& final(self).ledger@ == old(self).ledger@.insert(
                    rec.payer,
                    min(old(self).spec_balance(rec.payer) + paid, Balance::MAX as int) as u64,
                )
                &&& final(self).events@ == old(self).events@.push(
                    Event::RevenueClaimed { who: rec.payer, amount: paid as u64 },
                )
                &&& *final(self) == (Broker {
                    contributions: final(self).contributions,
                    history: final(self).history,
                    ledger: final(self).ledger,
                    events: final(self).events,
                    ..*old(self)
                })
            },
    {
        let rec = match self.contributions.get(&region_id) {
            Some(rec) => *rec,
            None => { return Err(Error::NotFound) },
        };
        proof {
            assert(old(self).contributions@.dom().contains(region_id));
            assert(rec.wf());
        }
        let ghost old_h = self.history@;
        let ghost w_int = rec.weight as int;
        let ghost stop = claim_stop(rec, self.now as int, max_timeslices as int);
        let mut cur: u32 = rec.next_claim;
        let mut steps: u32 = 0;
        let mut acc: u128 = 0;
        while steps < max_timeslices && cur < rec.end && cur < self.now
            invariant
                old(self).wf(),
                self.history.wf(),
                rec == old(self).contributions@[region_id],
                rec.wf(),
                w_int == rec.weight as int,
                old_h == old(self).history@,
                stop == claim_stop(rec, old(self).now as int, max_timeslices as int),
                rec.next_claim <= cur <= stop,
                steps == cur - rec.next_claim,
                acc as int == total_pay(old_h, w_int, rec.next_claim, cur),
                acc as int <= (steps as int) * (Balance::MAX as int),
                self.history@.dom() == old_h.dom(),
                forall|t: Timeslice|
                    #[trigger] old_h.dom().contains(t) ==> self.history@[t] == (if rec.next_claim
                        <= t < cur {
                        HistoryRecord {
                            undistributed: (old_h[t].undistributed - pay_for(old_h, w_int, t)) as u64,
                            ..old_h[t]
                        }
                    } else {
                        old_h[t]
                    }),
                *self == (Broker { history: self.history, ..*old(self) }),
            decreases stop - cur,
        {
            let t = cur;
            let mut pay: u64 = 0;
            let found = self.history.get(&t);
            match found {
                Some(hr) => {
                    let h = *hr;
                    proof {
                        assert(old_h.dom().contains(t));
                        assert(self.history@[t] == old_h[t]);
                        assert(old_h[t].wf());
                    }
                    if h.weight > 0 {
                        proof {
                            lemma_mul_upper_bound(
                                w_int,
                                0xffff_ffff,
                                h.revenue as int,
                                u64::MAX as int,
                            );
                        }
                        let share: u128 = (rec.weight as u128) * (h.revenue as u128) / (
                        h.weight as u128);
                        pay = if share > h.undistributed as u128 {
                            h.undistributed
                        } else {
                            share as u64
                        };
                        self.history.insert(
                            t,
                            HistoryRecord { undistributed: h.undistributed - pay, ..h },
                        );
                    }
                    proof {
                        assert(pay as int == pay_for(old_h, w_int, t));
                    }
                },
                None => {
                    proof {
                        assert(pay as int == pay_for(old_h, w_int, t));
                    }
                },
            }
            proof {
                lemma_total_pay_extend(old_h, w_int, rec.next_claim, cur);
                assert((steps as int + 1) * (Balance::MAX as int) == (steps as int) * (
                Balance::MAX as int) + Balance::MAX as int) by (nonlinear_arith);
                lemma_mul_upper_bound(
                    steps as int + 1,
                    0x1_0000_0000,
                    Balance::MAX as int,
                    u64::MAX as int,
                );
            }
            acc = acc + pay as u128;
            cur = cur + 1;
            steps = steps + 1;
        }
        proof {
            assert(cur == stop);
        }
        self.contributions.insert(region_id, ContributionRecord { next_claim: cur, ..rec });
        let total: u64 = if acc > Balance::MAX as u128 {
            Balance::MAX
        } else {
            acc as u64
        };
        self.ledger.credit(rec.payer, total);
        self.events.push(Event::RevenueClaimed { who: rec.payer, amount: total });
        Ok(())
    }

    /// Removes a pool contribution once the claim cursor has rested for
    /// the configured timeout, with no further payout obligation: revenue
    /// for elapsed, never-claimed timeslices is forfeited. Fails
    /// `NotConfigured` without a configuration, `NotFound` for an unknown
    /// contribution, and `Unavailable` while the timeout has not elapsed;
    /// a failed call has no effect.
    pub fn drop_contribution(&mut self, region_id: RegionId) -> (r: Result<(), Error>)
        requires
            old(self).wf(),
        ensures
            final(self).wf(),
            r == match old(self).config {
                None => Err::<(), Error>(Error::NotConfigured),
                Some(c) => if !old(self).contributions@.dom().contains(region_id) {
                    Err::<(), Error>(Error::NotFound)
                } else if old(self).now < old(self).contributions@[region_id].next_claim
                    + c.contribution_timeout {
                    Err::<(), Error>(Error::Unavailable)
                } else {
                    Ok::<(), Error>(())
                },
            },
            r.is_err() ==> *final(self) == *old(self),
            r.is_ok() ==> {
                &&& final(self).contributions@ == old(self).contributions@.remove(region_id)
                &&& final(self).events@ == old(self).events@.push(
                    Event::ContributionDropped { region_id },
                )
                &&& *final(self) == (Broker {
                    contributions: final(self).contributions,
                    events: final(self).events,
                    ..*old(self)
                })
            },
    {
        let c = match self.config {
            Some(c) => c,
            None => { return Err(Error::NotConfigured) },
        };
        let rec = match self.contributions.get(&region_id) {
            Some(rec) => *rec,
            None => { return Err(Error::NotFound) },
        };
        if (self.now as u64) < (rec.next_claim as u64) + (c.contribution_timeout as u64) {
            return Err(Error::Unavailable);
        }
        self.contributions.remove(&region_id);
        self.events.push(Event::ContributionDropped { region_id });
        Ok(())
    }
}

} // verus!
