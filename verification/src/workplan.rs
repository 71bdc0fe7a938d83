//! The workplan scheduler: assigning a region's workload or pooling its
//! capacity into the per-(timeslice, core) schedule, advancing the
//! timeslice, exposing the arriving schedules, pruning passed entries, and
//! freezing the pool weight of each arriving timeslice.

use vstd::prelude::*;
use vstd::math::min;
use crate::broker::Broker;
use crate::mask::{mask_weight, CoreMask, CORE_MASK_BITS};
use crate::revenue::{
    covered_weight, lemma_covered_weight_nonneg, lemma_covered_weight_remove, weight_of,
};
use crate::sale::{rollover_core_count, spec_rotated_sale, spec_sale_event};
use crate::types::{
    AccountId, ContributionRecord, CoreAssignment, CoreIndex, Error, Event, Finality,
    HistoryRecord, RegionId,
    RenewalId, RenewalRecord, Schedule, ScheduleItem, TaskId, Timeslice,
};

verus! {

/// Does `part` collide with any item of the sequence?
pub open spec fn overlaps_any(items: Seq<ScheduleItem>, part: CoreMask) -> bool {
    exists|i: int| 0 <= i < items.len() && !(#[trigger] items[i]).part.spec_disjoint(part)
}

/// The items currently planned under `key`; empty when no entry exists.
pub open spec fn plan_items(b: Broker, key: (Timeslice, CoreIndex)) -> Seq<ScheduleItem> {
    if b.workplan@.dom().contains(key) {
        b.workplan@[key].items@
    } else {
        Seq::<ScheduleItem>::empty()
    }
}

/// Is a finally assigned region eligible for renewal? It must be a
/// complete-mask region spanning exactly the open sale's region, with its
/// acquisition price still attached.
pub open spec fn renewal_eligible(b: Broker, region_id: RegionId) -> bool {
    match b.sale {
        Some(s) => {
            &&& region_id.part.spec_is_complete()
            &&& region_id.begin == s.region_begin
            &&& b.regions@[region_id].end == s.region_end
            &&& b.regions@[region_id].paid.is_some()
        },
        None => false,
    }
}

/// Copies a schedule's items.
fn cloned_items(s: &Schedule) -> (r: Vec<ScheduleItem>)
    ensures
        r@ == s.items@,
{
    let n = s.items.len();
    let mut r: Vec<ScheduleItem> = Vec::new();
    let mut i: usize = 0;
    while i < n
        invariant
            i <= n,
            n == s.items@.len(),
            r@ == s.items@.subrange(0, i as int),
        decreases n - i,
    {
        r.push(s.items[i]);
        proof {
            assert(r@ =~= s.items@.subrange(0, i as int + 1));
        }
        i = i + 1;
    }
    proof {
        assert(r@ =~= s.items@);
    }
    r
}

/// Does `part` collide with any item of the schedule?
fn overlaps(items: &Vec<ScheduleItem>, part: &CoreMask) -> (r: bool)
    ensures
        r == overlaps_any(items@, *part),
{
    let n = items.len();
    let mut i: usize = 0;
    while i < n
        invariant
            i <= n,
            n == items@.len(),
            forall|j: int| 0 <= j < i ==> (#[trigger] items@[j]).part.spec_disjoint(*part),
        decreases n - i,
    {
        if !items[i].part.disjoint(part) {
            return true;
        }
        i = i + 1;
    }
    false
}

impl Broker {
    /// The schedule items an assignment under `key` would join.
    fn planned_items(&self, key: (Timeslice, CoreIndex)) -> (r: Vec<ScheduleItem>)
        requires
            self.wf(),
        ensures
            r@ == plan_items(*self, key),
    {
        match self.workplan.get(&key) {
            Some(s) => cloned_items(s),
            None => Vec::new(),
        }
    }

    /// Plans the region's part under its (begin, core) key with the given
    /// assignment, shared by `assign` and `pool`. The caller has already
    /// settled ownership and expiry; this settles collision and capacity.
    fn plan(
        &mut self,
        region_id: RegionId,
        assignment: CoreAssignment,
    ) -> (r: Result<(), Error>)
        requires
            old(self).wf(),
            old(self).regions@.dom().contains(region_id),
        ensures
            final(self).wf(),
            r == if overlaps_any(plan_items(*old(self), (region_id.begin, region_id.core)),
                region_id.part,
            ) || plan_items(*old(self), (region_id.begin, region_id.core)).len()
                >= CORE_MASK_BITS as int {
                Err::<(), Error>(Error::Overlap)
            } else {
                Ok::<(), Error>(())
            },
            r.is_err() ==> *final(self) == *old(self),
            r.is_ok() ==> {
                let key = (region_id.begin, region_id.core);
                &&& final(self).workplan@ == old(self).workplan@.insert(
                    key,
                    final(self).workplan@[key],
                )
                &&& final(self).workplan@.dom().contains(key)
                &&& final(self).workplan@[key].items@ == plan_items(*old(self), key).push(
                    ScheduleItem { part: region_id.part, assignment },
                )
                &&& *final(self) == (Broker { workplan: final(self).workplan, ..*old(self) })
            },
    {
        let key = (region_id.begin, region_id.core);
        let mut items = self.planned_items(key);
        if overlaps(&items, &region_id.part) {
            return Err(Error::Overlap);
        }
        if items.len() >= CORE_MASK_BITS as usize {
            return Err(Error::Overlap);
        }
        items.push(ScheduleItem { part: region_id.part, assignment });
        self.workplan.insert(key, Schedule { items });
        Ok(())
    }

    /// Assigns `task` to the region's part from its begin timeslice on:
    /// inserts the task item into the workplan entry keyed by the region's
    /// (begin, core), merging with any existing items. A `Final`
    /// assignment consumes the region, locking it against further splits
    /// and transfers, and records renewal eligibility for the next cycle
    /// when the region spans the open sale's whole region with a complete
    /// mask and a known price. Fails `NotFound` for an unknown region,
    /// `NotOwner` when the caller does not own it, `Unavailable` once it
    /// has expired, and `Overlap` when its mask collides with an existing
    /// item or the schedule is full. A failed call has no effect.
    pub fn assign(
        &mut self,
        caller: AccountId,
        region_id: RegionId,
        task: TaskId,
        finality: Finality,
    ) -> (r: Result<(), Error>)
        requires
            old(self).wf(),
        ensures
            final(self).wf(),
            r == if !old(self).regions@.dom().contains(region_id) {
                Err::<(), Error>(Error::NotFound)
            } else if old(self).regions@[region_id].owner != caller {
                Err::<(), Error>(Error::NotOwner)
            } else if old(self).now >= old(self).regions@[region_id].end {
                Err::<(), Error>(Error::Unavailable)
            } else if overlaps_any(
                plan_items(*old(self), (region_id.begin, region_id.core)),
                region_id.part,
            ) || plan_items(*old(self), (region_id.begin, region_id.core)).len()
                >= CORE_MASK_BITS as int {
                Err::<(), Error>(Error::Overlap)
            } else {
                Ok::<(), Error>(())
            },
            r.is_err() ==> *final(self) == *old(self),
            r.is_ok() ==> {
                let key = (region_id.begin, region_id.core);
                let rec = old(self).regions@[region_id];
                &&& final(self).workplan@ == old(self).workplan@.insert(
                    key,
                    final(self).workplan@[key],
                )
                &&& final(self).workplan@.dom().contains(key)
                &&& final(self).workplan@[key].items@ == plan_items(*old(self), key).push(
                    ScheduleItem { part: region_id.part, assignment: CoreAssignment::Task(task) },
                )
                &&& final(self).regions@ == (if finality is Final {
                    old(self).regions@.remove(region_id)
                } else {
                    old(self).regions@
                })
                &&& final(self).renewals@ == (if finality is Final && renewal_eligible(
                    *old(self),
                    region_id,
                ) {
                    old(self).renewals@.insert(
                        RenewalId { core: region_id.core, when: rec.end },
                        RenewalRecord {
                            price: match rec.paid {
                                Some(p) => p,
                                None => 0,
                            },
                            task,
                        },
                    )
                } else {
                    old(self).renewals@
                })
                &&& final(self).events@ == old(self).events@.push(
                    Event::Assigned {
                        region_id,
                        task,
                        duration: (rec.end - region_id.begin) as u32,
                    },
                )
                &&& *final(self) == (Broker {
                    workplan: final(self).workplan,
                    regions: final(self).regions,
                    renewals: final(self).renewals,
                    events: final(self).events,
                    ..*old(self)
                })
            },
    {
        let rec = match self.regions.get(&region_id) {
            Some(rec) => *rec,
            None => { return Err(Error::NotFound) },
        };
        if rec.owner != caller {
            return Err(Error::NotOwner);
        }
        if self.now >= rec.end {
            return Err(Error::Unavailable);
        }
        match self.plan(region_id, CoreAssignment::Task(task)) {
            Ok(()) => {},
            Err(e) => { return Err(e) },
        }
        match finality {
            Finality::Final => {
                let eligible = match self.sale {
                    Some(s) => region_id.part.is_complete() && region_id.begin == s.region_begin
                        && rec.end == s.region_end && rec.paid.is_some(),
                    None => false,
                };
                if eligible {
                    let price = match rec.paid {
                        Some(p) => p,
                        None => 0,
                    };
                    self.renewals.insert(
                        RenewalId { core: region_id.core, when: rec.end },
                        RenewalRecord { price, task },
                    );
                }
                self.regions.remove(&region_id);
            },
            Finality::Provisional => {},
        }
        self.events.push(
            Event::Assigned { region_id, task, duration: rec.end - region_id.begin },
        );
        Ok(())
    }

    /// Contributes the region's part to the shared pool from its begin
    /// timeslice on: inserts the pool item into the workplan entry keyed
    /// by the region's (begin, core) and records a contribution crediting
    /// `payer` with the part's mask weight over the region's remaining
    /// span. A `Final` pool consumes the region. Fails `NotFound` for an
    /// unknown region, `NotOwner` when the caller does not own it,
    /// `Unavailable` once it has expired, and `Overlap` when its mask
    /// collides with an existing item or the schedule is full. A failed
    /// call has no effect.
    pub fn pool(
        &mut self,
        caller: AccountId,
        region_id: RegionId,
        payer: AccountId,
        finality: Finality,
    ) -> (r: Result<(), Error>)
        requires
            old(self).wf(),
        ensures
            final(self).wf(),
            r == if !old(self).regions@.dom().contains(region_id) {
                Err::<(), Error>(Error::NotFound)
            } else if old(self).regions@[region_id].owner != caller {
                Err::<(), Error>(Error::NotOwner)
            } else if old(self).now >= old(self).regions@[region_id].end {
                Err::<(), Error>(Error::Unavailable)
            } else if overlaps_any(
                plan_items(*old(self), (region_id.begin, region_id.core)),
                region_id.part,
            ) || plan_items(*old(self), (region_id.begin, region_id.core)).len()
                >= CORE_MASK_BITS as int {
                Err::<(), Error>(Error::Overlap)
            } else {
                Ok::<(), Error>(())
            },
            r.is_err() ==> *final(self) == *old(self),
            r.is_ok() ==> {
                let key = (region_id.begin, region_id.core);
                let rec = old(self).regions@[region_id];
                &&& final(self).workplan@ == old(self).workplan@.insert(
                    key,
                    final(self).workplan@[key],
                )
                &&& final(self).workplan@.dom().contains(key)
                &&& final(self).workplan@[key].items@ == plan_items(*old(self), key).push(
                    ScheduleItem { part: region_id.part, assignment: CoreAssignment::Pool },
                )
                &&& final(self).regions@ == (if finality is Final {
                    old(self).regions@.remove(region_id)
                } else {
                    old(self).regions@
                })
                &&& final(self).contributions@ == old(self).contributions@.insert(
                    region_id,
                    ContributionRecord {
                        end: rec.end,
                        next_claim: (if region_id.begin >= old(self).now {
                            region_id.begin
                        } else {
                            old(self).now
                        }),
                        weight: mask_weight(region_id.part) as u32,
                        payer,
                    },
                )
                &&& final(self).events@ == old(self).events@.push(
                    Event::Pooled { region_id, duration: (rec.end - region_id.begin) as u32 },
                )
                &&& *final(self) == (Broker {
                    workplan: final(self).workplan,
                    regions: final(self).regions,
                    contributions: final(self).contributions,
                    events: final(self).events,
                    ..*old(self)
                })
            },
    {
        let rec = match self.regions.get(&region_id) {
            Some(rec) => *rec,
            None => { return Err(Error::NotFound) },
        };
        if rec.owner != caller {
            return Err(Error::NotOwner);
        }
        if self.now >= rec.end {
            return Err(Error::Unavailable);
        }
        match self.plan(region_id, CoreAssignment::Pool) {
            Ok(()) => {},
            Err(e) => { return Err(e) },
        }
        let weight = region_id.part.count_ones();
        let next_claim = if region_id.begin >= self.now {
            region_id.begin
        } else {
            self.now
        };
        self.contributions.insert(
            region_id,
            ContributionRecord { end: rec.end, next_claim, weight, payer },
        );
        match finality {
            Finality::Final => {
                self.regions.remove(&region_id);
            },
            Finality::Provisional => {},
        }
        self.events.push(
            Event::Pooled { region_id, duration: rec.end - region_id.begin },
        );
        Ok(())
    }

    /// Total pooled mask weight covering `t`, saturated at the balance
    /// width: the denominator frozen into `t`'s pool history record.
    fn frozen_weight(&self, t: Timeslice) -> (w: u64)
        requires
            self.wf(),
        ensures
            w as int == min(covered_weight(self.contributions@, t), u64::MAX as int),
    {
        proof {
            self.contributions.lemma_wf_finite();
            lemma_covered_weight_nonneg(self.contributions@, t);
        }
        let ks = self.contributions.keys();
        let ghost m = self.contributions@;
        let ghost mut rem = m;
        let n = ks.len();
        let mut total: u64 = 0;
        let mut i: usize = 0;
        while i < n
            invariant
                self.wf(),
                m == self.contributions@,
                m.dom().finite(),
                rem.dom().finite(),
                i <= n,
                n == ks@.len(),
                ks@.no_duplicates(),
                forall|k: RegionId| #[trigger] ks@.contains(k) <==> m.dom().contains(k),
                forall|k: RegionId| #[trigger] rem.dom().contains(k) <==> (m.dom().contains(k)
                    && !ks@.subrange(0, i as int).contains(k)),
                forall|k: RegionId| #[trigger] rem.dom().contains(k) ==> rem[k] == m[k],
                0 <= covered_weight(rem, t) <= covered_weight(m, t),
                total as int == min(covered_weight(m, t) - covered_weight(rem, t), u64::MAX as int),
            decreases n - i,
        {
            let k = ks[i];
            proof {
                assert(ks@.contains(k));
                assert(!ks@.subrange(0, i as int).contains(k)) by {
                    if ks@.subrange(0, i as int).contains(k) {
                        let j = choose|j: int|
                            0 <= j < i && ks@.subrange(0, i as int)[j] == k;
                        assert(ks@[j] == k);
                        assert(ks@[i as int] == k);
                    }
                }
                assert(rem.dom().contains(k));
                lemma_covered_weight_remove(rem, t, k);
                lemma_covered_weight_nonneg(rem.remove(k), t);
            }
            let rec = match self.contributions.get(&k) {
                Some(rc) => *rc,
                None => {
                    proof {
                        assert(false);
                    }
                    ContributionRecord { end: 0, next_claim: 0, weight: 0, payer: 0 }
                },
            };
            let add: u64 = if rec.next_claim <= t && t < rec.end {
                rec.weight as u64
            } else {
                0
            };
            proof {
                assert(weight_of(rem, k, t) == add as int);
            }
            total = if total > u64::MAX - add {
                u64::MAX
            } else {
                total + add
            };
            proof {
                assert forall|k2: RegionId|
                    ks@.subrange(0, i as int + 1).contains(k2) <==> (ks@.subrange(
                        0,
                        i as int,
                    ).contains(k2) || k2 == ks@[i as int]) by {
                    if ks@.subrange(0, i as int + 1).contains(k2) {
                        let j = choose|j: int|
                            0 <= j < i + 1 && #[trigger] ks@.subrange(0, i as int + 1)[j] == k2;
                        if j < i {
                            assert(ks@.subrange(0, i as int)[j] == k2);
                        }
                    }
                    if ks@.subrange(0, i as int).contains(k2) {
                        let j = choose|j: int| 0 <= j < i && ks@.subrange(0, i as int)[j] == k2;
                        assert(ks@.subrange(0, i as int + 1)[j] == k2);
                    }
                    if k2 == ks@[i as int] {
                        assert(ks@.subrange(0, i as int + 1)[i as int] == k2);
                    }
                }
                rem = rem.remove(k);
            }
            i = i + 1;
        }
        proof {
            assert(ks@.subrange(0, n as int) =~= ks@);
            assert(rem.dom() =~= Set::<RegionId>::empty());
            assert(covered_weight(rem, t) == 0);
        }
        total
    }

    /// Advances to the next timeslice: freezes the arriving timeslice's
    /// pool weight into its history record, hands back the schedules keyed
    /// to begin at it, prunes workplan entries whose timeslice has passed,
    /// and rolls the sale over once the advance notice reaches the open
    /// sale's region end and the next cycle's times are representable.
    /// Invoked once per advancing timeslice, in timeslice order, before
    /// any operation that depends on the current timeslice.
    pub fn on_new_timeslice(&mut self) -> (r: Vec<(CoreIndex, Schedule)>)
        requires
            old(self).wf(),
            old(self).now < Timeslice::MAX,
            old(self).max_reserved_cores + old(self).max_leased_cores <= CoreIndex::MAX,
        ensures
            final(self).wf(),
            final(self).now == old(self).now + 1,
            final(self).history@ == old(self).history@.insert(
                (old(self).now + 1) as u32,
                HistoryRecord {
                    weight: min(
                        covered_weight(old(self).contributions@, (old(self).now + 1) as u32),
                        u64::MAX as int,
                    ) as u64,
                    revenue: 0,
                    undistributed: 0,
                },
            ),
            // Entries whose timeslice has passed are removed; the rest keep
            // their schedules.
            forall|k: (Timeslice, CoreIndex)| #[trigger] final(self).workplan@.dom().contains(k)
                <==> (old(self).workplan@.dom().contains(k) && k.0 >= old(self).now + 1),
            forall|k: (Timeslice, CoreIndex)| #[trigger] final(self).workplan@.dom().contains(k)
                ==> final(self).workplan@[k] == old(self).workplan@[k],
            // The result exposes exactly the schedules of the arriving
            // timeslice.
            forall|p: int|
                0 <= p < r@.len() ==> old(self).workplan@.dom().contains(
                    (((old(self).now + 1) as u32, (#[trigger] r@[p]).0)),
                ) && r@[p].1.items@ == old(self).workplan@[(
                    (old(self).now + 1) as u32,
                    r@[p].0,
                )].items@,
            forall|core: CoreIndex|
                #[trigger] old(self).workplan@.dom().contains(
                    (((old(self).now + 1) as u32, core)),
                ) ==> exists|p: int| 0 <= p < r@.len() && r@[p].0 == core,
            // The sale rolls over once the advance notice reaches its
            // region end, with demand-responsive pricing; otherwise it is
            // untouched.
            match (old(self).sale, old(self).config) {
                (Some(s), Some(c)) => {
                    if old(self).now + 1 + c.advance_notice >= s.region_end && s.region_end
                        + c.region_length <= Timeslice::MAX {
                        let s1 = spec_rotated_sale(
                            s,
                            c,
                            old(self).spec_occupied(),
                            rollover_core_count(*old(self)),
                            old(self).now + 1,
                        );
                        &&& final(self).sale == Some(s1)
                        &&& final(self).core_count as int == rollover_core_count(*old(self))
                        &&& final(self).pending_core_count.is_none()
                        &&& final(self).events@ == old(self).events@.push(spec_sale_event(s1))
                    } else {
                        &&& final(self).sale == old(self).sale
                        &&& final(self).core_count == old(self).core_count
                        &&& final(self).pending_core_count == old(self).pending_core_count
                        &&& final(self).events@ == old(self).events@
                    }
                },
                _ => {
                    &&& final(self).sale == old(self).sale
                    &&& final(self).core_count == old(self).core_count
                    &&& final(self).pending_core_count == old(self).pending_core_count
                    &&& final(self).events@ == old(self).events@
                },
            },
            *final(self) == (Broker {
                now: final(self).now,
                sale: final(self).sale,
                core_count: final(self).core_count,
                pending_core_count: final(self).pending_core_count,
                workplan: final(self).workplan,
                history: final(self).history,
                events: final(self).events,
                ..*old(self)
            }),
    {
        let t: u32 = self.now + 1;
        let w = self.frozen_weight(t);
        self.now = t;
        self.history.insert(t, HistoryRecord { weight: w, revenue: 0, undistributed: 0 });
        let keys = self.workplan.keys();
        let n = keys.len();
        let ghost snap = *self;
        let mut out: Vec<(CoreIndex, Schedule)> = Vec::new();
        let mut i: usize = 0;
        while i < n
            invariant
                *self == snap,
                snap.wf(),
                t == snap.now,
                n == keys@.len(),
                i <= n,
                forall|k: (Timeslice, CoreIndex)| #[trigger] keys@.contains(k)
                    <==> snap.workplan@.dom().contains(k),
                forall|p: int|
                    0 <= p < out@.len() ==> snap.workplan@.dom().contains(
                        ((t, (#[trigger] out@[p]).0)),
                    ) && out@[p].1.items@ == snap.workplan@[(t, out@[p].0)].items@,
                forall|j: int|
                    0 <= j < i && (#[trigger] keys@[j]).0 == t ==> exists|p: int|
                        0 <= p < out@.len() && out@[p].0 == keys@[j].1,
            decreases n - i,
        {
            let k = keys[i];
            if k.0 == t {
                proof {
                    assert(keys@.contains(k));
                }
                let ghost out0 = out@;
                match self.workplan.get(&k) {
                    Some(s) => {
                        let items = cloned_items(s);
                        out.push((k.1, Schedule { items }));
                    },
                    None => {
                        proof {
                            assert(false);
                        }
                    },
                }
                proof {
                    assert forall|j: int|
                        0 <= j < i as int + 1 && (#[trigger] keys@[j]).0 == t
                            implies exists|p: int|
                            0 <= p < out@.len() && out@[p].0 == keys@[j].1 by {
                        if j < i as int {
                            let p = choose|p: int|
                                0 <= p < out0.len() && out0[p].0 == keys@[j].1;
                            assert(out@[p] == out0[p]);
                            assert(out@[p].0 == keys@[j].1);
                        } else {
                            assert(out@[out@.len() - 1].0 == k.1);
                        }
                    }
                }
            }
            i = i + 1;
        }
        proof {
            assert forall|core: CoreIndex| #[trigger] snap.workplan@.dom().contains(
                ((t, core)),
            ) implies exists|p: int| 0 <= p < out@.len() && out@[p].0 == core by {
                assert(keys@.contains((t, core)));
                let j = choose|j: int| 0 <= j < keys@.len() && keys@[j] == (t, core);
                assert(keys@[j].0 == t);
            }
        }
        let ghost wp0 = self.workplan@;
        let mut i2: usize = 0;
        while i2 < n
            invariant
                self.workplan.wf(),
                *self == (Broker { workplan: self.workplan, ..snap }),
                snap.wf(),
                t == snap.now,
                wp0 == snap.workplan@,
                n == keys@.len(),
                i2 <= n,
                keys@.no_duplicates(),
                forall|k: (Timeslice, CoreIndex)| #[trigger] keys@.contains(k)
                    <==> wp0.dom().contains(k),
                forall|k: (Timeslice, CoreIndex)| #[trigger] self.workplan@.dom().contains(k)
                    ==> wp0.dom().contains(k) && self.workplan@[k] == wp0[k],
                forall|k: (Timeslice, CoreIndex)| #[trigger] wp0.dom().contains(k) && k.0 >= t
                    ==> self.workplan@.dom().contains(k),
                forall|j: int|
                    0 <= j < i2 && (#[trigger] keys@[j]).0 < t ==> !self.workplan@.dom().contains(
                        keys@[j],
                    ),
                forall|j: int|
                    i2 <= j < n && wp0.dom().contains(#[trigger] keys@[j])
                        ==> self.workplan@.dom().contains(keys@[j]),
            decreases n - i2,
        {
            let k = keys[i2];
            if k.0 < t {
                self.workplan.remove(&k);
                proof {
                    assert forall|j: int|
                        i2 + 1 <= j < n && wp0.dom().contains(#[trigger] keys@[j])
                            implies self.workplan@.dom().contains(keys@[j]) by {
                        assert(keys@[j] != keys@[i2 as int]);
                    }
                }
            }
            i2 = i2 + 1;
        }
        proof {
            assert forall|k: (Timeslice, CoreIndex)| #[trigger] self.workplan@.dom().contains(k)
                implies (wp0.dom().contains(k) && k.0 >= t) by {
                if k.0 < t {
                    assert(keys@.contains(k));
                    let j = choose|j: int| 0 <= j < keys@.len() && keys@[j] == k;
                    assert(keys@[j].0 < t);
                }
            }
        }
        let rotate = match (self.sale, self.config) {
            (Some(s), Some(c)) => (t as u64) + (c.advance_notice as u64) >= (s.region_end as u64)
                && (s.region_end as u64) + (c.region_length as u64) <= (Timeslice::MAX as u64),
            _ => false,
        };
        if rotate {
            self.rotate_sale();
        }
        out
    }
}

} // verus!
