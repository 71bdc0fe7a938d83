//! The engine's state and its administrative operations. All market state —
//! configuration, the open sale, regions, the workplan, renewal
//! eligibilities, pool contributions and history, the balance ledger and
//! the notification log — is explicit, so callers can build isolated
//! instances. Every operation is transactional: it validates all its
//! preconditions before mutating anything and aborts whole on the first
//! failure, and every successful market operation appends exactly one
//! notification to the event log (the setup calls that replace
//! configuration, reservations and leases record none).

use vstd::prelude::*;
use crate::ledger::Ledger;
use crate::storage_map::HookedMap;
use crate::types::{
    AccountId, Balance, ConfigRecord, ContributionRecord, CoreIndex, Error, Event,
    HistoryRecord, LeaseRecordItem, RegionId, RegionRecord, RenewalId, RenewalRecord,
    SaleInfo, Schedule, Timeslice, region_wf,
};

verus! {

/// The market engine: sale controller, region ledger, workplan scheduler,
/// renewal tracker and revenue pool over one explicit state. The fields
/// are public so hosts and tests can read the state directly; every
/// operation requires and preserves `wf()`.
pub struct Broker {
    /// The current timeslice; advances only forward.
    pub now: Timeslice,
    /// Number of schedulable cores available to sale cycles.
    pub core_count: CoreIndex,
    /// A requested new core count, applied at the next cycle rollover.
    pub pending_core_count: Option<CoreIndex>,
    /// Capacity bound of the reservation list.
    pub max_reserved_cores: usize,
    /// Capacity bound of the lease list.
    pub max_leased_cores: usize,
    /// Tunable parameters; absent until `configure` runs.
    pub config: Option<ConfigRecord>,
    /// The currently open sale cycle; absent until `start_sales` runs.
    pub sale: Option<SaleInfo>,
    /// Permanently reserved core schedules; they occupy cores before any
    /// sale logic runs.
    pub reservations: Vec<Schedule>,
    /// Long-term pre-allocations of whole cores to tasks.
    pub leases: Vec<LeaseRecordItem>,
    /// Live region records, keyed by region identity.
    pub regions: HookedMap<RegionId, RegionRecord>,
    /// Schedules awaiting execution, keyed by (begin timeslice, core).
    pub workplan: HookedMap<(Timeslice, CoreIndex), Schedule>,
    /// Renewal eligibilities, keyed by (core, cycle start).
    pub renewals: HookedMap<RenewalId, RenewalRecord>,
    /// Pool contributions, keyed by the pooled region's identity.
    pub contributions: HookedMap<RegionId, ContributionRecord>,
    /// Frozen pool state of elapsed timeslices.
    pub history: HookedMap<Timeslice, HistoryRecord>,
    /// The balance ledger the engine debits and credits.
    pub ledger: Ledger,
    /// Notifications emitted by successful operations, oldest first.
    pub events: Vec<Event>,
}

impl Broker {
    /// Well-formedness of the whole engine state.
    pub open spec fn wf(&self) -> bool {
        &&& self.regions.wf()
        &&& self.workplan.wf()
        &&& self.renewals.wf()
        &&& self.contributions.wf()
        &&& self.history.wf()
        &&& self.ledger.wf()
        &&& match self.config {
            Some(c) => c.wf(),
            None => true,
        }
        &&& match self.sale {
            Some(s) => s.wf() && self.config.is_some(),
            None => true,
        }
        &&& self.reservations@.len() <= self.max_reserved_cores
        &&& self.leases@.len() <= self.max_leased_cores
        &&& forall|i: int|
            0 <= i < self.reservations@.len() ==> (#[trigger] self.reservations@[i]).wf()
        &&& forall|id: RegionId|
            #[trigger] self.regions@.dom().contains(id) ==> region_wf(id, self.regions@[id])
        &&& forall|id: RegionId|
            #[trigger] self.contributions@.dom().contains(id) ==> self.contributions@[id].wf()
        &&& forall|t: Timeslice|
            #[trigger] self.history@.dom().contains(t) ==> self.history@[t].wf()
        &&& forall|k: (Timeslice, CoreIndex)|
            #[trigger] self.workplan@.dom().contains(k) ==> self.workplan@[k].wf()
    }

    /// The balance the engine's ledger holds for `who`.
    pub open spec fn spec_balance(&self, who: AccountId) -> int {
        self.ledger.spec_balance(who)
    }

    /// A fresh, unconfigured engine at timeslice zero with an empty ledger.
    pub fn new(max_reserved_cores: usize, max_leased_cores: usize) -> (r: Broker)
        ensures
            r.wf(),
            r.now == 0,
            r.core_count == 0,
            r.pending_core_count.is_none(),
            r.max_reserved_cores == max_reserved_cores,
            r.max_leased_cores == max_leased_cores,
            r.config.is_none(),
            r.sale.is_none(),
            r.reservations@ == Seq::<Schedule>::empty(),
            r.leases@ == Seq::<LeaseRecordItem>::empty(),
            r.regions@ == Map::<RegionId, RegionRecord>::empty(),
            r.workplan@ == Map::<(Timeslice, CoreIndex), Schedule>::empty(),
            r.renewals@ == Map::<RenewalId, RenewalRecord>::empty(),
            r.contributions@ == Map::<RegionId, ContributionRecord>::empty(),
            r.history@ == Map::<Timeslice, HistoryRecord>::empty(),
            r.ledger@ == Map::<AccountId, Balance>::empty(),
            r.events@ == Seq::<Event>::empty(),
    {
        Broker {
            now: 0,
            core_count: 0,
            pending_core_count: None,
            max_reserved_cores,
            max_leased_cores,
            config: None,
            sale: None,
            reservations: Vec::new(),
            leases: Vec::new(),
            regions: HookedMap::new(),
            workplan: HookedMap::new(),
            renewals: HookedMap::new(),
            contributions: HookedMap::new(),
            history: HookedMap::new(),
            ledger: Ledger::new(),
            events: Vec::new(),
        }
    }

    /// Replaces the configuration record. Always succeeds for well-formed
    /// input; consumers check for a configuration where they need one.
    pub fn configure(&mut self, record: ConfigRecord) -> (r: Result<(), Error>)
        requires
            old(self).wf(),
            record.wf(),
        ensures
            final(self).wf(),
            r == Ok::<(), Error>(()),
            *final(self) == (Broker { config: Some(record), ..*old(self) }),
    {
        self.config = Some(record);
        Ok(())
    }

    /// Appends a permanent reservation. Fails `Unavailable` exactly when
    /// the reservation list is at its capacity bound.
    pub fn reserve(&mut self, schedule: Schedule) -> (r: Result<(), Error>)
        requires
            old(self).wf(),
            schedule.wf(),
        ensures
            final(self).wf(),
            r == if old(self).reservations@.len() < old(self).max_reserved_cores {
                Ok::<(), Error>(())
            } else {
                Err::<(), Error>(Error::Unavailable)
            },
            r.is_ok() ==> final(self).reservations@ == old(self).reservations@.push(schedule)
                && *final(self) == (Broker {
                reservations: final(self).reservations,
                ..*old(self)
            }),
            r.is_err() ==> *final(self) == *old(self),
    {
        if self.reservations.len() < self.max_reserved_cores {
            self.reservations.push(schedule);
            Ok(())
        } else {
            Err(Error::Unavailable)
        }
    }

    /// Removes the reservation at `index`. Fails `NotFound` exactly when no
    /// such index exists.
    pub fn unreserve(&mut self, index: usize) -> (r: Result<(), Error>)
        requires
            old(self).wf(),
        ensures
            final(self).wf(),
            r == if index < old(self).reservations@.len() {
                Ok::<(), Error>(())
            } else {
                Err::<(), Error>(Error::NotFound)
            },
            r.is_ok() ==> final(self).reservations@ == old(self).reservations@.remove(index as int)
                && *final(self) == (Broker {
                reservations: final(self).reservations,
                ..*old(self)
            }),
            r.is_err() ==> *final(self) == *old(self),
    {
        if index < self.reservations.len() {
            self.reservations.remove(index);
            Ok(())
        } else {
            Err(Error::NotFound)
        }
    }

    /// Leases a core to `task` until `until`. Fails `Unavailable` exactly
    /// when the lease list is at its capacity bound or `until` is not in
    /// the future.
    pub fn set_lease(&mut self, task: u32, until: Timeslice) -> (r: Result<(), Error>)
        requires
            old(self).wf(),
        ensures
            final(self).wf(),
            r == if old(self).leases@.len() < old(self).max_leased_cores && until > old(self).now {
                Ok::<(), Error>(())
            } else {
                Err::<(), Error>(Error::Unavailable)
            },
            r.is_ok() ==> final(self).leases@ == old(self).leases@.push(
                LeaseRecordItem { task, until },
            ) && *final(self) == (Broker { leases: final(self).leases, ..*old(self) }),
            r.is_err() ==> *final(self) == *old(self),
    {
        if self.leases.len() < self.max_leased_cores && until > self.now {
            self.leases.push(LeaseRecordItem { task, until });
            Ok(())
        } else {
            Err(Error::Unavailable)
        }
    }

    /// Requests that future sale cycles work over `core_count` cores; the
    /// request is applied at the next cycle rollover. Always succeeds and
    /// emits the core-count-requested notification.
    pub fn request_core_count(&mut self, core_count: CoreIndex) -> (r: Result<(), Error>)
        requires
            old(self).wf(),
        ensures
            final(self).wf(),
            r == Ok::<(), Error>(()),
            final(self).events@ == old(self).events@.push(
                Event::CoreCountRequested { core_count },
            ),
            *final(self) == (Broker {
                pending_core_count: Some(core_count),
                events: final(self).events,
                ..*old(self)
            }),
    {
        self.pending_core_count = Some(core_count);
        self.events.push(Event::CoreCountRequested { core_count });
        Ok(())
    }

    /// Debits `who` locally and emits a notification recording `amount`
    /// credited to `beneficiary` on an external ledger: a one-way bridge
    /// that retains no local state. Fails `InsufficientFunds` exactly when
    /// the ledger cannot cover the amount; a failed call has no effect.
    pub fn purchase_credit(
        &mut self,
        who: AccountId,
        amount: Balance,
        beneficiary: AccountId,
    ) -> (r: Result<(), Error>)
        requires
            old(self).wf(),
        ensures
            final(self).wf(),
            r == if old(self).spec_balance(who) >= amount {
                Ok::<(), Error>(())
            } else {
                Err::<(), Error>(Error::InsufficientFunds)
            },
            r.is_ok() ==> final(self).ledger@ == old(self).ledger@.insert(
                who,
                (old(self).spec_balance(who) - amount) as Balance,
            ) && final(self).events@ == old(self).events@.push(
                Event::CreditPurchased { who, beneficiary, amount },
            ) && *final(self) == (Broker {
                ledger: final(self).ledger,
                events: final(self).events,
                ..*old(self)
            }),
            r.is_err() ==> final(self).ledger@ == old(self).ledger@ && *final(self) == (Broker {
                ledger: final(self).ledger,
                ..*old(self)
            }),
    {
        if self.ledger.debit(who, amount) {
            self.events.push(Event::CreditPurchased { who, beneficiary, amount });
            Ok(())
        } else {
            Err(Error::InsufficientFunds)
        }
    }
}

} // verus!
