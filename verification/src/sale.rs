//! The sale controller: starting the bulk sale, purchasing at the current
//! price, renewing an assignment without auction, and rolling one sale
//! cycle over into the next with demand-responsive price feedback.

use vstd::prelude::*;
use vstd::math::min;
use crate::broker::Broker;
use crate::mask::{CoreMask, COMPLETE_MASK};
use crate::price::{
    current_sale_price, lemma_ppb_fraction_le, lowered_price, sale_price_at, sat_bumped_price,
    bump_price_down, bump_price_up,
};
use crate::types::{
    AccountId, Balance, ConfigRecord, CoreAssignment, CoreIndex, Error, Event, RegionId,
    RegionRecord, RenewalId, RenewalRecord, SaleInfo, Schedule, ScheduleItem, Timeslice,
    BILLION,
};

verus! {

/// The cap a configuration places on the number of cores offered.
pub open spec fn spec_limit(c: ConfigRecord) -> int {
    match c.limit_cores_offered {
        Some(l) => l as int,
        None => CoreIndex::MAX as int,
    }
}

/// The first core index a sale allocates from: the cores occupied by
/// reservations and leases, capped at the core count.
pub open spec fn spec_first_core(occupied: int, total: int) -> int {
    min(occupied, total)
}

/// How many cores a sale offers: what reservations and leases leave free,
/// floored at zero and capped by the configured limit.
pub open spec fn spec_offered(c: ConfigRecord, occupied: int, total: int) -> int {
    min(total - spec_first_core(occupied, total), spec_limit(c))
}

/// The ideal number of cores sold: the configured proportion of the offer.
pub open spec fn spec_ideal(c: ConfigRecord, offered: int) -> int {
    (offered * c.ideal_bulk_proportion) / (BILLION as int)
}

/// The sale record `start_sales` publishes.
pub open spec fn spec_sale_setup(
    now: int,
    c: ConfigRecord,
    initial_price: int,
    occupied: int,
    total: int,
) -> SaleInfo {
    let offered = spec_offered(c, occupied, total);
    SaleInfo {
        sale_start: (now + c.advance_notice) as u32,
        leadin_length: c.leadin_length,
        start_price: (2 * initial_price) as u64,
        regular_price: initial_price as u64,
        region_begin: (now + c.advance_notice + c.interlude_length + c.leadin_length) as u32,
        region_end: (now + c.advance_notice + c.interlude_length + c.leadin_length
            + c.region_length) as u32,
        first_core: spec_first_core(occupied, total) as u16,
        ideal_cores_sold: spec_ideal(c, offered) as u16,
        cores_offered: offered as u16,
        cores_sold: 0,
        sellout_price: None,
    }
}

/// The next cycle's regular price: the prior regular price, raised by the
/// renewal bump when demand met or exceeded the ideal proportion and
/// lowered by it otherwise.
pub open spec fn spec_next_regular_price(s: SaleInfo, c: ConfigRecord) -> int {
    if s.cores_sold >= s.ideal_cores_sold {
        sat_bumped_price(s.regular_price as int, c.renewal_bump as int)
    } else {
        lowered_price(s.regular_price as int, c.renewal_bump as int)
    }
}

/// The sale record a cycle rollover publishes: the new region follows the
/// old one without gap, and the regular price follows demand.
pub open spec fn spec_rotated_sale(
    s: SaleInfo,
    c: ConfigRecord,
    occupied: int,
    total: int,
    now: int,
) -> SaleInfo {
    let regular = spec_next_regular_price(s, c);
    let offered = spec_offered(c, occupied, total);
    SaleInfo {
        sale_start: min(now, s.region_end as int) as u32,
        leadin_length: c.leadin_length,
        start_price: min(2 * regular, Balance::MAX as int) as u64,
        regular_price: regular as u64,
        region_begin: s.region_end,
        region_end: (s.region_end + c.region_length) as u32,
        first_core: spec_first_core(occupied, total) as u16,
        ideal_cores_sold: spec_ideal(c, offered) as u16,
        cores_offered: offered as u16,
        cores_sold: 0,
        sellout_price: None,
    }
}

/// The sale-initialized notification for a sale record.
pub open spec fn spec_sale_event(s: SaleInfo) -> Event {
    Event::SaleInitialized {
        sale_start: s.sale_start,
        leadin_length: s.leadin_length,
        start_price: s.start_price,
        regular_price: s.regular_price,
        region_begin: s.region_begin,
        region_end: s.region_end,
        ideal_cores_sold: s.ideal_cores_sold,
        cores_offered: s.cores_offered,
    }
}

impl Broker {
    /// Cores occupied before any sale logic runs: the reservation and
    /// lease counts together.
    pub open spec fn spec_occupied(&self) -> int {
        self.reservations@.len() + self.leases@.len() as int
    }

    /// Computes the core accounting of a new sale over `total` cores:
    /// first allocatable core, cores offered, and the ideal sale count.
    fn core_alloc(&self, c: &ConfigRecord, total: CoreIndex) -> (r: (CoreIndex, CoreIndex, CoreIndex))
        requires
            self.wf(),
            c.wf(),
            self.max_reserved_cores + self.max_leased_cores <= CoreIndex::MAX,
        ensures
            r.0 as int == spec_first_core(self.spec_occupied(), total as int),
            r.1 as int == spec_offered(*c, self.spec_occupied(), total as int),
            r.2 as int == spec_ideal(*c, spec_offered(*c, self.spec_occupied(), total as int)),
    {
        let occupied: usize = self.reservations.len() + self.leases.len();
        let first: u16 = if occupied <= total as usize {
            occupied as u16
        } else {
            total
        };
        let avail: u16 = total - first;
        let limit: u16 = match c.limit_cores_offered {
            Some(l) => l,
            None => CoreIndex::MAX,
        };
        let offered: u16 = if avail <= limit {
            avail
        } else {
            limit
        };
        proof {
            lemma_ppb_fraction_le(offered as int, c.ideal_bulk_proportion as int);
        }
        let ideal: u64 = (offered as u64) * (c.ideal_bulk_proportion as u64) / (BILLION as u64);
        (first, offered, ideal as u16)
    }

    /// Begins the rolling sale cycles. Publishes the first sale: it opens
    /// `advance_notice` after now, sells the region that starts after the
    /// interlude and leadin, offers what reservations and leases leave of
    /// `total_core_count`, and opens the leadin at twice `initial_price`.
    /// Fails `NotConfigured` without a configuration and `Unavailable` when
    /// a sale is already running; a failed call has no effect.
    pub fn start_sales(&mut self, initial_price: Balance, total_core_count: CoreIndex) -> (r:
        Result<(), Error>)
        requires
            old(self).wf(),
            2 * initial_price <= Balance::MAX,
            old(self).max_reserved_cores + old(self).max_leased_cores <= CoreIndex::MAX,
            old(self).config matches Some(c) ==> old(self).now + c.advance_notice
                + c.interlude_length + c.leadin_length + c.region_length <= Timeslice::MAX,
        ensures
            final(self).wf(),
            r == if old(self).config.is_none() {
                Err::<(), Error>(Error::NotConfigured)
            } else if old(self).sale.is_some() {
                Err::<(), Error>(Error::Unavailable)
            } else {
                Ok::<(), Error>(())
            },
            r.is_err() ==> *final(self) == *old(self),
            old(self).config matches Some(c) ==> r.is_ok() ==> {
                let s = spec_sale_setup(
                    old(self).now as int,
                    c,
                    initial_price as int,
                    old(self).spec_occupied(),
                    total_core_count as int,
                );
                &&& final(self).sale == Some(s)
                &&& final(self).core_count == total_core_count
                &&& final(self).events@ == old(self).events@.push(spec_sale_event(s))
                &&& *final(self) == (Broker {
                    sale: final(self).sale,
                    core_count: final(self).core_count,
                    events: final(self).events,
                    ..*old(self)
                })
            },
    {
        let c = match self.config {
            Some(c) => c,
            None => { return Err(Error::NotConfigured) },
        };
        if self.sale.is_some() {
            return Err(Error::Unavailable);
        }
        let (first, offered, ideal) = self.core_alloc(&c, total_core_count);
        let sale_start: u32 = self.now + c.advance_notice;
        let region_begin: u32 = sale_start + c.interlude_length + c.leadin_length;
        let region_end: u32 = region_begin + c.region_length;
        let s = SaleInfo {
            sale_start,
            leadin_length: c.leadin_length,
            start_price: 2 * initial_price,
            regular_price: initial_price,
            region_begin,
            region_end,
            first_core: first,
            ideal_cores_sold: ideal,
            cores_offered: offered,
            cores_sold: 0,
            sellout_price: None,
        };
        self.sale = Some(s);
        self.core_count = total_core_count;
        self.events.push(
            Event::SaleInitialized {
                sale_start: s.sale_start,
                leadin_length: s.leadin_length,
                start_price: s.start_price,
                regular_price: s.regular_price,
                region_begin: s.region_begin,
                region_end: s.region_end,
                ideal_cores_sold: s.ideal_cores_sold,
                cores_offered: s.cores_offered,
            },
        );
        Ok(())
    }

    /// The price a purchase would pay now. Fails `Unavailable` when no
    /// sale is open or the sale has not started yet.
    pub fn sale_price(&self) -> (r: Result<Balance, Error>)
        requires
            self.wf(),
        ensures
            match self.sale {
                None => r == Err::<Balance, Error>(Error::Unavailable),
                Some(s) => if self.now < s.sale_start {
                    r == Err::<Balance, Error>(Error::Unavailable)
                } else {
                    r == Ok::<Balance, Error>(sale_price_at(s, self.now as int) as u64)
                },
            },
    {
        let s = match self.sale {
            Some(s) => s,
            None => { return Err(Error::Unavailable) },
        };
        if self.now < s.sale_start {
            return Err(Error::Unavailable);
        }
        Ok(current_sale_price(&s, self.now))
    }

    /// Buys the next unsold core of the open sale at the current price:
    /// debits the buyer, creates a complete-mask region over the sale's
    /// whole region span, and counts the sale. The purchase that first
    /// exhausts the offer records the sellout price, exactly once per
    /// cycle. Fails `Unavailable` when no sale is open, the current
    /// timeslice lies outside `[sale_start, region_end)`, or the offer is
    /// exhausted; `Overpriced` when the current price exceeds `max_price`;
    /// `InsufficientFunds` when the buyer cannot pay. A failed call has no
    /// effect.
    pub fn purchase(&mut self, who: AccountId, max_price: Balance) -> (r: Result<RegionId, Error>)
        requires
            old(self).wf(),
        ensures
            final(self).wf(),
            match old(self).sale {
                None => r == Err::<RegionId, Error>(Error::Unavailable),
                Some(s) => {
                    let price = sale_price_at(s, old(self).now as int);
                    if !(s.sale_start <= old(self).now < s.region_end) {
                        r == Err::<RegionId, Error>(Error::Unavailable)
                    } else if s.cores_sold >= s.cores_offered {
                        r == Err::<RegionId, Error>(Error::Unavailable)
                    } else if price > max_price {
                        r == Err::<RegionId, Error>(Error::Overpriced)
                    } else if old(self).spec_balance(who) < price {
                        r == Err::<RegionId, Error>(Error::InsufficientFunds)
                    } else {
                        r == Ok::<RegionId, Error>(
                            RegionId {
                                begin: s.region_begin,
                                core: (s.first_core + s.cores_sold) as u16,
                                part: CoreMask { bits: COMPLETE_MASK },
                            },
                        )
                    }
                },
            },
            r.is_err() ==> final(self).ledger@ == old(self).ledger@ && *final(self) == (Broker {
                ledger: final(self).ledger,
                ..*old(self)
            }),
            r matches Ok(id) ==> old(self).sale matches Some(s) && {
                let price = sale_price_at(s, old(self).now as int);
                let rec = RegionRecord { end: s.region_end, owner: who, paid: Some(price as u64) };
                let sold1 = s.cores_sold + 1;
                let s1 = SaleInfo {
                    cores_sold: sold1 as u16,
                    sellout_price: if sold1 == s.cores_offered && s.sellout_price.is_none() {
                        Some(price as u64)
                    } else {
                        s.sellout_price
                    },
                    ..s
                };
                &&& final(self).sale == Some(s1)
                &&& final(self).regions@ == old(self).regions@.insert(id, rec)
                &&& final(self).ledger@ == old(self).ledger@.insert(
                    who,
                    (old(self).spec_balance(who) - price) as u64,
                )
                &&& final(self).events@ == old(self).events@.push(
                    Event::Purchased {
                        who,
                        region_id: id,
                        price: price as u64,
                        duration: (s.region_end - s.region_begin) as u32,
                    },
                )
                &&& *final(self) == (Broker {
                    sale: final(self).sale,
                    regions: final(self).regions,
                    ledger: final(self).ledger,
                    events: final(self).events,
                    ..*old(self)
                })
            },
            // Within a sale, cores sold never decrease and never exceed the offer.
            match (old(self).sale, final(self).sale) {
                (Some(s), Some(s2)) => s.cores_sold <= s2.cores_sold <= s2.cores_offered
                    && s2.cores_offered == s.cores_offered,
                _ => true,
            },
            // A recorded sellout price is never changed.
            match (old(self).sale, final(self).sale) {
                (Some(s), Some(s2)) => s.sellout_price.is_some() ==> s2.sellout_price
                    == s.sellout_price,
                _ => true,
            },
            // It is recorded exactly by the purchase that first exhausts the offer.
            match (old(self).sale, final(self).sale) {
                (Some(s), Some(s2)) => r.is_ok() ==> (s2.sellout_price != s.sellout_price <==> (
                s.sellout_price.is_none() && s.cores_sold + 1 == s.cores_offered)),
                _ => true,
            },
    {
        let s = match self.sale {
            Some(s) => s,
            None => { return Err(Error::Unavailable) },
        };
        if self.now < s.sale_start || self.now >= s.region_end {
            return Err(Error::Unavailable);
        }
        if s.cores_sold >= s.cores_offered {
            return Err(Error::Unavailable);
        }
        let price = current_sale_price(&s, self.now);
        if price > max_price {
            return Err(Error::Overpriced);
        }
        if !self.ledger.debit(who, price) {
            return Err(Error::InsufficientFunds);
        }
        let core: u16 = s.first_core + s.cores_sold;
        let id = RegionId { begin: s.region_begin, core, part: CoreMask::complete() };
        let rec = RegionRecord { end: s.region_end, owner: who, paid: Some(price) };
        self.regions.insert(id, rec);
        let sold1: u16 = s.cores_sold + 1;
        let sellout = if sold1 == s.cores_offered && s.sellout_price.is_none() {
            Some(price)
        } else {
            s.sellout_price
        };
        self.sale = Some(SaleInfo { cores_sold: sold1, sellout_price: sellout, ..s });
        self.events.push(
            Event::Purchased {
                who,
                region_id: id,
                price,
                duration: s.region_end - s.region_begin,
            },
        );
        Ok(id)
    }

    /// Renews a core's assignment into the open sale's cycle without
    /// auction: consumes the eligibility keyed by (core, cycle start),
    /// charges the previous price raised by the renewal bump, creates the
    /// region, locks its workload into the workplan, and records the
    /// eligibility for the cycle after. Fails `NotAllowed` when no sale is
    /// open or no eligibility exists; `InsufficientFunds` when the caller
    /// cannot pay. A failed call has no effect.
    pub fn renew(&mut self, who: AccountId, core: CoreIndex) -> (r: Result<RegionId, Error>)
        requires
            old(self).wf(),
        ensures
            final(self).wf(),
            match old(self).sale {
                None => r == Err::<RegionId, Error>(Error::NotAllowed),
                Some(s) => {
                    let key = RenewalId { core, when: s.region_begin };
                    if !old(self).renewals@.dom().contains(key) {
                        r == Err::<RegionId, Error>(Error::NotAllowed)
                    } else if old(self).spec_balance(who) < sat_bumped_price(
                        old(self).renewals@[key].price as int,
                        renewal_bump_of(*old(self)),
                    ) {
                        r == Err::<RegionId, Error>(Error::InsufficientFunds)
                    } else {
                        r == Ok::<RegionId, Error>(
                            RegionId {
                                begin: s.region_begin,
                                core,
                                part: CoreMask { bits: COMPLETE_MASK },
                            },
                        )
                    }
                },
            },
            r.is_err() ==> final(self).ledger@ == old(self).ledger@ && *final(self) == (Broker {
                ledger: final(self).ledger,
                ..*old(self)
            }),
            r matches Ok(id) ==> old(self).sale matches Some(s) && {
                let key = RenewalId { core, when: s.region_begin };
                let prior = old(self).renewals@[key];
                let price = sat_bumped_price(prior.price as int, renewal_bump_of(*old(self)));
                let rec = RegionRecord { end: s.region_end, owner: who, paid: Some(price as u64) };
                let wkey = (s.region_begin, core);
                let nkey = RenewalId { core, when: s.region_end };
                &&& final(self).regions@ == old(self).regions@.insert(id, rec)
                &&& final(self).renewals@ == old(self).renewals@.remove(key).insert(
                    nkey,
                    RenewalRecord { price: price as u64, task: prior.task },
                )
                &&& final(self).workplan@ == old(self).workplan@.insert(
                    wkey,
                    final(self).workplan@[wkey],
                )
                &&& final(self).workplan@.dom().contains(wkey)
                &&& final(self).workplan@[wkey].items@ == seq![
                    ScheduleItem {
                        part: CoreMask { bits: COMPLETE_MASK },
                        assignment: CoreAssignment::Task(prior.task),
                    },
                ]
                &&& final(self).ledger@ == old(self).ledger@.insert(
                    who,
                    (old(self).spec_balance(who) - price) as u64,
                )
                &&& final(self).events@ == old(self).events@.push(
                    Event::Renewed {
                        who,
                        region_id: id,
                        price: price as u64,
                        duration: (s.region_end - s.region_begin) as u32,
                    },
                )
                &&& *final(self) == (Broker {
                    regions: final(self).regions,
                    renewals: final(self).renewals,
                    workplan: final(self).workplan,
                    ledger: final(self).ledger,
                    events: final(self).events,
                    ..*old(self)
                })
            },
    {
        let s = match self.sale {
            Some(s) => s,
            None => { return Err(Error::NotAllowed) },
        };
        let c = match self.config {
            Some(c) => c,
            None => { return Err(Error::NotAllowed) },
        };
        let key = RenewalId { core, when: s.region_begin };
        let prior = match self.renewals.get(&key) {
            Some(p) => *p,
            None => { return Err(Error::NotAllowed) },
        };
        let price = bump_price_up(prior.price, c.renewal_bump);
        if !self.ledger.debit(who, price) {
            return Err(Error::InsufficientFunds);
        }
        let id = RegionId { begin: s.region_begin, core, part: CoreMask::complete() };
        let rec = RegionRecord { end: s.region_end, owner: who, paid: Some(price) };
        self.regions.insert(id, rec);
        self.renewals.remove(&key);
        self.renewals.insert(
            RenewalId { core, when: s.region_end },
            RenewalRecord { price, task: prior.task },
        );
        let mut items: Vec<ScheduleItem> = Vec::new();
        items.push(
            ScheduleItem { part: CoreMask::complete(), assignment: CoreAssignment::Task(prior.task) },
        );
        let sched = Schedule { items };
        self.workplan.insert((s.region_begin, core), sched);
        self.events.push(
            Event::Renewed {
                who,
                region_id: id,
                price,
                duration: s.region_end - s.region_begin,
            },
        );
        Ok(id)
    }

    /// Rolls the open sale over into the next cycle: the new region
    /// follows the old without gap, the regular price follows demand, and
    /// a pending core-count request takes effect. Publishes the new sale.
    pub(crate) fn rotate_sale(&mut self)
        requires
            old(self).wf(),
            old(self).sale.is_some(),
            old(self).max_reserved_cores + old(self).max_leased_cores <= CoreIndex::MAX,
            old(self).sale matches Some(s) && old(self).config matches Some(c) ==> s.region_end
                + c.region_length <= Timeslice::MAX,
        ensures
            final(self).wf(),
            old(self).sale matches Some(s) && old(self).config matches Some(c) ==> {
                let total = rollover_core_count(*old(self));
                let s1 = spec_rotated_sale(
                    s,
                    c,
                    old(self).spec_occupied(),
                    total,
                    old(self).now as int,
                );
                &&& final(self).sale == Some(s1)
                &&& final(self).core_count as int == total
                &&& final(self).pending_core_count.is_none()
                &&& final(self).events@ == old(self).events@.push(spec_sale_event(s1))
                &&& *final(self) == (Broker {
                    sale: final(self).sale,
                    core_count: final(self).core_count,
                    pending_core_count: final(self).pending_core_count,
                    events: final(self).events,
                    ..*old(self)
                })
            },
    {
        let s = match self.sale {
            Some(s) => s,
            None => { return },
        };
        let c = match self.config {
            Some(c) => c,
            None => { return },
        };
        let total: u16 = match self.pending_core_count {
            Some(n) => n,
            None => self.core_count,
        };
        self.pending_core_count = None;
        self.core_count = total;
        let regular: u64 = if s.cores_sold >= s.ideal_cores_sold {
            bump_price_up(s.regular_price, c.renewal_bump)
        } else {
            bump_price_down(s.regular_price, c.renewal_bump)
        };
        let start: u64 = if regular <= Balance::MAX / 2 {
            2 * regular
        } else {
            Balance::MAX
        };
        let (first, offered, ideal) = self.core_alloc(&c, total);
        let sale_start: u32 = if self.now <= s.region_end {
            self.now
        } else {
            s.region_end
        };
        let s1 = SaleInfo {
            sale_start,
            leadin_length: c.leadin_length,
            start_price: start,
            regular_price: regular,
            region_begin: s.region_end,
            region_end: s.region_end + c.region_length,
            first_core: first,
            ideal_cores_sold: ideal,
            cores_offered: offered,
            cores_sold: 0,
            sellout_price: None,
        };
        self.sale = Some(s1);
        self.events.push(
            Event::SaleInitialized {
                sale_start: s1.sale_start,
                leadin_length: s1.leadin_length,
                start_price: s1.start_price,
                regular_price: s1.regular_price,
                region_begin: s1.region_begin,
                region_end: s1.region_end,
                ideal_cores_sold: s1.ideal_cores_sold,
                cores_offered: s1.cores_offered,
            },
        );
    }
}

/// The renewal bump of the engine's configuration; zero when unconfigured.
pub open spec fn renewal_bump_of(b: Broker) -> int {
    match b.config {
        Some(c) => c.renewal_bump as int,
        None => 0,
    }
}

/// The core count the next rollover works over: a pending request if one
/// exists, the current count otherwise.
pub open spec fn rollover_core_count(b: Broker) -> int {
    match b.pending_core_count {
        Some(n) => n as int,
        None => b.core_count as int,
    }
}

} // verus!
