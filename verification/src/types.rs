//! The data model of the market engine: configuration, sale state, regions,
//! schedules, renewal and pool records, and the error and notification
//! taxonomies.

use vstd::prelude::*;
use crate::mask::{CoreMask, CORE_MASK_BITS};

verus! {

/// A discrete scheduling unit of time; advances only forward.
pub type Timeslice = u32;

/// Index of one schedulable capacity unit.
pub type CoreIndex = u16;

/// An amount on the balance ledger.
pub type Balance = u64;

/// An account on the balance ledger.
pub type AccountId = u64;

/// Identifier of a workload that can be assigned to a core.
pub type TaskId = u32;

/// Denominator of the fixed-point ratios used for the ideal bulk
/// proportion and the renewal bump.
pub const BILLION: u32 = 1_000_000_000;

/// Tunable parameters that gate the whole engine.
#[derive(Clone, Copy, PartialEq, Eq, Debug)]
pub struct ConfigRecord {
    /// Lead time between starting (or rolling over) a sale and its opening.
    pub advance_notice: Timeslice,
    /// Portion of a sale cycle before the leadin, reserved for renewals.
    pub interlude_length: Timeslice,
    /// Portion of a sale cycle during which the price descends.
    pub leadin_length: Timeslice,
    /// Ideal proportion of offered cores that should sell, in parts per billion.
    pub ideal_bulk_proportion: u32,
    /// Optional cap on the number of cores offered per sale.
    pub limit_cores_offered: Option<CoreIndex>,
    /// Length in timeslices of the region sold by one sale cycle.
    pub region_length: Timeslice,
    /// Renewal price increase per cycle, in parts per billion.
    pub renewal_bump: u32,
    /// How long after the last claim a pool contribution may linger before
    /// anyone can drop it.
    pub contribution_timeout: Timeslice,
}

impl ConfigRecord {
    pub open spec fn wf(self) -> bool {
        &&& self.leadin_length >= 1
        &&& self.region_length >= 1
        &&& self.ideal_bulk_proportion <= BILLION
        &&& self.renewal_bump <= BILLION
    }
}

/// State of the currently open sale cycle.
#[derive(Clone, Copy, PartialEq, Eq, Debug)]
pub struct SaleInfo {
    /// Timeslice at which this sale opens for purchases.
    pub sale_start: Timeslice,
    /// Length of the descending-price portion of this sale.
    pub leadin_length: Timeslice,
    /// Price at the very start of the leadin; the curve's ceiling.
    pub start_price: Balance,
    /// Price after the leadin has elapsed; the curve's floor.
    pub regular_price: Balance,
    /// First timeslice of the region this sale sells.
    pub region_begin: Timeslice,
    /// One past the last timeslice of the region this sale sells.
    pub region_end: Timeslice,
    /// First core index this sale allocates from.
    pub first_core: CoreIndex,
    /// Number of cores that would ideally be sold this cycle.
    pub ideal_cores_sold: CoreIndex,
    /// Number of cores offered in this sale.
    pub cores_offered: CoreIndex,
    /// Number of cores sold so far; never exceeds `cores_offered`.
    pub cores_sold: CoreIndex,
    /// Price of the purchase that first exhausted `cores_offered`,
    /// recorded at most once per cycle.
    pub sellout_price: Option<Balance>,
}

impl SaleInfo {
    pub open spec fn wf(self) -> bool {
        &&& self.cores_sold <= self.cores_offered
        &&& self.regular_price <= self.start_price
        &&& self.leadin_length >= 1
        &&& self.sale_start <= self.region_begin
        &&& self.region_begin < self.region_end
        &&& self.first_core as int + self.cores_offered as int <= CoreIndex::MAX as int + 1
    }
}

/// Identity of a region: an owned claim on `[begin, end)` timeslices of a
/// core-mask part of one core. The end lives in the region's record.
#[derive(Clone, Copy, PartialEq, Eq, Structural, Debug)]
pub struct RegionId {
    /// First timeslice of the claim.
    pub begin: Timeslice,
    /// The core the claim lives on.
    pub core: CoreIndex,
    /// The part of the core's capacity the claim covers.
    pub part: CoreMask,
}

/// Ownership record of a region.
#[derive(Clone, Copy, PartialEq, Eq, Debug)]
pub struct RegionRecord {
    /// One past the last timeslice of the claim.
    pub end: Timeslice,
    /// Current owner, able to split, transfer, assign or pool the region.
    pub owner: AccountId,
    /// Price paid on purchase or renewal; cleared by splits, which makes
    /// the pieces ineligible for renewal.
    pub paid: Option<Balance>,
}

/// A region entry is well-formed when its mask is a valid, non-empty part
/// and its time range is non-empty.
pub open spec fn region_wf(id: RegionId, rec: RegionRecord) -> bool {
    &&& id.part.valid()
    &&& !id.part.spec_is_empty()
    &&& id.begin < rec.end
}

/// What a schedule item runs on its mask part.
#[derive(Clone, Copy, PartialEq, Eq, Debug)]
pub enum CoreAssignment {
    /// Nothing scheduled.
    Idle,
    /// A fixed workload.
    Task(TaskId),
    /// Shared usage whose revenue feeds the pool.
    Pool,
}

/// One assignment within a timeslice's schedule.
#[derive(Clone, Copy, PartialEq, Eq, Debug)]
pub struct ScheduleItem {
    /// The part of the core's capacity this item occupies.
    pub part: CoreMask,
    /// What runs there.
    pub assignment: CoreAssignment,
}

/// The ordered set of assignments for one (timeslice range, core): a
/// bounded list of items with pairwise-disjoint masks.
#[derive(PartialEq, Eq, Debug)]
pub struct Schedule {
    pub items: Vec<ScheduleItem>,
}

impl Schedule {
    pub open spec fn wf(self) -> bool {
        &&& self.items@.len() <= CORE_MASK_BITS as int
        &&& forall|i: int|
            0 <= i < self.items@.len() ==> (#[trigger] self.items@[i]).part.valid()
        &&& forall|i: int, j: int|
            0 <= i < j < self.items@.len() ==> self.items@[i].part.spec_disjoint(
                self.items@[j].part,
            )
    }

    /// An empty schedule.
    pub fn new() -> (r: Schedule)
        ensures
            r.wf(),
            r.items@ =~= Seq::<ScheduleItem>::empty(),
    {
        Schedule { items: Vec::new() }
    }
}

/// A core leased to a task until a timeslice.
#[derive(Clone, Copy, PartialEq, Eq, Debug)]
pub struct LeaseRecordItem {
    pub task: TaskId,
    pub until: Timeslice,
}

/// Key of a renewal eligibility: a core together with the start of the
/// cycle the renewal would buy.
#[derive(Clone, Copy, PartialEq, Eq, Structural, Debug)]
pub struct RenewalId {
    pub core: CoreIndex,
    pub when: Timeslice,
}

/// Eligibility to renew a core's assignment without auction.
#[derive(Clone, Copy, PartialEq, Eq, Debug)]
pub struct RenewalRecord {
    /// Price paid for the current cycle; the renewal bumps it.
    pub price: Balance,
    /// The workload that carries over.
    pub task: TaskId,
}

/// A region assigned to the shared pool, credited to a payer.
#[derive(Clone, Copy, PartialEq, Eq, Debug)]
pub struct ContributionRecord {
    /// One past the last timeslice the contribution covers.
    pub end: Timeslice,
    /// Claim cursor: the first timeslice not yet paid out.
    pub next_claim: Timeslice,
    /// Mask population of the pooled part, per timeslice.
    pub weight: u32,
    /// Account to which revenue shares are paid.
    pub payer: AccountId,
}

impl ContributionRecord {
    pub open spec fn wf(self) -> bool {
        &&& self.weight <= CORE_MASK_BITS
        &&& self.next_claim <= self.end
    }
}

/// Frozen pool state of one elapsed timeslice: the total pooled weight at
/// its arrival and the revenue collected for it.
#[derive(Clone, Copy, PartialEq, Eq, Debug)]
pub struct HistoryRecord {
    /// Total pooled mask weight when the timeslice arrived.
    pub weight: u64,
    /// Revenue collected for the timeslice.
    pub revenue: Balance,
    /// Portion of `revenue` not yet paid out to contributors.
    pub undistributed: Balance,
}

impl HistoryRecord {
    pub open spec fn wf(self) -> bool {
        self.undistributed <= self.revenue
    }
}

/// Whether an assignment still tolerates changes to its region.
#[derive(Clone, Copy, PartialEq, Eq, Debug)]
pub enum Finality {
    /// The region stays mutable until its timeslice arrives.
    Provisional,
    /// The region is consumed; the assignment is locked in.
    Final,
}

/// Every way an operation can fail. Operations validate all preconditions
/// before mutating state and abort whole on the first failure.
#[derive(Clone, Copy, PartialEq, Eq, Debug)]
pub enum Error {
    /// No configuration record exists where one is required.
    NotConfigured,
    /// No open sale, a sale not yet started or already over, cores
    /// exhausted, a capacity bound hit, or a record not yet expired.
    Unavailable,
    /// The current price exceeds the caller's ceiling.
    Overpriced,
    /// The balance ledger rejected a debit.
    InsufficientFunds,
    /// The caller does not own the region.
    NotOwner,
    /// A bad pivot, or a mask part that is empty, not a subset, or the
    /// whole.
    InvalidSplit,
    /// An assignment mask collides with an existing workplan item.
    Overlap,
    /// No renewal eligibility exists.
    NotAllowed,
    /// Unknown region, contribution or index.
    NotFound,
}

/// Notification emitted on the success of an operation.
#[derive(Clone, Copy, PartialEq, Eq, Debug)]
pub enum Event {
    SaleInitialized {
        sale_start: Timeslice,
        leadin_length: Timeslice,
        start_price: Balance,
        regular_price: Balance,
        region_begin: Timeslice,
        region_end: Timeslice,
        ideal_cores_sold: CoreIndex,
        cores_offered: CoreIndex,
    },
    Purchased { who: AccountId, region_id: RegionId, price: Balance, duration: Timeslice },
    Renewed { who: AccountId, region_id: RegionId, price: Balance, duration: Timeslice },
    Transferred { region_id: RegionId, old_owner: AccountId, owner: AccountId, duration: Timeslice },
    Partitioned { old_region_id: RegionId, new_region_ids: (RegionId, RegionId) },
    Interlaced { old_region_id: RegionId, new_region_ids: (RegionId, RegionId) },
    Assigned { region_id: RegionId, task: TaskId, duration: Timeslice },
    Pooled { region_id: RegionId, duration: Timeslice },
    RevenueClaimed { who: AccountId, amount: Balance },
    CreditPurchased { who: AccountId, beneficiary: AccountId, amount: Balance },
    RegionDropped { region_id: RegionId, duration: Timeslice },
    ContributionDropped { region_id: RegionId },
    CoreCountRequested { core_count: CoreIndex },
}

} // verus!
