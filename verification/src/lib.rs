//! A time-sliced resource-allocation market: it sells, splits, assigns and
//! reclaims fixed units of recurring compute capacity (cores) over discrete
//! future time windows (timeslices), and distributes revenue from shared
//! usage among pool contributors.

pub mod broker;
pub mod ledger;
pub mod mask;
pub mod price;
pub mod region;
pub mod revenue;
pub mod sale;
pub mod storage_map;
pub mod types;
pub mod workplan;

pub use crate::broker::Broker;
pub use crate::ledger::Ledger;
pub use crate::mask::{CoreMask, COMPLETE_MASK, CORE_MASK_BITS};
pub use crate::storage_map::{HookedMap, StorageKey};
pub use crate::types::{
    AccountId, Balance, ConfigRecord, ContributionRecord, CoreAssignment, CoreIndex, Error,
    Event, Finality, HistoryRecord, LeaseRecordItem, RegionId, RegionRecord, RenewalId,
    RenewalRecord, SaleInfo, Schedule, ScheduleItem, TaskId, Timeslice, BILLION,
};
