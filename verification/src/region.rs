//! The region ledger: transferring ownership, splitting a region by time
//! (partition) or by capacity mask (interlace), and dropping expired
//! regions. Splits consume the original region, reproduce its extent
//! exactly across the two pieces, and clear the paid price, which ends
//! renewal eligibility.

use vstd::prelude::*;
use crate::broker::Broker;
use crate::mask::{lemma_mask_split, CoreMask};
use crate::types::{AccountId, Error, Event, RegionId, RegionRecord, Timeslice};

verus! {

impl Broker {
    /// Reassigns a region's owner. Fails `NotFound` when the region is
    /// unknown and `NotOwner` when the caller does not own it; a failed
    /// call has no effect.
    pub fn transfer(
        &mut self,
        caller: AccountId,
        region_id: RegionId,
        new_owner: AccountId,
    ) -> (r: Result<(), Error>)
        requires
            old(self).wf(),
        ensures
            final(self).wf(),
            r == if !old(self).regions@.dom().contains(region_id) {
                Err::<(), Error>(Error::NotFound)
            } else if old(self).regions@[region_id].owner != caller {
                Err::<(), Error>(Error::NotOwner)
            } else {
                Ok::<(), Error>(())
            },
            r.is_err() ==> *final(self) == *old(self),
            r.is_ok() ==> {
                let rec = old(self).regions@[region_id];
                &&& final(self).regions@ == old(self).regions@.insert(
                    region_id,
                    RegionRecord { owner: new_owner, ..rec },
                )
                &&& final(self).events@ == old(self).events@.push(
                    Event::Transferred {
                        region_id,
                        old_owner: caller,
                        owner: new_owner,
                        duration: (rec.end - region_id.begin) as u32,
                    },
                )
                &&& *final(self) == (Broker {
                    regions: final(self).regions,
                    events: final(self).events,
                    ..*old(self)
                })
            },
    {
        let rec = match self.regions.get(&region_id) {
            Some(rec) => *rec,
            None => { return Err(Error::NotFound) },
        };
        if rec.owner != caller {
            return Err(Error::NotOwner);
        }
        self.regions.insert(region_id, RegionRecord { owner: new_owner, ..rec });
        self.events.push(
            Event::Transferred {
                region_id,
                old_owner: caller,
                owner: new_owner,
                duration: rec.end - region_id.begin,
            },
        );
        Ok(())
    }

    /// Splits a region's time range at `pivot` timeslices after its begin:
    /// the original is consumed and two regions over `[begin, begin+pivot)`
    /// and `[begin+pivot, end)` take its place, on the same core and mask,
    /// concatenating to the original range with no gap and no overlap. The
    /// pieces are not renewable. Fails `NotFound` when the region is
    /// unknown, `NotOwner` when the caller does not own it, and
    /// `InvalidSplit` when the pivot does not fall strictly inside the
    /// range; a failed call has no effect.
    pub fn partition(
        &mut self,
        caller: AccountId,
        region_id: RegionId,
        pivot: Timeslice,
    ) -> (r: Result<(RegionId, RegionId), Error>)
        requires
            old(self).wf(),
        ensures
            final(self).wf(),
            r == if !old(self).regions@.dom().contains(region_id) {
                Err::<(RegionId, RegionId), Error>(Error::NotFound)
            } else if old(self).regions@[region_id].owner != caller {
                Err::<(RegionId, RegionId), Error>(Error::NotOwner)
            } else if !(0 < pivot < old(self).regions@[region_id].end - region_id.begin) {
                Err::<(RegionId, RegionId), Error>(Error::InvalidSplit)
            } else {
                Ok::<(RegionId, RegionId), Error>(
                    (
                        region_id,
                        RegionId { begin: (region_id.begin + pivot) as u32, ..region_id },
                    ),
                )
            },
            r.is_err() ==> *final(self) == *old(self),
            r matches Ok((id1, id2)) ==> {
                let rec = old(self).regions@[region_id];
                let rec1 = RegionRecord { end: id2.begin, owner: rec.owner, paid: None };
                let rec2 = RegionRecord { end: rec.end, owner: rec.owner, paid: None };
                // The two time ranges concatenate to the original exactly.
                &&& id1.begin == region_id.begin
                &&& rec1.end == id2.begin
                &&& rec2.end == rec.end
                &&& region_id.begin < id2.begin < rec.end
                &&& id1.core == region_id.core && id2.core == region_id.core
                &&& id1.part == region_id.part && id2.part == region_id.part
                &&& final(self).regions@ == old(self).regions@.remove(region_id).insert(
                    id1,
                    rec1,
                ).insert(id2, rec2)
                &&& final(self).events@ == old(self).events@.push(
                    Event::Partitioned { old_region_id: region_id, new_region_ids: (id1, id2) },
                )
                &&& *final(self) == (Broker {
                    regions: final(self).regions,
                    events: final(self).events,
                    ..*old(self)
                })
            },
    {
        let rec = match self.regions.get(&region_id) {
            Some(rec) => *rec,
            None => { return Err(Error::NotFound) },
        };
        if rec.owner != caller {
            return Err(Error::NotOwner);
        }
        if !(0 < pivot && pivot < rec.end - region_id.begin) {
            return Err(Error::InvalidSplit);
        }
        let mid: u32 = region_id.begin + pivot;
        let id1 = region_id;
        let id2 = RegionId { begin: mid, ..region_id };
        let rec1 = RegionRecord { end: mid, owner: rec.owner, paid: None };
        let rec2 = RegionRecord { end: rec.end, owner: rec.owner, paid: None };
        self.regions.remove(&region_id);
        self.regions.insert(id1, rec1);
        self.regions.insert(id2, rec2);
        self.events.push(
            Event::Partitioned { old_region_id: region_id, new_region_ids: (id1, id2) },
        );
        Ok((id1, id2))
    }

    /// Splits a region's capacity mask: the original is consumed and two
    /// regions with masks `part` and `region.part` less `part` take its
    /// place, over the same time range and core. The two masks are
    /// disjoint, non-empty, and their union reproduces the original mask
    /// exactly. The pieces are not renewable. Fails `NotFound` when the
    /// region is unknown, `NotOwner` when the caller does not own it, and
    /// `InvalidSplit` when `part` is empty, not a subset of the region's
    /// mask, or the whole of it; a failed call has no effect.
    pub fn interlace(
        &mut self,
        caller: AccountId,
        region_id: RegionId,
        part: CoreMask,
    ) -> (r: Result<(RegionId, RegionId), Error>)
        requires
            old(self).wf(),
        ensures
            final(self).wf(),
            r == if !old(self).regions@.dom().contains(region_id) {
                Err::<(RegionId, RegionId), Error>(Error::NotFound)
            } else if old(self).regions@[region_id].owner != caller {
                Err::<(RegionId, RegionId), Error>(Error::NotOwner)
            } else if part.spec_is_empty() || !part.spec_subset_of(region_id.part) || part
                == region_id.part {
                Err::<(RegionId, RegionId), Error>(Error::InvalidSplit)
            } else {
                Ok::<(RegionId, RegionId), Error>(
                    (
                        RegionId { part, ..region_id },
                        RegionId { part: region_id.part.spec_without(part), ..region_id },
                    ),
                )
            },
            r.is_err() ==> *final(self) == *old(self),
            r matches Ok((id1, id2)) ==> {
                let rec = old(self).regions@[region_id];
                // The two masks are disjoint, non-empty parts whose union
                // reproduces the original mask exactly.
                &&& id1.part == part
                &&& id2.part == region_id.part.spec_without(part)
                &&& id1.part.spec_disjoint(id2.part)
                &&& id1.part.spec_union(id2.part) == region_id.part
                &&& !id1.part.spec_is_empty() && !id2.part.spec_is_empty()
                &&& id1.begin == region_id.begin && id2.begin == region_id.begin
                &&& id1.core == region_id.core && id2.core == region_id.core
                &&& final(self).regions@ == old(self).regions@.remove(region_id).insert(
                    id1,
                    RegionRecord { paid: None, ..rec },
                ).insert(id2, RegionRecord { paid: None, ..rec })
                &&& final(self).events@ == old(self).events@.push(
                    Event::Interlaced { old_region_id: region_id, new_region_ids: (id1, id2) },
                )
                &&& *final(self) == (Broker {
                    regions: final(self).regions,
                    events: final(self).events,
                    ..*old(self)
                })
            },
    {
        let rec = match self.regions.get(&region_id) {
            Some(rec) => *rec,
            None => { return Err(Error::NotFound) },
        };
        if rec.owner != caller {
            return Err(Error::NotOwner);
        }
        if part.is_empty() || !part.subset_of(&region_id.part) || part.bits == region_id.part.bits
        {
            return Err(Error::InvalidSplit);
        }
        proof {
            lemma_mask_split(region_id.part.bits, part.bits);
        }
        let rest = region_id.part.without(&part);
        let id1 = RegionId { part, ..region_id };
        let id2 = RegionId { part: rest, ..region_id };
        let piece = RegionRecord { paid: None, ..rec };
        self.regions.remove(&region_id);
        self.regions.insert(id1, piece);
        self.regions.insert(id2, piece);
        self.events.push(
            Event::Interlaced { old_region_id: region_id, new_region_ids: (id1, id2) },
        );
        Ok((id1, id2))
    }

    /// Removes an expired region's record. Fails `NotFound` when the
    /// region is unknown and `Unavailable` while the region has not yet
    /// reached its end; a dropped region cannot be dropped again. A failed
    /// call has no effect.
    pub fn drop_region(&mut self, region_id: RegionId) -> (r: Result<(), Error>)
        requires
            old(self).wf(),
        ensures
            final(self).wf(),
            r == if !old(self).regions@.dom().contains(region_id) {
                Err::<(), Error>(Error::NotFound)
            } else if old(self).now < old(self).regions@[region_id].end {
                Err::<(), Error>(Error::Unavailable)
            } else {
                Ok::<(), Error>(())
            },
            r.is_err() ==> *final(self) == *old(self),
            r.is_ok() ==> {
                let rec = old(self).regions@[region_id];
                &&& final(self).regions@ == old(self).regions@.remove(region_id)
                &&& final(self).events@ == old(self).events@.push(
                    Event::RegionDropped {
                        region_id,
                        duration: (rec.end - region_id.begin) as u32,
                    },
                )
                &&& *final(self) == (Broker {
                    regions: final(self).regions,
                    events: final(self).events,
                    ..*old(self)
                })
            },
    {
        let rec = match self.regions.get(&region_id) {
            Some(rec) => *rec,
            None => { return Err(Error::NotFound) },
        };
        if self.now < rec.end {
            return Err(Error::Unavailable);
        }
        self.regions.remove(&region_id);
        self.events.push(
            Event::RegionDropped { region_id, duration: rec.end - region_id.begin },
        );
        Ok(())
    }
}

} // verus!
