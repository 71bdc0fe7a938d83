use broker::{
    Broker, ConfigRecord, CoreMask, Error, Event, RegionId, COMPLETE_MASK,
};

const ALICE: u64 = 1;
const BOB: u64 = 2;

fn test_config() -> ConfigRecord {
    ConfigRecord {
        advance_notice: 2,
        interlude_length: 1,
        leadin_length: 1,
        ideal_bulk_proportion: 0,
        limit_cores_offered: None,
        region_length: 3,
        renewal_bump: 100_000_000,
        contribution_timeout: 5,
    }
}

fn advance_to(b: &mut Broker, t: u32) {
    while b.now < t {
        b.on_new_timeslice();
    }
}

fn broker_with_region() -> (Broker, RegionId) {
    let mut b = Broker::new(10, 10);
    b.configure(test_config()).unwrap();
    b.start_sales(10, 1000).unwrap();
    advance_to(&mut b, 3);
    b.ledger.set_balance(ALICE, 10);
    let region = b.purchase(ALICE, 10).unwrap();
    (b, region)
}

#[test]
fn transfer_reassigns_the_owner() {
    let (mut b, region) = broker_with_region();
    assert_eq!(b.transfer(BOB, region, BOB), Err(Error::NotOwner));
    let unknown = RegionId { begin: 9, ..region };
    assert_eq!(b.transfer(ALICE, unknown, BOB), Err(Error::NotFound));
    b.transfer(ALICE, region, BOB).unwrap();
    assert_eq!(b.regions.get(&region).unwrap().owner, BOB);
    assert_eq!(
        b.events.last().copied(),
        Some(Event::Transferred { region_id: region, old_owner: ALICE, owner: BOB, duration: 3 })
    );
}

#[test]
fn partition_concatenates_exactly() {
    let (mut b, region) = broker_with_region();
    let (id1, id2) = b.partition(ALICE, region, 2).unwrap();
    // The two ranges reproduce [4, 7) with no gap and no overlap.
    assert_eq!(id1.begin, 4);
    assert_eq!(b.regions.get(&id1).unwrap().end, 6);
    assert_eq!(id2.begin, 6);
    assert_eq!(b.regions.get(&id2).unwrap().end, 7);
    assert_eq!(id1.core, region.core);
    assert_eq!(id2.core, region.core);
    assert_eq!(id1.part, region.part);
    assert_eq!(id2.part, region.part);
    // The pieces are no longer renewable.
    assert_eq!(b.regions.get(&id1).unwrap().paid, None);
    assert_eq!(b.regions.get(&id2).unwrap().paid, None);
    assert_eq!(
        b.events.last().copied(),
        Some(Event::Partitioned { old_region_id: region, new_region_ids: (id1, id2) })
    );
}

#[test]
fn partition_rejects_bad_pivots() {
    let (mut b, region) = broker_with_region();
    assert_eq!(b.partition(ALICE, region, 0), Err(Error::InvalidSplit));
    assert_eq!(b.partition(ALICE, region, 3), Err(Error::InvalidSplit));
    assert_eq!(b.partition(BOB, region, 2), Err(Error::NotOwner));
    assert!(b.regions.get(&region).is_some());
}

#[test]
fn interlace_splits_the_mask_exactly() {
    let (mut b, region) = broker_with_region();
    let m = CoreMask::from_bits(0x00000_fffff_fffff_00000);
    let (id1, id2) = b.interlace(ALICE, region, m).unwrap();
    assert_eq!(id1.part, m);
    assert_eq!(id2.part.bits, COMPLETE_MASK & !m.bits);
    // Disjoint, non-empty, and re-uniting them reproduces the original.
    assert_eq!(id1.part.bits & id2.part.bits, 0);
    assert_ne!(id1.part.bits, 0);
    assert_ne!(id2.part.bits, 0);
    assert_eq!(id1.part.union(&id2.part).bits, region.part.bits);
    // Both keep the time range and core.
    assert_eq!(id1.begin, region.begin);
    assert_eq!(id2.begin, region.begin);
    assert_eq!(id1.core, region.core);
    assert_eq!(id2.core, region.core);
    assert_eq!(b.regions.get(&id1).unwrap().end, 7);
    assert_eq!(b.regions.get(&id2).unwrap().end, 7);
    assert_eq!(
        b.events.last().copied(),
        Some(Event::Interlaced { old_region_id: region, new_region_ids: (id1, id2) })
    );
}

#[test]
fn interlace_mask_weights_split_the_whole() {
    let (mut b, region) = broker_with_region();
    let m = CoreMask::from_bits(0xfffff);
    let (id1, id2) = b.interlace(ALICE, region, m).unwrap();
    assert_eq!(id1.part.count_ones(), 20);
    assert_eq!(id2.part.count_ones(), 60);
}

#[test]
fn interlace_rejects_bad_parts() {
    let (mut b, region) = broker_with_region();
    assert_eq!(b.interlace(ALICE, region, CoreMask::void()), Err(Error::InvalidSplit));
    assert_eq!(b.interlace(ALICE, region, CoreMask::complete()), Err(Error::InvalidSplit));
    assert_eq!(
        b.interlace(BOB, region, CoreMask::from_bits(1)),
        Err(Error::NotOwner)
    );
    let m = CoreMask::from_bits(0xfffff);
    let (id1, _id2) = b.interlace(ALICE, region, m).unwrap();
    // A part that is not a subset of the piece's mask is rejected.
    assert_eq!(
        b.interlace(ALICE, id1, CoreMask::from_bits(0xf00000)),
        Err(Error::InvalidSplit)
    );
}

#[test]
fn drop_region_only_after_expiry_and_only_once() {
    let (mut b, region) = broker_with_region();
    assert_eq!(b.drop_region(region), Err(Error::Unavailable));
    advance_to(&mut b, 6);
    assert_eq!(b.drop_region(region), Err(Error::Unavailable));
    advance_to(&mut b, 7);
    assert_eq!(b.drop_region(region), Ok(()));
    assert_eq!(
        b.events.last().copied(),
        Some(Event::RegionDropped { region_id: region, duration: 3 })
    );
    assert_eq!(b.drop_region(region), Err(Error::NotFound));
}

#[test]
fn mask_operations() {
    assert_eq!(CoreMask::complete().count_ones(), 80);
    assert_eq!(CoreMask::void().count_ones(), 0);
    assert!(CoreMask::void().is_empty());
    assert!(CoreMask::complete().is_complete());
    // Raw bits above the eighty mask positions are discarded.
    assert_eq!(CoreMask::from_bits(u128::MAX).bits, COMPLETE_MASK);
    let m = CoreMask::from_bits(0b1010);
    assert_eq!(m.count_ones(), 2);
    assert!(m.subset_of(&CoreMask::complete()));
    assert!(m.disjoint(&CoreMask::from_bits(0b0101)));
    assert_eq!(m.union(&CoreMask::from_bits(0b0101)).bits, 0b1111);
    assert_eq!(CoreMask::complete().without(&m).bits, COMPLETE_MASK & !0b1010);
}
