use broker::{
    Broker, ConfigRecord, CoreAssignment, CoreMask, Error, Event, Finality, RegionId, RenewalId,
};
use broker::price::{bump_price_down, bump_price_up};

const ALICE: u64 = 1;
const BOB: u64 = 2;
const CAROL: u64 = 3;

fn test_config() -> ConfigRecord {
    ConfigRecord {
        advance_notice: 2,
        interlude_length: 1,
        leadin_length: 1,
        ideal_bulk_proportion: 0,
        limit_cores_offered: None,
        region_length: 3,
        renewal_bump: 100_000_000,
        contribution_timeout: 5,
    }
}

fn advance_to(b: &mut Broker, t: u32) {
    while b.now < t {
        b.on_new_timeslice();
    }
}

fn broker_with_region() -> (Broker, RegionId) {
    let mut b = Broker::new(10, 10);
    b.configure(test_config()).unwrap();
    b.start_sales(10, 1000).unwrap();
    advance_to(&mut b, 3);
    b.ledger.set_balance(ALICE, 100);
    let region = b.purchase(ALICE, 10).unwrap();
    (b, region)
}

#[test]
fn assign_writes_the_workplan_and_locks_renewal() {
    let (mut b, region) = broker_with_region();
    b.assign(ALICE, region, 1000, Finality::Final).unwrap();
    assert_eq!(
        b.events.last().copied(),
        Some(Event::Assigned { region_id: region, task: 1000, duration: 3 })
    );
    // The final assignment consumed the region record.
    assert!(b.regions.get(&region).is_none());
    let sched = b.workplan.get(&(region.begin, region.core)).unwrap();
    assert_eq!(sched.items.len(), 1);
    assert_eq!(sched.items[0].part, region.part);
    assert_eq!(sched.items[0].assignment, CoreAssignment::Task(1000));
    // A full-cycle, complete-mask, paid region earns renewal eligibility
    // for the next cycle.
    let renewal = b.renewals.get(&RenewalId { core: region.core, when: 7 }).copied().unwrap();
    assert_eq!(renewal.price, 10);
    assert_eq!(renewal.task, 1000);
}

#[test]
fn provisional_assignment_keeps_the_region() {
    let (mut b, region) = broker_with_region();
    b.assign(ALICE, region, 1000, Finality::Provisional).unwrap();
    assert!(b.regions.get(&region).is_some());
    // The region is still in the plan, so planning the same mask again
    // collides.
    assert_eq!(
        b.assign(ALICE, region, 1001, Finality::Provisional),
        Err(Error::Overlap)
    );
}

#[test]
fn assign_checks_ownership_and_expiry() {
    let (mut b, region) = broker_with_region();
    assert_eq!(b.assign(BOB, region, 1, Finality::Final), Err(Error::NotOwner));
    let unknown = RegionId { begin: 9, ..region };
    assert_eq!(b.assign(ALICE, unknown, 1, Finality::Final), Err(Error::NotFound));
    advance_to(&mut b, 7);
    assert_eq!(b.assign(ALICE, region, 1, Finality::Final), Err(Error::Unavailable));
}

#[test]
fn renewal_price_is_bumped_exactly() {
    let (mut b, region) = broker_with_region();
    b.assign(ALICE, region, 1000, Finality::Final).unwrap();
    advance_to(&mut b, 6);
    // The sale rolled over at the advance notice; its region is [7, 10).
    assert_eq!(b.sale.unwrap().region_begin, 7);
    // The renewal price is the prior price times one plus the ten percent
    // bump: 10 becomes 11.
    let renewed = b.renew(ALICE, region.core).unwrap();
    assert_eq!(renewed, RegionId { begin: 7, core: region.core, part: CoreMask::complete() });
    assert_eq!(b.ledger.balance(ALICE), 100 - 10 - 11);
    assert_eq!(
        b.events.last().copied(),
        Some(Event::Renewed { who: ALICE, region_id: renewed, price: 11, duration: 3 })
    );
    // The chain stays alive: eligibility for the cycle after, at the
    // bumped price.
    let next = b.renewals.get(&RenewalId { core: region.core, when: 10 }).copied().unwrap();
    assert_eq!(next.price, 11);
    assert_eq!(next.task, 1000);
    // The old eligibility is consumed.
    assert!(b.renewals.get(&RenewalId { core: region.core, when: 7 }).is_none());
    // The workload carries over into the new cycle's workplan.
    let sched = b.workplan.get(&(7, region.core)).unwrap();
    assert_eq!(sched.items[0].assignment, CoreAssignment::Task(1000));
}

#[test]
fn final_assignment_locks_the_region_against_changes() {
    let (mut b, region) = broker_with_region();
    b.assign(ALICE, region, 1000, Finality::Final).unwrap();
    assert_eq!(b.transfer(ALICE, region, BOB), Err(Error::NotFound));
    assert_eq!(b.partition(ALICE, region, 1), Err(Error::NotFound));
    assert_eq!(
        b.interlace(ALICE, region, CoreMask::from_bits(1)),
        Err(Error::NotFound)
    );
}

#[test]
fn bump_arithmetic_is_exact_and_saturating() {
    // A ten percent bump: 10 * (1 + 1/10) is exactly 11, and the fraction
    // of 15 floors to 1.
    assert_eq!(bump_price_up(10, 100_000_000), 11);
    assert_eq!(bump_price_up(15, 100_000_000), 16);
    assert_eq!(bump_price_down(10, 100_000_000), 9);
    assert_eq!(bump_price_down(0, 100_000_000), 0);
    assert_eq!(bump_price_up(u64::MAX, 100_000_000), u64::MAX);
}

#[test]
fn schedules_of_several_cores_are_all_exposed() {
    let mut b = Broker::new(10, 10);
    b.configure(test_config()).unwrap();
    b.start_sales(10, 1000).unwrap();
    advance_to(&mut b, 3);
    b.ledger.set_balance(ALICE, 20);
    let r0 = b.purchase(ALICE, 10).unwrap();
    let r1 = b.purchase(ALICE, 10).unwrap();
    b.assign(ALICE, r0, 1000, Finality::Final).unwrap();
    b.assign(ALICE, r1, 1001, Finality::Final).unwrap();
    let mut exposed = b.on_new_timeslice();
    assert_eq!(b.now, 4);
    exposed.sort_by_key(|e| e.0);
    assert_eq!(exposed.len(), 2);
    assert_eq!(exposed[0].0, 0);
    assert_eq!(exposed[0].1.items[0].assignment, CoreAssignment::Task(1000));
    assert_eq!(exposed[1].0, 1);
    assert_eq!(exposed[1].1.items[0].assignment, CoreAssignment::Task(1001));
}

#[test]
fn renew_without_eligibility_is_not_allowed() {
    let (mut b, region) = broker_with_region();
    assert_eq!(b.renew(ALICE, region.core), Err(Error::NotAllowed));
    let mut fresh = Broker::new(10, 10);
    assert_eq!(fresh.renew(ALICE, 0), Err(Error::NotAllowed));
}

#[test]
fn renew_without_funds_fails() {
    let (mut b, region) = broker_with_region();
    b.assign(ALICE, region, 1000, Finality::Final).unwrap();
    advance_to(&mut b, 6);
    b.ledger.set_balance(ALICE, 10);
    assert_eq!(b.renew(ALICE, region.core), Err(Error::InsufficientFunds));
    assert_eq!(b.ledger.balance(ALICE), 10);
}

#[test]
fn split_regions_are_not_renewable() {
    let (mut b, region) = broker_with_region();
    let (id1, _id2) = b.partition(ALICE, region, 1).unwrap();
    b.assign(ALICE, id1, 1000, Finality::Final).unwrap();
    assert!(b.renewals.get(&RenewalId { core: region.core, when: 7 }).is_none());
}

#[test]
fn on_new_timeslice_exposes_and_prunes_schedules() {
    let (mut b, region) = broker_with_region();
    b.assign(ALICE, region, 1000, Finality::Final).unwrap();
    advance_to(&mut b, 3);
    let exposed = b.on_new_timeslice();
    assert_eq!(b.now, 4);
    assert_eq!(exposed.len(), 1);
    assert_eq!(exposed[0].0, region.core);
    assert_eq!(exposed[0].1.items[0].assignment, CoreAssignment::Task(1000));
    assert!(b.workplan.get(&(4, region.core)).is_some());
    // Once its timeslice has passed, the entry is removed.
    let exposed_later = b.on_new_timeslice();
    assert_eq!(exposed_later.len(), 0);
    assert!(b.workplan.get(&(4, region.core)).is_none());
}

#[test]
fn pool_records_a_weighted_contribution() {
    let (mut b, region) = broker_with_region();
    b.pool(ALICE, region, BOB, Finality::Final).unwrap();
    assert_eq!(
        b.events.last().copied(),
        Some(Event::Pooled { region_id: region, duration: 3 })
    );
    assert!(b.regions.get(&region).is_none());
    let c = b.contributions.get(&region).copied().unwrap();
    assert_eq!(c.end, 7);
    assert_eq!(c.next_claim, 4);
    assert_eq!(c.weight, 80);
    assert_eq!(c.payer, BOB);
    let sched = b.workplan.get(&(region.begin, region.core)).unwrap();
    assert_eq!(sched.items[0].assignment, CoreAssignment::Pool);
}

#[test]
fn claim_revenue_pays_the_whole_pool_share() {
    let (mut b, region) = broker_with_region();
    b.pool(ALICE, region, BOB, Finality::Final).unwrap();
    advance_to(&mut b, 5);
    // Timeslice 4 arrived with the contribution covering all eighty slots.
    assert_eq!(b.history.get(&4).unwrap().weight, 80);
    b.credit_revenue(4, 800).unwrap();
    b.claim_revenue(region, 100).unwrap();
    assert_eq!(b.ledger.balance(BOB), 800);
    assert_eq!(
        b.events.last().copied(),
        Some(Event::RevenueClaimed { who: BOB, amount: 800 })
    );
    assert_eq!(b.contributions.get(&region).unwrap().next_claim, 5);
    // No timeslice is ever paid twice.
    b.claim_revenue(region, 100).unwrap();
    assert_eq!(b.ledger.balance(BOB), 800);
    // Revenue for a later timeslice is claimable once it has elapsed.
    advance_to(&mut b, 6);
    b.credit_revenue(5, 400).unwrap();
    b.claim_revenue(region, 100).unwrap();
    assert_eq!(b.ledger.balance(BOB), 1200);
}

#[test]
fn claim_revenue_splits_proportionally_and_floors() {
    let (mut b, region) = broker_with_region();
    let m = CoreMask::from_bits(0xfffff);
    let (id1, id2) = b.interlace(ALICE, region, m).unwrap();
    b.pool(ALICE, id1, BOB, Finality::Final).unwrap();
    b.pool(ALICE, id2, CAROL, Finality::Final).unwrap();
    advance_to(&mut b, 5);
    assert_eq!(b.history.get(&4).unwrap().weight, 80);
    b.credit_revenue(4, 801).unwrap();
    b.claim_revenue(id1, 100).unwrap();
    b.claim_revenue(id2, 100).unwrap();
    // Twenty of eighty slots earn 801 * 20 / 80 floored; sixty earn the
    // floored rest; the rounded-off remainder stays undistributed.
    assert_eq!(b.ledger.balance(BOB), 200);
    assert_eq!(b.ledger.balance(CAROL), 600);
    assert_eq!(b.history.get(&4).unwrap().undistributed, 1);
}

#[test]
fn claim_revenue_respects_the_timeslice_budget() {
    let (mut b, region) = broker_with_region();
    b.pool(ALICE, region, BOB, Finality::Final).unwrap();
    advance_to(&mut b, 7);
    b.credit_revenue(4, 80).unwrap();
    b.credit_revenue(5, 80).unwrap();
    b.credit_revenue(6, 80).unwrap();
    b.claim_revenue(region, 2).unwrap();
    assert_eq!(b.ledger.balance(BOB), 160);
    assert_eq!(b.contributions.get(&region).unwrap().next_claim, 6);
    b.claim_revenue(region, 2).unwrap();
    assert_eq!(b.ledger.balance(BOB), 240);
    assert_eq!(b.contributions.get(&region).unwrap().next_claim, 7);
}

#[test]
fn claim_revenue_unknown_contribution_is_not_found() {
    let (mut b, region) = broker_with_region();
    assert_eq!(b.claim_revenue(region, 10), Err(Error::NotFound));
}

#[test]
fn credit_revenue_needs_an_arrived_timeslice() {
    let (mut b, _region) = broker_with_region();
    assert_eq!(b.credit_revenue(9, 100), Err(Error::NotFound));
}

#[test]
fn pooling_after_the_begin_claims_from_the_present() {
    let (mut b, region) = broker_with_region();
    // The region spans [4, 7); pooling at timeslice 5 contributes only
    // from the present on.
    advance_to(&mut b, 5);
    b.pool(ALICE, region, BOB, Finality::Final).unwrap();
    assert_eq!(b.contributions.get(&region).unwrap().next_claim, 5);
    advance_to(&mut b, 6);
    assert_eq!(b.history.get(&6).unwrap().weight, 80);
    b.credit_revenue(6, 80).unwrap();
    advance_to(&mut b, 7);
    b.claim_revenue(region, 100).unwrap();
    // Timeslice 5 arrived before the contribution was counted, so only
    // timeslice 6 pays.
    assert_eq!(b.ledger.balance(BOB), 80);
}

#[test]
fn drop_contribution_needs_a_configuration() {
    let mut b = Broker::new(10, 10);
    let region = RegionId { begin: 0, core: 0, part: CoreMask::complete() };
    assert_eq!(b.drop_contribution(region), Err(Error::NotConfigured));
}

#[test]
fn drop_contribution_waits_for_the_timeout() {
    let (mut b, region) = broker_with_region();
    b.pool(ALICE, region, BOB, Finality::Final).unwrap();
    advance_to(&mut b, 7);
    b.claim_revenue(region, 100).unwrap();
    // The cursor now rests at the span's end; the timeout counts from it.
    assert_eq!(b.drop_contribution(region), Err(Error::Unavailable));
    advance_to(&mut b, 11);
    assert_eq!(b.drop_contribution(region), Err(Error::Unavailable));
    advance_to(&mut b, 12);
    assert_eq!(b.drop_contribution(region), Ok(()));
    assert_eq!(
        b.events.last().copied(),
        Some(Event::ContributionDropped { region_id: region })
    );
    assert_eq!(b.drop_contribution(region), Err(Error::NotFound));
}
