use broker::{
    Broker, ConfigRecord, CoreMask, Error, Event, RegionId, COMPLETE_MASK,
};

const ALICE: u64 = 1;

fn test_config() -> ConfigRecord {
    ConfigRecord {
        advance_notice: 2,
        interlude_length: 1,
        leadin_length: 1,
        ideal_bulk_proportion: 0,
        limit_cores_offered: None,
        region_length: 3,
        renewal_bump: 100_000_000,
        contribution_timeout: 5,
    }
}

fn advance_to(b: &mut Broker, t: u32) {
    while b.now < t {
        b.on_new_timeslice();
    }
}

#[test]
fn start_sales_requires_configuration() {
    let mut b = Broker::new(10, 10);
    assert_eq!(b.start_sales(10, 1000), Err(Error::NotConfigured));
    assert!(b.sale.is_none());
}

fn sale_schedule_core(b: &mut Broker) {
    b.configure(test_config()).unwrap();
    b.start_sales(10, 1000).unwrap();
    let s = b.sale.unwrap();
    assert_eq!(s.sale_start, 2);
    assert_eq!(s.leadin_length, 1);
    assert_eq!(s.start_price, 20);
    assert_eq!(s.regular_price, 10);
    assert_eq!(s.region_begin, 4);
    assert_eq!(s.region_end, 7);
    assert_eq!(s.first_core, 0);
    assert_eq!(s.ideal_cores_sold, 0);
    assert_eq!(s.cores_offered, 1000);
    assert_eq!(s.cores_sold, 0);
    assert_eq!(s.sellout_price, None);
}

#[test]
fn sale_schedule_follows_configuration() {
    let mut b = Broker::new(10, 10);
    sale_schedule_core(&mut b);
    assert_eq!(
        b.events.last().copied(),
        Some(Event::SaleInitialized {
            sale_start: 2,
            leadin_length: 1,
            start_price: 20,
            regular_price: 10,
            region_begin: 4,
            region_end: 7,
            ideal_cores_sold: 0,
            cores_offered: 1000,
        })
    );
}

#[test]
fn start_sales_twice_is_unavailable() {
    let mut b = Broker::new(10, 10);
    sale_schedule_core(&mut b);
    assert_eq!(b.start_sales(10, 1000), Err(Error::Unavailable));
}

#[test]
fn reservations_and_leases_reduce_offer() {
    let mut b = Broker::new(10, 10);
    b.configure(test_config()).unwrap();
    b.reserve(broker::Schedule::new()).unwrap();
    b.set_lease(7, 10).unwrap();
    b.start_sales(10, 1000).unwrap();
    let s = b.sale.unwrap();
    assert_eq!(s.first_core, 2);
    assert_eq!(s.cores_offered, 998);
}

#[test]
fn offer_is_capped_by_the_configured_limit() {
    let mut b = Broker::new(10, 10);
    let mut c = test_config();
    c.limit_cores_offered = Some(5);
    b.configure(c).unwrap();
    b.start_sales(10, 1000).unwrap();
    assert_eq!(b.sale.unwrap().cores_offered, 5);
}

#[test]
fn leadin_price_descends_to_regular() {
    let mut b = Broker::new(10, 10);
    b.configure(ConfigRecord { leadin_length: 2, ..test_config() }).unwrap();
    b.start_sales(10, 1000).unwrap();
    assert_eq!(b.sale_price(), Err(Error::Unavailable));
    advance_to(&mut b, 2);
    assert_eq!(b.sale_price(), Ok(20));
    advance_to(&mut b, 3);
    assert_eq!(b.sale_price(), Ok(15));
    advance_to(&mut b, 4);
    assert_eq!(b.sale_price(), Ok(10));
    advance_to(&mut b, 5);
    assert_eq!(b.sale_price(), Ok(10));
}

#[test]
fn purchase_at_regular_price_succeeds_and_sells_out() {
    let mut b = Broker::new(10, 10);
    b.configure(test_config()).unwrap();
    b.start_sales(10, 1).unwrap();
    advance_to(&mut b, 3);
    b.ledger.set_balance(ALICE, 10);
    let region = b.purchase(ALICE, 10).unwrap();
    assert_eq!(
        region,
        RegionId { begin: 4, core: 0, part: CoreMask { bits: COMPLETE_MASK } }
    );
    assert_eq!(b.ledger.balance(ALICE), 0);
    let s = b.sale.unwrap();
    assert_eq!(s.cores_sold, 1);
    assert_eq!(s.sellout_price, Some(10));
    assert_eq!(
        b.events.last().copied(),
        Some(Event::Purchased { who: ALICE, region_id: region, price: 10, duration: 3 })
    );
    let rec = b.regions.get(&region).copied().unwrap();
    assert_eq!(rec.end, 7);
    assert_eq!(rec.owner, ALICE);
    assert_eq!(rec.paid, Some(10));
}

#[test]
fn sellout_price_is_not_set_while_cores_remain() {
    let mut b = Broker::new(10, 10);
    b.configure(test_config()).unwrap();
    b.start_sales(10, 2).unwrap();
    advance_to(&mut b, 3);
    b.ledger.set_balance(ALICE, 30);
    b.purchase(ALICE, 10).unwrap();
    assert_eq!(b.sale.unwrap().sellout_price, None);
    assert_eq!(b.sale.unwrap().cores_sold, 1);
    b.purchase(ALICE, 10).unwrap();
    assert_eq!(b.sale.unwrap().sellout_price, Some(10));
    assert_eq!(b.sale.unwrap().cores_sold, 2);
    assert_eq!(b.purchase(ALICE, 10), Err(Error::Unavailable));
    assert_eq!(b.sale.unwrap().cores_sold, 2);
    assert_eq!(b.sale.unwrap().sellout_price, Some(10));
}

#[test]
fn purchase_outside_the_sale_window_is_unavailable() {
    let mut b = Broker::new(10, 10);
    b.configure(test_config()).unwrap();
    b.ledger.set_balance(ALICE, 100);
    assert_eq!(b.purchase(ALICE, 100), Err(Error::Unavailable));
    b.start_sales(10, 1000).unwrap();
    advance_to(&mut b, 1);
    assert_eq!(b.purchase(ALICE, 100), Err(Error::Unavailable));
    advance_to(&mut b, 2);
    assert!(b.purchase(ALICE, 100).is_ok());
}

#[test]
fn purchase_above_ceiling_is_overpriced() {
    let mut b = Broker::new(10, 10);
    b.configure(test_config()).unwrap();
    b.start_sales(10, 1000).unwrap();
    advance_to(&mut b, 2);
    b.ledger.set_balance(ALICE, 100);
    assert_eq!(b.purchase(ALICE, 19), Err(Error::Overpriced));
    advance_to(&mut b, 3);
    assert!(b.purchase(ALICE, 10).is_ok());
}

#[test]
fn purchase_without_funds_fails() {
    let mut b = Broker::new(10, 10);
    b.configure(test_config()).unwrap();
    b.start_sales(10, 1000).unwrap();
    advance_to(&mut b, 3);
    b.ledger.set_balance(ALICE, 9);
    assert_eq!(b.purchase(ALICE, 10), Err(Error::InsufficientFunds));
    assert_eq!(b.ledger.balance(ALICE), 9);
    assert_eq!(b.sale.unwrap().cores_sold, 0);
}

#[test]
fn rollover_follows_demand() {
    let mut b = Broker::new(10, 10);
    b.configure(test_config()).unwrap();
    b.start_sales(10, 1).unwrap();
    advance_to(&mut b, 3);
    b.ledger.set_balance(ALICE, 10);
    b.purchase(ALICE, 10).unwrap();
    // With the whole offer sold, demand met the ideal proportion, so the
    // rollover bumps the regular price by ten percent.
    advance_to(&mut b, 5);
    let s2 = b.sale.unwrap();
    assert_eq!(s2.region_begin, 7);
    assert_eq!(s2.region_end, 10);
    assert_eq!(s2.regular_price, 11);
    assert_eq!(s2.start_price, 22);
    assert_eq!(s2.cores_sold, 0);
    assert_eq!(s2.sellout_price, None);
}

#[test]
fn rollover_lowers_price_when_demand_lags() {
    let mut b = Broker::new(10, 10);
    let mut c = test_config();
    // An ideal proportion of one half: selling nothing lags behind it.
    c.ideal_bulk_proportion = 500_000_000;
    b.configure(c).unwrap();
    b.start_sales(100, 10).unwrap();
    assert_eq!(b.sale.unwrap().ideal_cores_sold, 5);
    advance_to(&mut b, 5);
    let s2 = b.sale.unwrap();
    assert_eq!(s2.regular_price, 90);
    assert_eq!(s2.start_price, 180);
}

#[test]
fn requested_core_count_applies_at_rollover() {
    let mut b = Broker::new(10, 10);
    b.configure(test_config()).unwrap();
    b.start_sales(10, 3).unwrap();
    b.request_core_count(7).unwrap();
    assert_eq!(
        b.events.last().copied(),
        Some(Event::CoreCountRequested { core_count: 7 })
    );
    assert_eq!(b.sale.unwrap().cores_offered, 3);
    advance_to(&mut b, 5);
    assert_eq!(b.core_count, 7);
    assert_eq!(b.sale.unwrap().cores_offered, 7);
    assert_eq!(b.pending_core_count, None);
}

#[test]
fn purchase_credit_debits_and_notifies() {
    let mut b = Broker::new(10, 10);
    b.ledger.set_balance(ALICE, 30);
    assert_eq!(b.purchase_credit(ALICE, 40, 9), Err(Error::InsufficientFunds));
    assert_eq!(b.ledger.balance(ALICE), 30);
    b.purchase_credit(ALICE, 20, 9).unwrap();
    assert_eq!(b.ledger.balance(ALICE), 10);
    assert_eq!(
        b.events.last().copied(),
        Some(Event::CreditPurchased { who: ALICE, beneficiary: 9, amount: 20 })
    );
}
