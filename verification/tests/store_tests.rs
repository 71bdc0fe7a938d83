use broker::{Broker, Error, HookedMap, LeaseRecordItem, Schedule};

#[test]
fn hooked_map_insert_reports_the_displaced_value() {
    let mut m: HookedMap<u64, u64> = HookedMap::new();
    assert!(!m.contains_key(&1));
    assert_eq!(m.insert(1, 10), None);
    assert_eq!(m.insert(1, 20), Some(10));
    assert!(m.contains_key(&1));
    assert_eq!(m.get(&1), Some(&20));
    assert_eq!(m.get(&2), None);
}

#[test]
fn hooked_map_remove_reports_the_displaced_value() {
    let mut m: HookedMap<u64, u64> = HookedMap::new();
    m.insert(1, 10);
    m.insert(2, 20);
    assert_eq!(m.remove(&3), None);
    assert_eq!(m.remove(&1), Some(10));
    assert_eq!(m.remove(&1), None);
    assert!(!m.contains_key(&1));
    assert_eq!(m.get(&2), Some(&20));
}

#[test]
fn hooked_map_swap_exchanges_values() {
    let mut m: HookedMap<u32, u64> = HookedMap::new();
    m.insert(1, 10);
    m.insert(2, 20);
    m.swap(&1, &2);
    assert_eq!(m.get(&1), Some(&20));
    assert_eq!(m.get(&2), Some(&10));
    // A lone value moves across to the empty key.
    m.swap(&1, &3);
    assert_eq!(m.get(&1), None);
    assert_eq!(m.get(&3), Some(&20));
    // Swapping two empty keys changes nothing.
    m.swap(&4, &5);
    assert_eq!(m.get(&4), None);
    assert_eq!(m.get(&5), None);
}

#[test]
fn hooked_map_keys_lists_each_key_once() {
    let mut m: HookedMap<u32, u64> = HookedMap::new();
    m.insert(1, 10);
    m.insert(2, 20);
    m.insert(2, 21);
    m.insert(3, 30);
    m.remove(&1);
    let mut ks = m.keys();
    ks.sort();
    assert_eq!(ks, vec![2, 3]);
}

#[test]
fn ledger_debit_and_credit() {
    let mut b = Broker::new(0, 0);
    assert_eq!(b.ledger.balance(1), 0);
    b.ledger.set_balance(1, 50);
    assert!(b.ledger.debit(1, 30));
    assert_eq!(b.ledger.balance(1), 20);
    assert!(!b.ledger.debit(1, 21));
    assert_eq!(b.ledger.balance(1), 20);
    b.ledger.credit(1, 5);
    assert_eq!(b.ledger.balance(1), 25);
    b.ledger.credit(1, u64::MAX);
    assert_eq!(b.ledger.balance(1), u64::MAX);
}

#[test]
fn reservations_are_bounded() {
    let mut b = Broker::new(1, 1);
    b.reserve(Schedule::new()).unwrap();
    assert_eq!(b.reserve(Schedule::new()), Err(Error::Unavailable));
    assert_eq!(b.reservations.len(), 1);
    assert_eq!(b.unreserve(1), Err(Error::NotFound));
    b.unreserve(0).unwrap();
    assert_eq!(b.reservations.len(), 0);
    assert_eq!(b.unreserve(0), Err(Error::NotFound));
}

#[test]
fn leases_are_bounded_and_future() {
    let mut b = Broker::new(1, 1);
    assert_eq!(b.set_lease(7, 0), Err(Error::Unavailable));
    b.set_lease(7, 10).unwrap();
    assert_eq!(b.leases, vec![LeaseRecordItem { task: 7, until: 10 }]);
    assert_eq!(b.set_lease(8, 10), Err(Error::Unavailable));
}

#[test]
fn every_successful_market_call_logs_one_notification() {
    let mut b = Broker::new(10, 10);
    b.configure(broker::ConfigRecord {
        advance_notice: 2,
        interlude_length: 1,
        leadin_length: 1,
        ideal_bulk_proportion: 0,
        limit_cores_offered: None,
        region_length: 3,
        renewal_bump: 100_000_000,
        contribution_timeout: 5,
    })
    .unwrap();
    b.start_sales(10, 1000).unwrap();
    assert_eq!(b.events.len(), 1);
    while b.now < 3 {
        b.on_new_timeslice();
    }
    b.ledger.set_balance(1, 10);
    let region = b.purchase(1, 10).unwrap();
    assert_eq!(b.events.len(), 2);
    b.transfer(1, region, 2).unwrap();
    assert_eq!(b.events.len(), 3);
    // A failed call leaves the log untouched.
    assert!(b.transfer(1, region, 2).is_err());
    assert_eq!(b.events.len(), 3);
}
