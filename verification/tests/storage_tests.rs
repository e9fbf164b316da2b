use xyk_pool::common::AccountId;
use xyk_pool::felt::Felt;
use xyk_pool::storage::{
    combined_pool_storage_slots, lp_local_fuzz_dummy_storage_slots, lp_local_pool_storage_slots,
    registry_storage_slots, storage_fuzz_dummy_storage_slots, xyk_pool_storage_slots, SlotContent,
    SlotSpec,
};

fn f(v: u64) -> Felt {
    Felt::from_canonical(v).unwrap()
}

fn w(a: u64, b: u64, c: u64, d: u64) -> [Felt; 4] {
    [f(a), f(b), f(c), f(d)]
}

fn value(s: &SlotSpec) -> [Felt; 4] {
    match &s.content {
        SlotContent::Value(v) => *v,
        SlotContent::Entries(_) => panic!("{} is a map slot", s.name),
    }
}

fn entries(s: &SlotSpec) -> Vec<([Felt; 4], [Felt; 4])> {
    match &s.content {
        SlotContent::Entries(e) => e.clone(),
        SlotContent::Value(_) => panic!("{} is a value slot", s.name),
    }
}

fn names(slots: &[SlotSpec]) -> Vec<&str> {
    slots.iter().map(|s| s.name.as_str()).collect()
}

#[test]
fn xyk_pool_slots_follow_the_documented_layout() {
    let t0 = AccountId { prefix: f(1), suffix: f(2) };
    let t1 = AccountId { prefix: f(3), suffix: f(4) };
    let slots = xyk_pool_storage_slots(t0, t1);
    assert_eq!(
        names(&slots),
        vec!["zoro::lp_local::reserve", "zoro::lp_local::config", "zoro::lp_local::lp_shares"]
    );
    assert_eq!(value(&slots[0]), w(0, 0, 0, 0));
    assert_eq!(value(&slots[1]), w(1, 2, 3, 4));
    assert!(entries(&slots[2]).is_empty());
}

#[test]
fn lp_local_pool_slots_start_with_empty_user_deposits() {
    let t0 = AccountId { prefix: f(1), suffix: f(2) };
    let t1 = AccountId { prefix: f(3), suffix: f(4) };
    let slots = lp_local_pool_storage_slots(t0, t1);
    assert_eq!(
        names(&slots),
        vec![
            "zoro::lp_local::assets_mapping",
            "zoro::lp_local::reserve",
            "zoro::lp_local::total_supply",
            "zoro::lp_local::user_deposits_mapping",
        ]
    );
    assert_eq!(entries(&slots[0]), vec![(w(0, 0, 0, 0), w(4, 3, 2, 1))]);
    assert_eq!(value(&slots[1]), w(0, 0, 0, 0));
    assert_eq!(value(&slots[2]), w(0, 0, 0, 0));
    assert!(entries(&slots[3]).is_empty());
    let fuzz = lp_local_fuzz_dummy_storage_slots();
    assert!(entries(&fuzz[0]).is_empty());
    assert!(entries(&fuzz[3]).is_empty());
}

#[test]
fn combined_pool_slots() {
    let t0 = AccountId { prefix: f(1), suffix: f(2) };
    let t1 = AccountId { prefix: f(3), suffix: f(4) };
    let reg = AccountId { prefix: f(5), suffix: f(6) };
    let slots = combined_pool_storage_slots(t0, t1, reg, w(7, 8, 9, 10));
    assert_eq!(slots.len(), 6);
    assert_eq!(entries(&slots[3]), vec![(w(0, 0, 0, 1), w(0, 0, 0, 1))]);
    assert_eq!(value(&slots[4]), w(6, 5, 0, 0));
    assert_eq!(value(&slots[5]), w(7, 8, 9, 10));
}

#[test]
fn storage_fuzz_and_registry_slots() {
    let slots = storage_fuzz_dummy_storage_slots(100, 10);
    assert_eq!(value(&slots[0]), w(100, 0, 0, 0));
    assert_eq!(entries(&slots[1]), vec![(w(0, 0, 0, 0), w(10, 0, 0, 0))]);
    let hashes = vec![w(1, 2, 3, 4), w(5, 6, 7, 8)];
    let registry = registry_storage_slots(&hashes);
    assert!(entries(&registry[0]).is_empty());
    assert!(entries(&registry[1]).is_empty());
    assert_eq!(
        entries(&registry[2]),
        vec![(w(1, 2, 3, 4), w(1, 0, 0, 0)), (w(5, 6, 7, 8), w(1, 0, 0, 0))]
    );
}
