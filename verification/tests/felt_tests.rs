use xyk_pool::common::{
    assets_mapping_value, fund_amount, get_return_note_serial, pool_assets_word,
    registry_id_word, scalar_word, initial_user_deposit_word, wait_for_note_step, AccountId, WaitStep,
};
use xyk_pool::felt::{Felt, MODULUS};
use xyk_pool::utils::{order_assets_as_felts, OrderAssetsError};

fn f(v: u64) -> Felt {
    Felt::from_canonical(v).unwrap()
}

#[test]
fn felt_new_reduces_modulo_p() {
    assert_eq!(Felt::new(5).as_canonical_u64(), 5);
    assert_eq!(Felt::new(MODULUS).as_canonical_u64(), 0);
    assert_eq!(Felt::new(u64::MAX).as_canonical_u64(), u64::MAX - MODULUS);
    assert!(Felt::from_canonical(MODULUS).is_none());
    assert_eq!(f(MODULUS - 1).field_add(f(2)).as_canonical_u64(), 1);
}

#[test]
fn return_note_serial_reverses_and_increments() {
    let serial = [f(1), f(2), f(3), f(4)];
    let id = AccountId { prefix: f(9), suffix: f(8) };
    let out = get_return_note_serial(serial, id);
    assert_eq!(out, [f(5), f(3), f(2), f(1)]);
    let wrapping = [f(1), f(2), f(3), f(MODULUS - 1)];
    assert_eq!(get_return_note_serial(wrapping, id)[0], f(0));
}

#[test]
fn order_assets_edge_cases() {
    let max_val = u64::MAX >> 1;
    let cases = [
        (0, 0, 0, 1),
        (0, 1, 0, 0),
        (1, 0, 0, 0),
        (0, 0, 1, 0),
        (100, 200, 100, 300),
        (100, 300, 100, 200),
        (1, 1, 2, 2),
        (2, 2, 1, 1),
        (max_val, max_val, 0, 0),
        (0, 0, max_val, max_val),
    ];
    for (a0p, a0s, a1p, a1s) in cases {
        let got = order_assets_as_felts(f(a0p), f(a0s), f(a1p), f(a1s)).unwrap();
        let expected = if (a0p, a0s) < (a1p, a1s) {
            (f(a0p), f(a0s), f(a1p), f(a1s))
        } else {
            (f(a1p), f(a1s), f(a0p), f(a0s))
        };
        assert_eq!(got, expected);
        let swapped = order_assets_as_felts(f(a1p), f(a1s), f(a0p), f(a0s)).unwrap();
        assert_eq!(got, swapped);
    }
}

#[test]
fn order_assets_same_asset_is_refused() {
    assert_eq!(
        order_assets_as_felts(f(7), f(11), f(7), f(11)),
        Err(OrderAssetsError::SameAsset)
    );
}

#[test]
fn storage_layout_words() {
    let t0 = AccountId { prefix: f(1), suffix: f(2) };
    let t1 = AccountId { prefix: f(3), suffix: f(4) };
    assert_eq!(pool_assets_word(t0, t1), [f(1), f(2), f(3), f(4)]);
    assert_eq!(assets_mapping_value(t0, t1), [f(4), f(3), f(2), f(1)]);
    assert_eq!(registry_id_word(t1), [f(4), f(3), f(0), f(0)]);
    assert_eq!(initial_user_deposit_word(), [f(0), f(0), f(0), f(1)]);
}

#[test]
fn fund_amount_defaults_to_five_hundredths_of_a_token() {
    assert_eq!(fund_amount(1_000, 8), 1_000);
    assert_eq!(fund_amount(0, 8), 5_000_000);
    assert_eq!(fund_amount(0, 2), 5);
    assert_eq!(fund_amount(0, 20), 5_000_000_000_000_000_000);
}

#[test]
fn scalar_word_layout() {
    assert_eq!(scalar_word(1), [f(1), f(0), f(0), f(0)]);
    assert_eq!(scalar_word(MODULUS + 3), [f(3), f(0), f(0), f(0)]);
}

#[test]
fn waiting_stops_once_the_note_is_consumable() {
    let a = [f(1), f(2), f(3), f(4)];
    let b = [f(1), f(2), f(3), f(5)];
    assert_eq!(wait_for_note_step(&vec![], &a), WaitStep::Retry);
    assert_eq!(wait_for_note_step(&vec![b], &a), WaitStep::Retry);
    assert_eq!(wait_for_note_step(&vec![b, a], &a), WaitStep::Found);
}
