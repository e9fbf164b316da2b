use xyk_pool::common::AccountId;
use xyk_pool::felt::{Felt, MODULUS};
use xyk_pool::notes::{
    deposit_note_inputs, deposit_sqrt_hint, lp_local_deposit_note_inputs,
    lp_local_withdraw_note_inputs, swap_note_inputs, withdraw_note_inputs,
    xyk_swap_exact_input_note_inputs, xyk_swap_exact_output_note_inputs,
};

fn f(v: u64) -> Felt {
    Felt::from_canonical(v).unwrap()
}

fn vals(inputs: &[Felt]) -> Vec<u64> {
    inputs.iter().map(|x| x.as_canonical_u64()).collect()
}

#[test]
fn deposit_note_carries_sqrt_hint_only_for_first_deposit() {
    assert_eq!(deposit_sqrt_hint(10_000, 50_000, 0), 22360);
    assert_eq!(deposit_sqrt_hint(10_000, 50_000, 5), 0);
    assert_eq!(vals(&deposit_note_inputs(10_000, 50_000, 7, 0)), vec![1, 7, 22360]);
    assert_eq!(vals(&deposit_note_inputs(10_000, 50_000, 7, 1)), vec![1, 7, 0]);
    assert_eq!(vals(&deposit_note_inputs(1, 1, u64::MAX, 1)), vec![1, u64::MAX - MODULUS, 0]);
}

#[test]
fn swap_and_withdraw_note_layouts() {
    let digest = [f(11), f(12), f(13), f(14)];
    assert_eq!(
        vals(&swap_note_inputs(500, f(42), f(1), digest)),
        vec![0, 500, 42, 0, 1, 0, 11, 12, 13, 14]
    );
    assert_eq!(
        vals(&withdraw_note_inputs(900, f(42), f(1), digest)),
        vec![2, 900, 42, 0, 1, 0, 11, 12, 13, 14]
    );
}

#[test]
fn lp_local_note_layouts() {
    let user = AccountId { prefix: f(21), suffix: f(22) };
    assert_eq!(vals(&lp_local_deposit_note_inputs(user)), vec![21, 22]);
    let root = [f(31), f(32), f(33), f(34)];
    assert_eq!(
        vals(&lp_local_withdraw_note_inputs(1_000_000, f(7), f(1), root)),
        vec![1_000_000, 0, 0, 0, 7, 1, 0, 0, 31, 32, 33, 34]
    );
}

#[test]
fn xyk_swap_note_layouts() {
    let faucet = AccountId { prefix: f(51), suffix: f(52) };
    let digest = [f(61), f(62), f(63), f(64)];
    assert_eq!(
        vals(&xyk_swap_exact_output_note_inputs(faucet, 99_995, 1_700_000_000, f(3), f(1), digest)),
        vec![51, 52, 0, 99_995, 1_700_000_000, 3, 1, 0, 61, 62, 63, 64]
    );
    assert_eq!(
        vals(&xyk_swap_exact_input_note_inputs(99_995, 1_700_000_000, f(3), f(1), digest)),
        vec![0, 0, 0, 99_995, 1_700_000_000, 3, 1, 0, 61, 62, 63, 64]
    );
}
