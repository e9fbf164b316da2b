use xyk_pool::pool_ops::{
    compute_expected_lp, compute_expected_withdraw, generate_lp_local_fuzz_dummy_source,
    get_amount_in, get_amount_out, isqrt, pool_note_script_source, pool_tx_script_source,
    replace_str,
};

#[test]
fn test_isqrt() {
    assert_eq!(isqrt(0), 0);
    assert_eq!(isqrt(1), 1);
    assert_eq!(isqrt(4), 2);
    assert_eq!(isqrt(9), 3);
    assert_eq!(isqrt(10), 3);
    assert_eq!(isqrt(10_000 * 50_000), 22360);
}

#[test]
fn isqrt_edge_values() {
    assert_eq!(isqrt(2), 1);
    assert_eq!(isqrt(3), 1);
    assert_eq!(isqrt(15), 3);
    assert_eq!(isqrt(16), 4);
    assert_eq!(isqrt(255), 15);
    assert_eq!(isqrt(65535), 255);
    assert_eq!(isqrt(u32::MAX as u128), 65535);
    assert_eq!(isqrt(u128::MAX - 1), u64::MAX as u128);
    assert_eq!(isqrt(u128::MAX), u64::MAX as u128);
    let big = (u64::MAX as u128) * (u64::MAX as u128);
    assert_eq!(isqrt(big), u64::MAX as u128);
    assert_eq!(isqrt(big - 1), u64::MAX as u128 - 1);
}

#[test]
fn isqrt_is_floor_square_root() {
    let mut n: u128 = 0;
    while n < 5000 {
        let r = isqrt(n);
        assert!(r * r <= n && n < (r + 1) * (r + 1), "n={n} r={r}");
        n += 1;
    }
}

#[test]
fn test_swap_output() {
    let out = get_amount_out(1_000, 50_000, 50_000);
    assert!(out > 970 && out < 1000, "out={out}");
}

#[test]
fn get_amount_out_exact_value() {
    assert_eq!(get_amount_out(1_000, 50_000, 50_000), 977);
    assert_eq!(get_amount_out(0, 50_000, 50_000), 0);
    assert_eq!(get_amount_out(100, 0, 7_000), 7_000);
}

#[test]
fn get_amount_out_keeps_constant_product() {
    let (ai, ri, ro) = (123_456u64, 1_000_000_007u64, 98_765_432_101u64);
    let out = get_amount_out(ai, ri, ro);
    assert!((ri as u128 + ai as u128) * (ro as u128 - out as u128) >= ri as u128 * ro as u128);
    assert!(out < ro);
}

#[test]
fn get_amount_in_exact_value() {
    assert_eq!(get_amount_in(1_000, 50_000, 50_000), 1023);
    assert_eq!(get_amount_in(0, 50_000, 50_000), 0);
}

#[test]
fn get_amount_in_cuts_to_64_bits() {
    assert_eq!(get_amount_in(1, u64::MAX, 2), 55_506_752_478_564_346);
}

#[test]
fn get_amount_in_round_trip_is_tight() {
    let (ao, ri, ro) = (100_000u64, 5_000_000_000u64, 7_000_000_000u64);
    let ai = get_amount_in(ao, ri, ro);
    assert!(get_amount_out(ai, ri, ro) <= ao);
    assert!(get_amount_out(ai + 1, ri, ro) >= ao);
}

#[test]
fn compute_expected_lp_edge_cases() {
    assert_eq!(compute_expected_lp(100, 100, 0, 0, 0), 0);
    assert_eq!(compute_expected_lp(1_000_000, 1_000_000, 0, 0, 0), 999_900);
    assert_eq!(compute_expected_lp(100, 100, 1000, 1000, 1000), 100);
    assert_eq!(compute_expected_lp(500, 500, 50_000, 50_000, 10_000), 100);
    assert_eq!(compute_expected_lp(500, 300, 50_000, 50_000, 10_000), 60);
}

#[test]
fn compute_expected_lp_first_deposit_locks_minimum_liquidity() {
    let lp = compute_expected_lp(10_000, 50_000, 0, 0, 0);
    assert_eq!(lp + 100, 22360);
}

#[test]
fn compute_expected_withdraw_edge_cases() {
    assert_eq!(compute_expected_withdraw(100, 100, 100, 0), (100, 0));
    assert_eq!(compute_expected_withdraw(1_000_000, 1_000_000, 1_000_000, 0), (1_000_000, 0));
    assert_eq!(compute_expected_withdraw(1000, 100, 100, 1000), (10, 100));
    assert_eq!(compute_expected_withdraw(10_000, 500, 500, 50_000), (25, 2500));
}

#[test]
fn deposit_then_withdraw_returns_no_more() {
    let (a0, a1, r0, r1, tl) = (777u64, 1_234u64, 50_000u64, 90_000u64, 10_000u64);
    let lp = compute_expected_lp(a0, a1, r0, r1, tl);
    let (w0, w1) = compute_expected_withdraw(tl + lp, lp, r0 + a0, r1 + a1);
    assert!(w0 <= a0 && w1 <= a1, "lp={lp} w0={w0} w1={w1}");
}

#[test]
fn pool_script_sources() {
    assert_eq!(
        pool_tx_script_source("swap"),
        "use zoro::xyk_pool\nbegin\n    call.xyk_pool::swap\nend"
    );
    assert_eq!(
        pool_note_script_source("deposit"),
        "use.zoro::xyk_pool\nbegin\n    call.xyk_pool::deposit\nend"
    );
}

#[test]
fn replace_str_agrees_with_std() {
    let cases = [
        ("aaaa", "aa", "b"),
        ("abcabc", "bc", "XYZ"),
        ("", "x", "y"),
        ("xxx", "xxxx", "y"),
        ("héllo wörld", "ö", "oe"),
        ("proc mint#a proc mint#b", "proc mint#", "pub proc mint#"),
    ];
    for (s, pat, rep) in cases {
        assert_eq!(replace_str(s, pat, rep), s.replace(pat, rep), "s={s:?}");
    }
}

#[test]
fn fuzz_dummy_source_makes_mint_and_burn_public() {
    let source = "proc mint#x\n    nop\nend\nproc burn#y\nend\nproc other\nend\n";
    let expected = "pub proc mint#x\n    nop\nend\npub proc burn#y\nend\nproc other\nend\n";
    assert_eq!(generate_lp_local_fuzz_dummy_source(source), expected);
}
