//! Pool arithmetic: integer square roots, swap quotes with a 0.3% fee, LP
//! shares minted by a deposit and the reserves paid out by a withdrawal.

use vstd::prelude::*;

verus! {


// ---------------------------------------------------------------------------
// Integer square root
// ---------------------------------------------------------------------------


/// `r` is the floor of the square root of `n`.
pub open spec fn is_floor_sqrt(n: int, r: int) -> bool {
    &&& 0 <= r
    &&& r * r <= n
    &&& n < (r + 1) * (r + 1)
}

/// For `x > 0`, the Newton step `(x + n / x) / 2` never falls below the floor
/// square root of `n`: `n < (step + 1)^2`.
proof fn lemma_newton_step_stays_above(n: int, x: int)
    requires
        0 <= n,
        0 < x,
    ensures
        n < ((x + n / x) / 2 + 1) * ((x + n / x) / 2 + 1),
{
    let q = n / x;
    let m = (x + q) / 2;
    vstd::arithmetic::div_mod::lemma_fundamental_div_mod(n, x);
    assert(n < (q + 1) * x) by (nonlinear_arith)
        requires
            n == x * q + n % x,
            0 <= n % x < x,
    {}
    assert(4 * ((q + 1) * x) <= (q + 1 + x) * (q + 1 + x)) by (nonlinear_arith);
    assert(q + 1 + x <= 2 * (m + 1));
    assert(q >= 0) by (nonlinear_arith)
        requires 0 <= n, 0 < x, q == n / x {}
    assert((q + 1 + x) * (q + 1 + x) <= (2 * (m + 1)) * (2 * (m + 1))) by (nonlinear_arith)
        requires 0 <= q + 1 + x <= 2 * (m + 1) {}
    assert(n < (m + 1) * (m + 1)) by (nonlinear_arith)
        requires
            n < (q + 1) * x,
            4 * ((q + 1) * x) <= (q + 1 + x) * (q + 1 + x),
            (q + 1 + x) * (q + 1 + x) <= (2 * (m + 1)) * (2 * (m + 1)),
    {}
}

/// If `x * x > n` then the Newton step strictly decreases `x`.
proof fn lemma_newton_step_decreases(n: int, x: int)
    requires
        0 <= n,
        0 < x,
        n < x * x,
    ensures
        (x + n / x) / 2 < x,
{
    assert(n / x < x) by (nonlinear_arith)
        requires 0 <= n, 0 < x, n < x * x {
        vstd::arithmetic::div_mod::lemma_div_by_multiple_is_strongly_ordered(n, x * x, x, x);
        vstd::arithmetic::div_mod::lemma_div_by_multiple(x, x);
    }
}

/// Integer square root (floor), computed with Newton's method.
pub fn isqrt(n: u128) -> (r: u128)
    ensures
        is_floor_sqrt(n as int, r as int),
{
    if n == 0 {
        assert(is_floor_sqrt(0, 0)) by (nonlinear_arith);
        return 0;
    }
    let mut x = n;
    // `(x + 1) / 2`, written so that it cannot overflow at `u128::MAX`
    let mut y = x / 2 + x % 2;
    proof {
        assert(n / n == 1) by (nonlinear_arith) requires n > 0 {}
        lemma_newton_step_stays_above(n as int, n as int);
        assert(n < (n + 1) * (n + 1)) by (nonlinear_arith) requires n > 0 {}
    }
    while y < x
        invariant
            1 <= n <= u128::MAX,
            1 <= x <= n,
            x == n || x <= n / 2 + 1,
            n < (x + 1) * (x + 1),
            y == (x + n / x) / 2,
            n < (y + 1) * (y + 1),
        decreases x,
    {
        proof {
            if x == n {
                assert(n / n == 1) by (nonlinear_arith) requires n > 0 {}
            }
        }
        x = y;
        proof {
            assert(x >= 1) by (nonlinear_arith)
                requires n >= 1, n < (x + 1) * (x + 1), x >= 0 {}
            assert(n / x <= n) by (nonlinear_arith) requires n >= 1, x >= 1 {
                vstd::arithmetic::div_mod::lemma_div_is_ordered_by_denominator(n as int, 1, x as int);
            }
            if x == 1 {
                assert(n / 1 == n);
                assert(n < 4) by (nonlinear_arith) requires n < (x + 1) * (x + 1), x == 1 {}
            }
            if x >= 2 {
                assert(n / x <= n / 2) by (nonlinear_arith) requires n >= 1, x >= 2 {
                    vstd::arithmetic::div_mod::lemma_div_is_ordered_by_denominator(n as int, 2, x as int);
                }
            }
            lemma_newton_step_stays_above(n as int, x as int);
        }
        y = (x + n / x) / 2;
    }
    proof {
        if n < x * x {
            lemma_newton_step_decreases(n as int, x as int);
        }
    }
    x
}


// ---------------------------------------------------------------------------
// Swap and LP arithmetic
// ---------------------------------------------------------------------------

/// Liquidity locked forever by the first deposit of a pool.
pub const MINIMUM_LIQUIDITY: u64 = 100;

/// `x` reduced to the 64 bits that an `as u64` cast keeps.
pub open spec fn wrap_u64(x: int) -> int {
    x % 0x1_0000_0000_0000_0000
}

/// Input amount after the 0.3% swap fee, in thousandths.
pub open spec fn fee_adjusted(amount_in: int) -> int {
    amount_in * 997
}

/// Output of a swap of `amount_in` against reserves `(reserve_in, reserve_out)`:
/// `reserve_out * 0.997 * amount_in / (reserve_in + 0.997 * amount_in)`, rounded down.
pub open spec fn amount_out(amount_in: int, reserve_in: int, reserve_out: int) -> int {
    (reserve_out * fee_adjusted(amount_in)) / (reserve_in * 1000 + fee_adjusted(amount_in))
}

/// Input needed for a swap to pay out `amount_out`, rounded down, before the
/// result is cut to 64 bits.
pub open spec fn amount_in_unwrapped(amount_out: int, reserve_in: int, reserve_out: int) -> int {
    (reserve_in * (amount_out * 1000)) / ((reserve_out - amount_out) * 997)
}

/// LP shares that a deposit into a pool with `total_lp > 0` mints, token by
/// token, each cut to 64 bits.
pub open spec fn proportional_lp(amount: int, reserve: int, total_lp: int) -> int {
    wrap_u64((amount * total_lp) / reserve)
}

/// Share of `reserve` that burning `lp_amount` out of `total_supply` pays out.
pub open spec fn withdraw_share(lp_amount: int, reserve: int, total_supply: int) -> int {
    wrap_u64((lp_amount * reserve) / total_supply)
}

/// The smaller of `a` and `b`.
pub open spec fn min_int(a: int, b: int) -> int {
    if a <= b { a } else { b }
}

proof fn lemma_scaled_quotient_le(a: int, f: int, d: int)
    requires
        0 <= a,
        0 <= f <= d,
        0 < d,
    ensures
        0 <= (a * f) / d <= a,
{
    assert(0 <= a * f <= a * d) by (nonlinear_arith) requires 0 <= a, 0 <= f <= d {}
    vstd::arithmetic::div_mod::lemma_div_is_ordered(a * f, a * d, d);
    vstd::arithmetic::div_mod::lemma_div_by_multiple(a, d);
    vstd::arithmetic::div_mod::lemma_div_pos_is_pos(a * f, d);
}

proof fn lemma_u64_product_fits(a: u64, b: u64)
    ensures
        0 <= a * b <= 0xffff_ffff_ffff_ffff * 0xffff_ffff_ffff_ffff,
        a * b < u128::MAX,
{
    assert(0 <= a * b <= 0xffff_ffff_ffff_ffff * 0xffff_ffff_ffff_ffff) by (nonlinear_arith)
        requires a <= 0xffff_ffff_ffff_ffffu64, b <= 0xffff_ffff_ffff_ffffu64 {}
}

proof fn lemma_as_u64_wraps(x: u128)
    ensures
        (x as u64) as int == wrap_u64(x as int),
{
    assert((x as u64) as int == x % 0x1_0000_0000_0000_0000) by (bit_vector);
}

/// Expected output amount for a swap (0.3% fee).
pub fn get_amount_out(amount_in: u64, reserve_in: u64, reserve_out: u64) -> (out: u64)
    requires
        reserve_in * 1000 + fee_adjusted(amount_in as int) > 0,
        reserve_out * fee_adjusted(amount_in as int) <= u128::MAX,
    ensures
        out == amount_out(amount_in as int, reserve_in as int, reserve_out as int),
        out <= reserve_out,
{
    let fee_adjusted = amount_in as u128 * 997;
    let numerator = reserve_out as u128 * fee_adjusted;
    let denominator = reserve_in as u128 * 1000 + fee_adjusted;
    proof {
        lemma_scaled_quotient_le(reserve_out as int, fee_adjusted as int, denominator as int);
    }
    (numerator / denominator) as u64
}

/// Expected input amount for a swap (0.3% fee); the quotient is cut to 64 bits.
pub fn get_amount_in(amount_out: u64, reserve_in: u64, reserve_out: u64) -> (amount_in: u64)
    requires
        amount_out < reserve_out,
        reserve_in * (amount_out * 1000) <= u128::MAX,
    ensures
        amount_in == wrap_u64(amount_in_unwrapped(amount_out as int, reserve_in as int, reserve_out as int)),
{
    let amount_out_scaled = amount_out as u128 * 1000;
    let numerator = reserve_in as u128 * amount_out_scaled;
    let denominator = (reserve_out as u128 - amount_out as u128) * 997;
    let quotient = numerator / denominator;
    proof {
        lemma_as_u64_wraps(quotient);
    }
    #[verifier::truncate] (quotient as u64)
}

/// Expected LP tokens for a deposit of `(amount0, amount1)`.
///
/// The first deposit (`total_lp == 0`) mints the floor square root of
/// `amount0 * amount1` minus the locked `MINIMUM_LIQUIDITY`; later deposits
/// mint the smaller of the two proportional shares.
pub fn compute_expected_lp(
    amount0: u64,
    amount1: u64,
    reserve0: u64,
    reserve1: u64,
    total_lp: u64,
) -> (lp: u64)
    requires
        total_lp == 0 ==> amount0 * amount1 >= 10000,
        total_lp != 0 ==> reserve0 > 0 && reserve1 > 0,
    ensures
        total_lp == 0 ==> is_floor_sqrt(amount0 * amount1, lp + MINIMUM_LIQUIDITY),
        total_lp != 0 ==> lp == min_int(
            proportional_lp(amount0 as int, reserve0 as int, total_lp as int),
            proportional_lp(amount1 as int, reserve1 as int, total_lp as int),
        ),
        total_lp != 0
            && amount0 * total_lp < 0x1_0000_0000_0000_0000 * reserve0
            && amount1 * total_lp < 0x1_0000_0000_0000_0000 * reserve1 ==> {
            &&& lp * reserve0 <= amount0 * total_lp
            &&& lp * reserve1 <= amount1 * total_lp
            &&& ((lp + 1) * reserve0 > amount0 * total_lp || (lp + 1) * reserve1 > amount1 * total_lp)
        },
{
    if total_lp == 0 {
        proof {
            lemma_u64_product_fits(amount0, amount1);
        }
        let product = amount0 as u128 * amount1 as u128;
        let root = isqrt(product);
        proof {
            assert(root < 0x1_0000_0000_0000_0000) by (nonlinear_arith)
                requires root * root <= product, product < 0x1_0000_0000_0000_0000 * 0x1_0000_0000_0000_0000, root >= 0 {}
            assert(root >= 100) by (nonlinear_arith)
                requires product >= 10000, product < (root + 1) * (root + 1), root >= 0 {}
        }
        root as u64 - MINIMUM_LIQUIDITY
    } else {
        proof {
            lemma_u64_product_fits(amount0, total_lp);
            lemma_u64_product_fits(amount1, total_lp);
        }
        let q0 = amount0 as u128 * total_lp as u128 / reserve0 as u128;
        let q1 = amount1 as u128 * total_lp as u128 / reserve1 as u128;
        proof {
            lemma_as_u64_wraps(q0);
            lemma_as_u64_wraps(q1);
        }
        let lp0 = #[verifier::truncate] (q0 as u64);
        let lp1 = #[verifier::truncate] (q1 as u64);
        proof {
            if amount0 * total_lp < 0x1_0000_0000_0000_0000 * reserve0
                && amount1 * total_lp < 0x1_0000_0000_0000_0000 * reserve1 {
                crate::pool_laws::law_expected_lp_is_floor_of_smaller_share(
                    amount0, amount1, reserve0, reserve1, total_lp);
            }
        }
        if lp0 <= lp1 { lp0 } else { lp1 }
    }
}

/// Expected output amounts `(amount_0, amount_1)` for burning `lp_amount`
/// out of `total_supply`.
pub fn compute_expected_withdraw(
    total_supply: u64,
    lp_amount: u64,
    reserve_0: u64,
    reserve_1: u64,
) -> (amounts: (u64, u64))
    requires
        total_supply > 0,
    ensures
        amounts.0 == withdraw_share(lp_amount as int, reserve_0 as int, total_supply as int),
        amounts.1 == withdraw_share(lp_amount as int, reserve_1 as int, total_supply as int),
        lp_amount * reserve_0 < 0x1_0000_0000_0000_0000 * total_supply ==>
            amounts.0 * total_supply <= lp_amount * reserve_0 < (amounts.0 + 1) * total_supply,
        lp_amount * reserve_1 < 0x1_0000_0000_0000_0000 * total_supply ==>
            amounts.1 * total_supply <= lp_amount * reserve_1 < (amounts.1 + 1) * total_supply,
{
    proof {
        lemma_u64_product_fits(lp_amount, reserve_0);
        lemma_u64_product_fits(lp_amount, reserve_1);
    }
    let amount_0 = lp_amount as u128 * reserve_0 as u128 / total_supply as u128;
    let amount_1 = lp_amount as u128 * reserve_1 as u128 / total_supply as u128;
    proof {
        lemma_as_u64_wraps(amount_0);
        lemma_as_u64_wraps(amount_1);
        if lp_amount * reserve_0 < 0x1_0000_0000_0000_0000 * total_supply {
            crate::pool_laws::law_withdraw_is_floor_of_pro_rata_share(lp_amount, reserve_0, total_supply);
        }
        if lp_amount * reserve_1 < 0x1_0000_0000_0000_0000 * total_supply {
            crate::pool_laws::law_withdraw_is_floor_of_pro_rata_share(lp_amount, reserve_1, total_supply);
        }
    }
    (#[verifier::truncate] (amount_0 as u64), #[verifier::truncate] (amount_1 as u64))
}


// ---------------------------------------------------------------------------
// Assembly sources
// ---------------------------------------------------------------------------

/// Source of a transaction script that runs the pool procedure
/// `procedure_name` with `call`.
pub fn pool_tx_script_source(procedure_name: &str) -> (source: String)
    ensures
        source@ == "use zoro::xyk_pool\nbegin\n    call.xyk_pool::"@ + procedure_name@ + "\nend"@,
{
    let mut source = String::from_str("use zoro::xyk_pool\nbegin\n    call.xyk_pool::");
    source.append(procedure_name);
    source.append("\nend");
    source
}

/// Source of a note script that runs the pool procedure `procedure_name`
/// with `call`.
pub fn pool_note_script_source(procedure_name: &str) -> (source: String)
    ensures
        source@ == "use.zoro::xyk_pool\nbegin\n    call.xyk_pool::"@ + procedure_name@ + "\nend"@,
{
    let mut source = String::from_str("use.zoro::xyk_pool\nbegin\n    call.xyk_pool::");
    source.append(procedure_name);
    source.append("\nend");
    source
}

/// `s` with every occurrence of `pat`, scanned left to right without
/// overlaps, replaced by `rep`.
pub open spec fn replace_all(s: Seq<char>, pat: Seq<char>, rep: Seq<char>) -> Seq<char>
    decreases s.len(),
{
    if pat.len() == 0 || s.len() < pat.len() {
        s
    } else if s.subrange(0, pat.len() as int) == pat {
        rep + replace_all(s.subrange(pat.len() as int, s.len() as int), pat, rep)
    } else {
        seq![s[0]] + replace_all(s.subrange(1, s.len() as int), pat, rep)
    }
}

/// The characters of `s`.
fn chars_of(s: &str) -> (chars: Vec<char>)
    ensures
        chars@ == s@,
{
    broadcast use vstd::string::group_string_axioms;
    let mut chars: Vec<char> = Vec::new();
    for c in it: s.chars()
        invariant
            chars@ == it.seq().take(it.index() as int),
            it.seq() == s@,
    {
        chars.push(c);
    }
    assert(chars@ =~= s@);
    chars
}

/// Whether `pat` occurs in `chars` at position `at`.
fn matches_at(chars: &Vec<char>, pat: &Vec<char>, at: usize) -> (found: bool)
    requires
        at + pat@.len() <= chars@.len(),
    ensures
        found == (chars@.subrange(at as int, at + pat@.len()) == pat@),
{
    let len = chars.len();
    let mut k: usize = 0;
    while k < pat.len()
        invariant
            len == chars@.len(),
            at + pat@.len() <= chars@.len(),
            k <= pat@.len(),
            forall|j: int| 0 <= j < k ==> chars@[at + j] == pat@[j],
        decreases pat@.len() - k,
    {
        if chars[at + k] != pat[k] {
            assert(chars@.subrange(at as int, at + pat@.len())[k as int] != pat@[k as int]);
            return false;
        }
        k = k + 1;
    }
    assert(chars@.subrange(at as int, at + pat@.len()) =~= pat@);
    true
}

/// `s` with every occurrence of the non-empty `pat` replaced by `rep`, as
/// `str::replace` does.
pub fn replace_str(s: &str, pat: &str, rep: &str) -> (out: String)
    requires
        pat@.len() > 0,
    ensures
        out@ == replace_all(s@, pat@, rep@),
{
    let chars = chars_of(s);
    let pat_chars = chars_of(pat);
    let n = chars.len();
    let m = pat_chars.len();
    let mut out = String::new();
    let mut seg: usize = 0;
    let mut i: usize = 0;
    assert(s@.subrange(0, n as int) =~= s@);
    while m <= n - i
        invariant
            chars@ == s@,
            pat_chars@ == pat@,
            n == s@.len(),
            m == pat@.len(),
            m > 0,
            seg <= i <= n,
            replace_all(s@, pat@, rep@)
                == out@ + s@.subrange(seg as int, i as int) + replace_all(s@.subrange(i as int, n as int), pat@, rep@),
        decreases n - i,
    {
        let ghost rest = s@.subrange(i as int, n as int);
        assert(rest.subrange(0, m as int) =~= s@.subrange(i as int, i + m));
        if matches_at(&chars, &pat_chars, i) {
            assert(rest.subrange(m as int, rest.len() as int) =~= s@.subrange(i + m, n as int));
            let piece = s.substring_char(seg, i);
            out.append(piece);
            out.append(rep);
            i = i + m;
            seg = i;
            assert(s@.subrange(seg as int, i as int) =~= Seq::<char>::empty());
        } else {
            assert(rest.subrange(1, rest.len() as int) =~= s@.subrange(i + 1, n as int));
            assert(s@.subrange(seg as int, i as int) + seq![rest[0]] =~= s@.subrange(seg as int, i + 1));
            i = i + 1;
        }
    }
    let tail = s.substring_char(seg, n);
    out.append(tail);
    assert(s@.subrange(seg as int, i as int) + s@.subrange(i as int, n as int) =~= s@.subrange(seg as int, n as int));
    out
}

/// Source of the LP fuzzing library: the LP library source with its `mint`
/// and `burn` procedures made public. Nothing else changes; the helper that
/// reads a user's deposit is exported by the LP library source itself.
pub fn generate_lp_local_fuzz_dummy_source(lp_local_source: &str) -> (source: String)
    ensures
        source@ == replace_all(
            replace_all(lp_local_source@, "proc mint#"@, "pub proc mint#"@),
            "proc burn#"@,
            "pub proc burn#"@,
        ),
{
    proof {
        reveal_strlit("proc mint#");
        reveal_strlit("proc burn#");
    }
    let with_mint = replace_str(lp_local_source, "proc mint#", "pub proc mint#");
    replace_str(with_mint.as_str(), "proc burn#", "pub proc burn#")
}

} // verus!
