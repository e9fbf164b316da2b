//! Properties that the pool arithmetic keeps across calls.

use vstd::prelude::*;
use vstd::arithmetic::div_mod::{
    lemma_div_is_ordered, lemma_div_by_multiple, lemma_fundamental_div_mod, lemma_small_mod,
    lemma_div_pos_is_pos, lemma_mod_bound,
};
use crate::pool_ops::{
    replace_all,
    is_floor_sqrt,
    amount_out, amount_in_unwrapped, fee_adjusted, min_int, proportional_lp, withdraw_share,
    wrap_u64,
};

verus! {

/// `q = a / d` satisfies `q * d <= a < (q + 1) * d` for `d > 0`.
proof fn lemma_quotient_bounds(a: int, d: int)
    requires
        0 < d,
    ensures
        (a / d) * d <= a < (a / d + 1) * d,
{
    lemma_fundamental_div_mod(a, d);
    lemma_mod_bound(a, d);
    assert((a / d) * d <= a < (a / d + 1) * d) by (nonlinear_arith)
        requires a == d * (a / d) + a % d, 0 <= a % d < d {}
}

/// `x <= a / d` whenever `x * d <= a` and `d > 0`.
proof fn lemma_le_quotient(x: int, a: int, d: int)
    requires
        0 < d,
        x * d <= a,
    ensures
        x <= a / d,
{
    lemma_quotient_bounds(a, d);
    assert(x <= a / d) by (nonlinear_arith)
        requires 0 < d, x * d <= a, a < (a / d + 1) * d {}
}

/// `a / d <= x` whenever `a <= x * d` and `d > 0`.
proof fn lemma_quotient_le(x: int, a: int, d: int)
    requires
        0 < d,
        a <= x * d,
    ensures
        a / d <= x,
{
    lemma_quotient_bounds(a, d);
    assert(a / d <= x) by (nonlinear_arith)
        requires 0 < d, a <= x * d, (a / d) * d <= a {}
}

/// Cutting a non-negative value to 64 bits never increases it, and keeps a
/// value below `2^64` unchanged.
proof fn lemma_wrap_u64_le(x: int)
    requires
        0 <= x,
    ensures
        0 <= wrap_u64(x) <= x,
        x < 0x1_0000_0000_0000_0000 ==> wrap_u64(x) == x,
{
    lemma_mod_bound(x, 0x1_0000_0000_0000_0000);
    lemma_fundamental_div_mod(x, 0x1_0000_0000_0000_0000);
    lemma_div_pos_is_pos(x, 0x1_0000_0000_0000_0000);
    if x < 0x1_0000_0000_0000_0000 {
        lemma_small_mod(x as nat, 0x1_0000_0000_0000_0000);
    }
}

/// The floor square root is unique: any two values that both satisfy
/// `r * r <= n < (r + 1) * (r + 1)` are equal.
pub proof fn law_floor_sqrt_unique(n: int, r1: int, r2: int)
    requires
        is_floor_sqrt(n, r1),
        is_floor_sqrt(n, r2),
    ensures
        r1 == r2,
{
    if r1 < r2 {
        assert((r1 + 1) * (r1 + 1) <= r2 * r2) by (nonlinear_arith)
            requires 0 <= r1, r1 + 1 <= r2 {}
    } else if r2 < r1 {
        assert((r2 + 1) * (r2 + 1) <= r1 * r1) by (nonlinear_arith)
            requires 0 <= r2, r2 + 1 <= r1 {}
    }
}

/// A swap never lowers the constant product: after paying `amount_in` in and
/// `amount_out(..)` out, `(reserve_in + amount_in) * (reserve_out - out)` is at
/// least `reserve_in * reserve_out`, and the pool never pays out more than it holds.
pub proof fn law_swap_keeps_constant_product(amount_in: u64, reserve_in: u64, reserve_out: u64)
    requires
        reserve_in * 1000 + fee_adjusted(amount_in as int) > 0,
    ensures
        0 <= amount_out(amount_in as int, reserve_in as int, reserve_out as int) <= reserve_out,
        (reserve_in + amount_in) * (reserve_out - amount_out(amount_in as int, reserve_in as int, reserve_out as int))
            >= reserve_in * reserve_out,
{
    let f = fee_adjusted(amount_in as int);
    let d = reserve_in * 1000 + f;
    let a = reserve_out * f;
    let o = amount_out(amount_in as int, reserve_in as int, reserve_out as int);
    assert(0 <= a <= reserve_out * d) by (nonlinear_arith)
        requires f == amount_in * 997, d == reserve_in * 1000 + f, a == reserve_out * f,
            amount_in >= 0, reserve_in >= 0, reserve_out >= 0 {}
    lemma_quotient_bounds(a, d);
    lemma_quotient_le(reserve_out as int, a, d);
    lemma_div_pos_is_pos(a, d);
    assert(o == a / d);
    assert((reserve_in + amount_in) * (reserve_out - o) >= reserve_in * reserve_out) by (nonlinear_arith)
        requires
            o * d <= a,
            0 <= o <= reserve_out,
            a == reserve_out * f,
            d == reserve_in * 1000 + f,
            f == amount_in * 997,
            amount_in >= 0,
            reserve_in >= 0,
    {
        assert((reserve_out - o) * d >= reserve_out * (reserve_in * 1000));
        assert((reserve_in + amount_in) * 1000 >= d);
        assert((reserve_in + amount_in) * (reserve_out - o) * 1000 >= (reserve_out - o) * d);
    }
}

/// With both reserves non-empty, a swap always leaves some of the output token
/// in the pool.
pub proof fn law_swap_output_below_reserve(amount_in: u64, reserve_in: u64, reserve_out: u64)
    requires
        reserve_in > 0,
        reserve_out > 0,
    ensures
        amount_out(amount_in as int, reserve_in as int, reserve_out as int) < reserve_out,
{
    let f = fee_adjusted(amount_in as int);
    let d = reserve_in * 1000 + f;
    let a = reserve_out * f;
    assert(a < reserve_out * d) by (nonlinear_arith)
        requires f == amount_in * 997, d == reserve_in * 1000 + f, a == reserve_out * f,
            amount_in >= 0, reserve_in > 0, reserve_out > 0 {}
    lemma_quotient_bounds(a, d);
    assert(a / d < reserve_out) by (nonlinear_arith)
        requires (a / d) * d <= a, a < reserve_out * d, d > 0 {}
}

/// A larger input never buys a smaller output.
pub proof fn law_amount_out_monotone(
    amount_in_1: u64,
    amount_in_2: u64,
    reserve_in: u64,
    reserve_out: u64,
)
    requires
        amount_in_1 <= amount_in_2,
        reserve_in * 1000 + fee_adjusted(amount_in_1 as int) > 0,
    ensures
        amount_out(amount_in_1 as int, reserve_in as int, reserve_out as int)
            <= amount_out(amount_in_2 as int, reserve_in as int, reserve_out as int),
{
    let f1 = fee_adjusted(amount_in_1 as int);
    let f2 = fee_adjusted(amount_in_2 as int);
    let c = reserve_in * 1000;
    let d1 = c + f1;
    let d2 = c + f2;
    let a1 = reserve_out * f1;
    let a2 = reserve_out * f2;
    let o1 = a1 / d1;
    lemma_quotient_bounds(a1, d1);
    assert(o1 * d2 <= a2) by (nonlinear_arith)
        requires
            o1 * d1 <= a1,
            a1 == reserve_out * f1,
            a2 == reserve_out * f2,
            d1 == c + f1,
            d2 == c + f2,
            0 <= f1 <= f2,
            c >= 0,
            d1 > 0,
            reserve_out >= 0,
    {
        assert(a1 * d2 <= a2 * d1);
        assert(o1 * d1 * d2 <= a1 * d2);
        assert(o1 * d2 * d1 <= a2 * d1);
    }
    lemma_le_quotient(o1, a2, d2);
}

/// Quoting the input for an exact output is tight: swapping the quoted input
/// pays out at most the requested output, and one more unit of input pays out
/// at least the requested output. The quote that `get_amount_in` returns is
/// that input whenever it fits in 64 bits.
pub proof fn law_amount_in_is_tight(amount_out_req: u64, reserve_in: u64, reserve_out: u64)
    requires
        reserve_in > 0,
        amount_out_req < reserve_out,
    ensures
        amount_in_unwrapped(amount_out_req as int, reserve_in as int, reserve_out as int) < 0x1_0000_0000_0000_0000
            ==> wrap_u64(amount_in_unwrapped(amount_out_req as int, reserve_in as int, reserve_out as int))
                == amount_in_unwrapped(amount_out_req as int, reserve_in as int, reserve_out as int),
        amount_out(amount_in_unwrapped(amount_out_req as int, reserve_in as int, reserve_out as int), reserve_in as int, reserve_out as int)
            <= amount_out_req,
        amount_out(amount_in_unwrapped(amount_out_req as int, reserve_in as int, reserve_out as int) + 1, reserve_in as int, reserve_out as int)
            >= amount_out_req,
{
    let ao = amount_out_req as int;
    let ri = reserve_in as int;
    let ro = reserve_out as int;
    let n = ri * (ao * 1000);
    let dd = (ro - ao) * 997;
    let i = amount_in_unwrapped(ao, ri, ro);
    assert(n >= 0 && dd > 0) by (nonlinear_arith)
        requires ri > 0, ao >= 0, ao < ro, n == ri * (ao * 1000), dd == (ro - ao) * 997 {}
    lemma_quotient_bounds(n, dd);
    lemma_div_pos_is_pos(n, dd);
    lemma_wrap_u64_le(i);
    // at `i`
    let f = fee_adjusted(i);
    let d = ri * 1000 + f;
    assert(ro * f <= ao * d && d > 0) by (nonlinear_arith)
        requires i * dd <= n, f == i * 997, d == ri * 1000 + f, dd == (ro - ao) * 997,
            n == ri * (ao * 1000), i >= 0, ri > 0 {}
    lemma_quotient_le(ao, ro * f, d);
    // at `i + 1`
    let g = fee_adjusted(i + 1);
    let e = ri * 1000 + g;
    assert(ao * e <= ro * g && e > 0) by (nonlinear_arith)
        requires n < (i + 1) * dd, g == (i + 1) * 997, e == ri * 1000 + g, dd == (ro - ao) * 997,
            n == ri * (ao * 1000), i >= 0, ri > 0 {}
    lemma_le_quotient(ao, ro * g, e);
}

/// Burning at most the whole supply pays out at most the reserves, and
/// burning the whole supply pays out exactly the reserves.
pub proof fn law_withdraw_within_reserves(lp_amount: u64, reserve: u64, total_supply: u64)
    requires
        0 < total_supply,
        lp_amount <= total_supply,
    ensures
        withdraw_share(lp_amount as int, reserve as int, total_supply as int) <= reserve,
        lp_amount == total_supply ==> withdraw_share(lp_amount as int, reserve as int, total_supply as int) == reserve,
{
    let a: int = lp_amount * reserve;
    assert(0 <= a <= reserve * total_supply) by (nonlinear_arith)
        requires a == lp_amount * reserve, lp_amount <= total_supply, lp_amount >= 0, reserve >= 0 {}
    lemma_quotient_le(reserve as int, a, total_supply as int);
    lemma_div_pos_is_pos(a, total_supply as int);
    lemma_wrap_u64_le(a / (total_supply as int));
    if lp_amount == total_supply {
        lemma_div_by_multiple(reserve as int, total_supply as int);
        assert(a == reserve * total_supply) by (nonlinear_arith)
            requires a == lp_amount * reserve, lp_amount == total_supply {}
    }
}

/// Depositing into a pool that already holds liquidity and immediately
/// burning the minted shares never returns more of either token than was
/// deposited.
pub proof fn law_deposit_then_withdraw_returns_no_more(
    amount0: u64,
    amount1: u64,
    reserve0: u64,
    reserve1: u64,
    total_lp: u64,
)
    requires
        total_lp > 0,
        reserve0 > 0,
        reserve1 > 0,
    ensures
        ({
            let lp = min_int(
                proportional_lp(amount0 as int, reserve0 as int, total_lp as int),
                proportional_lp(amount1 as int, reserve1 as int, total_lp as int),
            );
            &&& withdraw_share(lp, reserve0 + amount0, total_lp + lp) <= amount0
            &&& withdraw_share(lp, reserve1 + amount1, total_lp + lp) <= amount1
        }),
{
    let lp = min_int(
        proportional_lp(amount0 as int, reserve0 as int, total_lp as int),
        proportional_lp(amount1 as int, reserve1 as int, total_lp as int),
    );
    lemma_burn_after_mint(amount0 as int, reserve0 as int, total_lp as int, lp);
    lemma_burn_after_mint(amount1 as int, reserve1 as int, total_lp as int, lp);
}

/// One token of `law_deposit_then_withdraw_returns_no_more`: if `lp` shares
/// are at most that token's proportional share, burning them after the
/// deposit returns at most the deposited amount.
proof fn lemma_burn_after_mint(amount: int, reserve: int, total_lp: int, lp: int)
    requires
        0 <= amount,
        0 < reserve,
        0 < total_lp,
        0 <= lp <= proportional_lp(amount, reserve, total_lp),
    ensures
        withdraw_share(lp, reserve + amount, total_lp + lp) <= amount,
{
    let q = (amount * total_lp) / reserve;
    assert(amount * total_lp >= 0) by (nonlinear_arith) requires amount >= 0, total_lp > 0 {}
    lemma_div_pos_is_pos(amount * total_lp, reserve);
    lemma_wrap_u64_le(q);
    lemma_quotient_bounds(amount * total_lp, reserve);
    assert(lp * (reserve + amount) <= amount * (total_lp + lp)) by (nonlinear_arith)
        requires lp <= q, q * reserve <= amount * total_lp, 0 <= lp, 0 < reserve, 0 <= amount {}
    lemma_quotient_le(amount, lp * (reserve + amount), total_lp + lp);
    assert(lp * (reserve + amount) >= 0) by (nonlinear_arith) requires lp >= 0, reserve > 0, amount >= 0 {}
    lemma_div_pos_is_pos(lp * (reserve + amount), total_lp + lp);
    lemma_wrap_u64_le(lp * (reserve + amount) / (total_lp + lp));
}

/// A deposit into a pool that already holds liquidity mints the floor of the
/// smaller of the two proportional shares: `lp` shares are worth no more
/// than either deposited amount at the pool's price, and one more share
/// would be worth more than one of them.
pub proof fn law_expected_lp_is_floor_of_smaller_share(
    amount0: u64,
    amount1: u64,
    reserve0: u64,
    reserve1: u64,
    total_lp: u64,
)
    requires
        total_lp > 0,
        reserve0 > 0,
        reserve1 > 0,
        amount0 * total_lp < 0x1_0000_0000_0000_0000 * reserve0,
        amount1 * total_lp < 0x1_0000_0000_0000_0000 * reserve1,
    ensures
        ({
            let lp = min_int(
                proportional_lp(amount0 as int, reserve0 as int, total_lp as int),
                proportional_lp(amount1 as int, reserve1 as int, total_lp as int),
            );
            &&& 0 <= lp
            &&& lp * reserve0 <= amount0 * total_lp
            &&& lp * reserve1 <= amount1 * total_lp
            &&& ((lp + 1) * reserve0 > amount0 * total_lp || (lp + 1) * reserve1 > amount1 * total_lp)
        }),
{
    let n0: int = amount0 * total_lp;
    let n1: int = amount1 * total_lp;
    assert(n0 >= 0 && n1 >= 0) by (nonlinear_arith)
        requires n0 == amount0 * total_lp, n1 == amount1 * total_lp {}
    lemma_quotient_bounds(n0, reserve0 as int);
    lemma_quotient_bounds(n1, reserve1 as int);
    lemma_div_pos_is_pos(n0, reserve0 as int);
    lemma_div_pos_is_pos(n1, reserve1 as int);
    let q0 = n0 / (reserve0 as int);
    let q1 = n1 / (reserve1 as int);
    assert(q0 < 0x1_0000_0000_0000_0000) by (nonlinear_arith)
        requires q0 * reserve0 <= n0, n0 < 0x1_0000_0000_0000_0000 * reserve0, reserve0 > 0 {}
    assert(q1 < 0x1_0000_0000_0000_0000) by (nonlinear_arith)
        requires q1 * reserve1 <= n1, n1 < 0x1_0000_0000_0000_0000 * reserve1, reserve1 > 0 {}
    lemma_wrap_u64_le(q0);
    lemma_wrap_u64_le(q1);
    let lp = min_int(q0, q1);
    assert(lp * reserve0 <= n0) by (nonlinear_arith)
        requires lp <= q0, q0 * reserve0 <= n0, reserve0 > 0 {}
    assert(lp * reserve1 <= n1) by (nonlinear_arith)
        requires lp <= q1, q1 * reserve1 <= n1, reserve1 > 0 {}
}

/// Burning `lp_amount` out of `total_supply` pays out the floor of the
/// pro-rata share of a reserve: `out * total_supply <= lp_amount * reserve <
/// (out + 1) * total_supply`, whenever that share fits in 64 bits.
pub proof fn law_withdraw_is_floor_of_pro_rata_share(lp_amount: u64, reserve: u64, total_supply: u64)
    requires
        total_supply > 0,
        lp_amount * reserve < 0x1_0000_0000_0000_0000 * total_supply,
    ensures
        ({
            let out = withdraw_share(lp_amount as int, reserve as int, total_supply as int);
            &&& 0 <= out
            &&& out * total_supply <= lp_amount * reserve
            &&& lp_amount * reserve < (out + 1) * total_supply
        }),
{
    let n: int = lp_amount * reserve;
    assert(n >= 0) by (nonlinear_arith) requires n == lp_amount * reserve {}
    lemma_quotient_bounds(n, total_supply as int);
    lemma_div_pos_is_pos(n, total_supply as int);
    let q = n / (total_supply as int);
    assert(q < 0x1_0000_0000_0000_0000) by (nonlinear_arith)
        requires q * total_supply <= n, n < 0x1_0000_0000_0000_0000 * total_supply, total_supply > 0 {}
    lemma_wrap_u64_le(q);
}

/// Replacement leaves a text in which the pattern does not occur unchanged.
pub proof fn law_replace_all_without_match(s: Seq<char>, pat: Seq<char>, rep: Seq<char>)
    requires
        pat.len() > 0,
        forall|i: int| 0 <= i && i + pat.len() <= s.len() ==> #[trigger] s.subrange(i, i + pat.len()) != pat,
    ensures
        replace_all(s, pat, rep) == s,
    decreases s.len(),
{
    if s.len() >= pat.len() {
        let k: int = 0;
        assert(s.subrange(k, k + pat.len()) != pat);
        assert(s.subrange(0, pat.len() as int) =~= s.subrange(k, k + pat.len()));
        let t = s.subrange(1, s.len() as int);
        assert forall|i: int| 0 <= i && i + pat.len() <= t.len() implies #[trigger] t.subrange(i, i + pat.len()) != pat by {
            assert(t.subrange(i, i + pat.len()) =~= s.subrange(i + 1, i + 1 + pat.len()));
        }
        law_replace_all_without_match(t, pat, rep);
        assert(seq![s[0]] + t =~= s);
    }
}

/// Replacement rewrites the leftmost occurrence of the pattern, wherever it
/// lies: if `pat` first occurs in `x + pat + y` right after `x`, the result is
/// `x`, then `rep`, then the replacement of the rest `y`.
pub proof fn law_replace_all_replaces_leftmost(x: Seq<char>, pat: Seq<char>, rep: Seq<char>, y: Seq<char>)
    requires
        pat.len() > 0,
        forall|i: int| 0 <= i < x.len() ==> #[trigger] (x + pat + y).subrange(i, i + pat.len()) != pat,
    ensures
        replace_all(x + pat + y, pat, rep) == x + rep + replace_all(y, pat, rep),
    decreases x.len(),
{
    let s = x + pat + y;
    if x.len() == 0 {
        assert(s.subrange(0, pat.len() as int) =~= pat);
        assert(s.subrange(pat.len() as int, s.len() as int) =~= y);
        assert(x + rep + replace_all(y, pat, rep) =~= rep + replace_all(y, pat, rep));
    } else {
        let k: int = 0;
        assert((x + pat + y).subrange(k, k + pat.len()) != pat);
        assert(s.subrange(0, pat.len() as int) =~= (x + pat + y).subrange(k, k + pat.len()));
        let x1 = x.subrange(1, x.len() as int);
        let t = s.subrange(1, s.len() as int);
        assert(t =~= x1 + pat + y);
        assert forall|i: int| 0 <= i < x1.len() implies #[trigger] (x1 + pat + y).subrange(i, i + pat.len()) != pat by {
            assert((x1 + pat + y).subrange(i, i + pat.len()) =~= s.subrange(i + 1, i + 1 + pat.len()));
        }
        law_replace_all_replaces_leftmost(x1, pat, rep, y);
        assert(seq![s[0]] + (x1 + rep + replace_all(y, pat, rep)) =~= x + rep + replace_all(y, pat, rep));
    }
}

} // verus!
