//! Input layouts of the notes sent to a pool: what each note carries, felt
//! by felt, for deposits, withdrawals and swaps.

use vstd::prelude::*;
use crate::felt::{Felt, Word, mod_p};
use crate::common::AccountId;
use crate::pool_ops::{is_floor_sqrt, isqrt};

verus! {

/// Canonical values of a sequence of field elements.
pub open spec fn felt_vals(s: Seq<Felt>) -> Seq<int> {
    s.map_values(|f: Felt| f.val())
}

/// Operation code of a pool deposit note.
pub const DEPOSIT_OP: u64 = 1;
/// Operation code of a pool swap note.
pub const SWAP_OP: u64 = 0;
/// Operation code of a pool withdraw note.
pub const WITHDRAW_OP: u64 = 2;

/// Square-root hint carried by a deposit note: for the first deposit into a
/// pool (`current_total_lp == 0`) the floor square root of
/// `amount0 * amount1`, otherwise 0.
pub fn deposit_sqrt_hint(amount0: u64, amount1: u64, current_total_lp: u64) -> (hint: u64)
    ensures
        current_total_lp == 0 ==> is_floor_sqrt(amount0 * amount1, hint as int),
        current_total_lp != 0 ==> hint == 0,
{
    if current_total_lp == 0 {
        proof {
            assert(0 <= amount0 * amount1 <= 0xffff_ffff_ffff_ffff * 0xffff_ffff_ffff_ffff) by (nonlinear_arith)
                requires amount0 <= 0xffff_ffff_ffff_ffffu64, amount1 <= 0xffff_ffff_ffff_ffffu64 {}
        }
        let product = amount0 as u128 * amount1 as u128;
        let root = isqrt(product);
        proof {
            assert(root < 0x1_0000_0000_0000_0000) by (nonlinear_arith)
                requires root * root <= product, product < 0x1_0000_0000_0000_0000 * 0x1_0000_0000_0000_0000, root >= 0 {}
        }
        root as u64
    } else {
        0
    }
}

/// Inputs of a deposit note to the pool: `[1, min_lp_out, sqrt_hint]`.
pub fn deposit_note_inputs(
    token0_amount: u64,
    token1_amount: u64,
    min_lp_out: u64,
    current_total_lp: u64,
) -> (inputs: Vec<Felt>)
    ensures
        inputs@.len() == 3,
        inputs@[0].val() == DEPOSIT_OP,
        inputs@[1].val() == mod_p(min_lp_out as int),
        current_total_lp == 0 ==> exists|h: int|
            is_floor_sqrt(token0_amount * token1_amount, h) && inputs@[2].val() == mod_p(h),
        current_total_lp != 0 ==> inputs@[2].val() == 0,
{
    let sqrt_hint = deposit_sqrt_hint(token0_amount, token1_amount, current_total_lp);
    let mut inputs: Vec<Felt> = Vec::new();
    inputs.push(Felt::new(DEPOSIT_OP));
    inputs.push(Felt::new(min_lp_out));
    inputs.push(Felt::new(sqrt_hint));
    proof {
        assert(mod_p(0) == 0);
    }
    inputs
}

/// Inputs of a swap note to the pool:
/// `[0, min_amount_out, tag, 0, note_type, 0, r0, r1, r2, r3]`.
pub fn swap_note_inputs(
    min_amount_out: u64,
    output_tag: Felt,
    output_note_type: Felt,
    output_recipient_digest: Word,
) -> (inputs: Vec<Felt>)
    ensures
        felt_vals(inputs@) == seq![
            SWAP_OP as int,
            mod_p(min_amount_out as int),
            output_tag.val(),
            0,
            output_note_type.val(),
            0,
            output_recipient_digest[0].val(),
            output_recipient_digest[1].val(),
            output_recipient_digest[2].val(),
            output_recipient_digest[3].val(),
        ],
{
    let mut inputs: Vec<Felt> = Vec::new();
    inputs.push(Felt::new(SWAP_OP));
    inputs.push(Felt::new(min_amount_out));
    inputs.push(output_tag);
    inputs.push(Felt::zero());
    inputs.push(output_note_type);
    inputs.push(Felt::zero());
    inputs.push(output_recipient_digest[0]);
    inputs.push(output_recipient_digest[1]);
    inputs.push(output_recipient_digest[2]);
    inputs.push(output_recipient_digest[3]);
    proof {
        assert(mod_p(0) == 0);
    }
    assert(felt_vals(inputs@) =~= seq![
        SWAP_OP as int,
        mod_p(min_amount_out as int),
        output_tag.val(),
        0,
        output_note_type.val(),
        0,
        output_recipient_digest[0].val(),
        output_recipient_digest[1].val(),
        output_recipient_digest[2].val(),
        output_recipient_digest[3].val(),
    ]);
    inputs
}

/// Inputs of a withdraw note to the pool:
/// `[2, lp_amount, tag, 0, note_type, 0, r0, r1, r2, r3]`.
pub fn withdraw_note_inputs(
    lp_amount: u64,
    output_tag: Felt,
    output_note_type: Felt,
    output_recipient_digest: Word,
) -> (inputs: Vec<Felt>)
    ensures
        felt_vals(inputs@) == seq![
            WITHDRAW_OP as int,
            mod_p(lp_amount as int),
            output_tag.val(),
            0,
            output_note_type.val(),
            0,
            output_recipient_digest[0].val(),
            output_recipient_digest[1].val(),
            output_recipient_digest[2].val(),
            output_recipient_digest[3].val(),
        ],
{
    let mut inputs: Vec<Felt> = Vec::new();
    inputs.push(Felt::new(WITHDRAW_OP));
    inputs.push(Felt::new(lp_amount));
    inputs.push(output_tag);
    inputs.push(Felt::zero());
    inputs.push(output_note_type);
    inputs.push(Felt::zero());
    inputs.push(output_recipient_digest[0]);
    inputs.push(output_recipient_digest[1]);
    inputs.push(output_recipient_digest[2]);
    inputs.push(output_recipient_digest[3]);
    proof {
        assert(mod_p(2) == 2);
    }
    assert(felt_vals(inputs@) =~= seq![
        WITHDRAW_OP as int,
        mod_p(lp_amount as int),
        output_tag.val(),
        0,
        output_note_type.val(),
        0,
        output_recipient_digest[0].val(),
        output_recipient_digest[1].val(),
        output_recipient_digest[2].val(),
        output_recipient_digest[3].val(),
    ]);
    inputs
}

/// Inputs of a deposit note to the LP pool: `[user_id.prefix, user_id.suffix]`.
pub fn lp_local_deposit_note_inputs(user_id: AccountId) -> (inputs: Vec<Felt>)
    ensures
        inputs@ == seq![user_id.prefix, user_id.suffix],
{
    let mut inputs: Vec<Felt> = Vec::new();
    inputs.push(user_id.prefix);
    inputs.push(user_id.suffix);
    assert(inputs@ =~= seq![user_id.prefix, user_id.suffix]);
    inputs
}

/// Inputs of a withdraw note to the LP pool:
/// `[lp_amount, 0, 0, 0, tag, note_type, 0, 0, h0, h1, h2, h3]`, where `h` is
/// the script root of the note the pool sends back.
pub fn lp_local_withdraw_note_inputs(
    lp_amount: u64,
    return_note_tag: Felt,
    return_note_type: Felt,
    return_note_root_hash: Word,
) -> (inputs: Vec<Felt>)
    ensures
        felt_vals(inputs@) == seq![
            mod_p(lp_amount as int),
            0,
            0,
            0,
            return_note_tag.val(),
            return_note_type.val(),
            0,
            0,
            return_note_root_hash[0].val(),
            return_note_root_hash[1].val(),
            return_note_root_hash[2].val(),
            return_note_root_hash[3].val(),
        ],
{
    let mut inputs: Vec<Felt> = Vec::new();
    inputs.push(Felt::new(lp_amount));
    inputs.push(Felt::zero());
    inputs.push(Felt::zero());
    inputs.push(Felt::zero());
    inputs.push(return_note_tag);
    inputs.push(return_note_type);
    inputs.push(Felt::zero());
    inputs.push(Felt::zero());
    inputs.push(return_note_root_hash[0]);
    inputs.push(return_note_root_hash[1]);
    inputs.push(return_note_root_hash[2]);
    inputs.push(return_note_root_hash[3]);
    assert(felt_vals(inputs@) =~= seq![
        mod_p(lp_amount as int),
        0,
        0,
        0,
        return_note_tag.val(),
        return_note_type.val(),
        0,
        0,
        return_note_root_hash[0].val(),
        return_note_root_hash[1].val(),
        return_note_root_hash[2].val(),
        return_note_root_hash[3].val(),
    ]);
    inputs
}

/// Inputs of an exact-output swap note to the combined pool:
/// `[asset.prefix, asset.suffix, 0, amount_out, deadline, tag, note_type, 0, r0, r1, r2, r3]`,
/// where the asset is the exact output asked for.
pub fn xyk_swap_exact_output_note_inputs(
    output_faucet_id: AccountId,
    output_amount: u64,
    deadline: u64,
    return_note_tag: Felt,
    return_note_type: Felt,
    return_recipient_digest: Word,
) -> (inputs: Vec<Felt>)
    ensures
        felt_vals(inputs@) == seq![
            output_faucet_id.prefix.val(),
            output_faucet_id.suffix.val(),
            0,
            mod_p(output_amount as int),
            mod_p(deadline as int),
            return_note_tag.val(),
            return_note_type.val(),
            0,
            return_recipient_digest[0].val(),
            return_recipient_digest[1].val(),
            return_recipient_digest[2].val(),
            return_recipient_digest[3].val(),
        ],
{
    let mut inputs: Vec<Felt> = Vec::new();
    inputs.push(output_faucet_id.prefix);
    inputs.push(output_faucet_id.suffix);
    inputs.push(Felt::zero());
    inputs.push(Felt::new(output_amount));
    inputs.push(Felt::new(deadline));
    inputs.push(return_note_tag);
    inputs.push(return_note_type);
    inputs.push(Felt::zero());
    inputs.push(return_recipient_digest[0]);
    inputs.push(return_recipient_digest[1]);
    inputs.push(return_recipient_digest[2]);
    inputs.push(return_recipient_digest[3]);
    assert(felt_vals(inputs@) =~= seq![
        output_faucet_id.prefix.val(),
        output_faucet_id.suffix.val(),
        0,
        mod_p(output_amount as int),
        mod_p(deadline as int),
        return_note_tag.val(),
        return_note_type.val(),
        0,
        return_recipient_digest[0].val(),
        return_recipient_digest[1].val(),
        return_recipient_digest[2].val(),
        return_recipient_digest[3].val(),
    ]);
    inputs
}

/// Inputs of an exact-input swap note to the combined pool:
/// `[0, 0, 0, min_amount_out, deadline, tag, note_type, 0, r0, r1, r2, r3]`.
pub fn xyk_swap_exact_input_note_inputs(
    min_amount_out: u64,
    deadline: u64,
    return_note_tag: Felt,
    return_note_type: Felt,
    return_recipient_digest: Word,
) -> (inputs: Vec<Felt>)
    ensures
        felt_vals(inputs@) == seq![
            0,
            0,
            0,
            mod_p(min_amount_out as int),
            mod_p(deadline as int),
            return_note_tag.val(),
            return_note_type.val(),
            0,
            return_recipient_digest[0].val(),
            return_recipient_digest[1].val(),
            return_recipient_digest[2].val(),
            return_recipient_digest[3].val(),
        ],
{
    let mut inputs: Vec<Felt> = Vec::new();
    inputs.push(Felt::zero());
    inputs.push(Felt::zero());
    inputs.push(Felt::zero());
    inputs.push(Felt::new(min_amount_out));
    inputs.push(Felt::new(deadline));
    inputs.push(return_note_tag);
    inputs.push(return_note_type);
    inputs.push(Felt::zero());
    inputs.push(return_recipient_digest[0]);
    inputs.push(return_recipient_digest[1]);
    inputs.push(return_recipient_digest[2]);
    inputs.push(return_recipient_digest[3]);
    assert(felt_vals(inputs@) =~= seq![
        0,
        0,
        0,
        mod_p(min_amount_out as int),
        mod_p(deadline as int),
        return_note_tag.val(),
        return_note_type.val(),
        0,
        return_recipient_digest[0].val(),
        return_recipient_digest[1].val(),
        return_recipient_digest[2].val(),
        return_recipient_digest[3].val(),
    ]);
    inputs
}

} // verus!
