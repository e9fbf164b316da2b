//! Account identifiers, storage layouts of the pool and registry accounts,
//! return-note serial numbers, wallet funding amounts and the plain
//! configuration records of deployed faucets.

use vstd::prelude::*;
use crate::felt::{Felt, Word, mod_p};

verus! {

/// An account identifier, by the two field elements it is made of.
#[derive(Clone, Copy, Debug, PartialEq, Eq, Structural)]
pub struct AccountId {
    pub prefix: Felt,
    pub suffix: Felt,
}

/// Configuration of one faucet: token symbol, maximum supply and decimals.
#[derive(Debug)]
pub struct FaucetConfig {
    pub symbol: String,
    pub max_supply: u64,
    pub decimals: u8,
}

/// The configured faucets, in configuration order.
#[derive(Debug)]
pub struct FaucetsConfig {
    pub faucets: Vec<FaucetConfig>,
}

/// A faucet recorded from an earlier run.
#[derive(Debug)]
pub struct CachedFaucet {
    pub account_id_hex: String,
    pub symbol: String,
    pub decimals: u8,
    pub max_supply: u64,
}

/// Faucets and user account recorded from an earlier run.
#[derive(Debug)]
pub struct CachedTestState {
    pub faucets: Vec<CachedFaucet>,
    pub user_account_id_hex: String,
}

/// Serial number of the note a pool returns for an input note: the input
/// serial reversed, with its last element (now first) incremented by one.
/// The user id takes no part in it.
pub fn get_return_note_serial(input_note_serial: Word, user_id: AccountId) -> (serial: Word)
    ensures
        serial[0].val() == mod_p(input_note_serial[3].val() + 1),
        serial[1] == input_note_serial[2],
        serial[2] == input_note_serial[1],
        serial[3] == input_note_serial[0],
{
    [
        input_note_serial[3].field_add(Felt::one()),
        input_note_serial[2],
        input_note_serial[1],
        input_note_serial[0],
    ]
}

/// Value of the pool's asset-configuration slot:
/// `[token0.prefix, token0.suffix, token1.prefix, token1.suffix]`.
pub fn pool_assets_word(token0: AccountId, token1: AccountId) -> (w: Word)
    ensures
        w[0] == token0.prefix,
        w[1] == token0.suffix,
        w[2] == token1.prefix,
        w[3] == token1.suffix,
{
    [token0.prefix, token0.suffix, token1.prefix, token1.suffix]
}

/// Entry of the LP pool's assets mapping (stored under the all-zero key):
/// `[token1.suffix, token1.prefix, token0.suffix, token0.prefix]`.
pub fn assets_mapping_value(token0: AccountId, token1: AccountId) -> (w: Word)
    ensures
        w[0] == token1.suffix,
        w[1] == token1.prefix,
        w[2] == token0.suffix,
        w[3] == token0.prefix,
{
    [token1.suffix, token1.prefix, token0.suffix, token0.prefix]
}

/// Value of the pool's registry-id slot: `[registry.suffix, registry.prefix, 0, 0]`.
pub fn registry_id_word(registry_id: AccountId) -> (w: Word)
    ensures
        w[0] == registry_id.suffix,
        w[1] == registry_id.prefix,
        w[2].val() == 0,
        w[3].val() == 0,
{
    [registry_id.suffix, registry_id.prefix, Felt::zero(), Felt::zero()]
}

/// A word whose first element is `value mod p` and whose other elements are
/// zero, as single-value storage slots and map entries hold it.
pub fn scalar_word(value: u64) -> (w: Word)
    ensures
        w[0].val() == mod_p(value as int),
        w[1].val() == 0,
        w[2].val() == 0,
        w[3].val() == 0,
{
    [Felt::new(value), Felt::zero(), Felt::zero(), Felt::zero()]
}

/// The word a new LP pool's user-deposits map starts with, as both key and
/// value: `[0, 0, 0, 1]`.
pub fn initial_user_deposit_word() -> (w: Word)
    ensures
        w[0].val() == 0,
        w[1].val() == 0,
        w[2].val() == 0,
        w[3].val() == 1,
{
    [Felt::zero(), Felt::zero(), Felt::zero(), Felt::one()]
}

/// What to do after looking at the notes that can be consumed: stop when
/// the awaited note is among them, otherwise wait and look again.
#[derive(Clone, Copy, Debug, PartialEq, Eq, Structural)]
pub enum WaitStep {
    Found,
    Retry,
}

/// `a` and `b` hold the same four elements.
fn same_word(a: &Word, b: &Word) -> (same: bool)
    ensures
        same == (a@ == b@),
{
    let same = a[0] == b[0] && a[1] == b[1] && a[2] == b[2] && a[3] == b[3];
    proof {
        if same {
            assert(a@ =~= b@);
        }
    }
    same
}

/// One round of waiting for a note: `Found` exactly when the id of the
/// awaited note is among the ids of the consumable notes.
pub fn wait_for_note_step(consumable_note_ids: &Vec<Word>, expected_note_id: &Word) -> (step: WaitStep)
    ensures
        step == WaitStep::Found <==> exists|i: int|
            0 <= i < consumable_note_ids@.len() && consumable_note_ids@[i]@ == expected_note_id@,
{
    let mut i: usize = 0;
    while i < consumable_note_ids.len()
        invariant
            i <= consumable_note_ids@.len(),
            forall|j: int| 0 <= j < i ==> consumable_note_ids@[j]@ != expected_note_id@,
        decreases consumable_note_ids@.len() - i,
    {
        if same_word(&consumable_note_ids[i], expected_note_id) {
            return WaitStep::Found;
        }
        i = i + 1;
    }
    WaitStep::Retry
}

/// `10^k`.
pub open spec fn pow10(k: nat) -> nat
    decreases k,
{
    if k == 0 { 1 } else { 10 * pow10((k - 1) as nat) }
}

proof fn lemma_pow10_monotone(i: nat, j: nat)
    requires
        i <= j,
    ensures
        1 <= pow10(i) <= pow10(j),
    decreases j,
{
    if j > 0 && i < j {
        lemma_pow10_monotone(i, (j - 1) as nat);
    } else if i > 0 {
        lemma_pow10_monotone((i - 1) as nat, (i - 1) as nat);
    }
}

/// Amount minted into a wallet when funding it: `amount` itself, or, when it
/// is zero, 0.05 of a whole token (`5 * 10^(decimals - 2)` base units).
pub fn fund_amount(amount: u64, decimals: u8) -> (minted: u64)
    requires
        amount > 0 || 2 <= decimals <= 20,
    ensures
        minted == (if amount > 0 { amount as int } else { 5 * pow10((decimals - 2) as nat) as int }),
{
    if amount > 0 {
        return amount;
    }
    let k: u8 = decimals - 2;
    let mut p: u64 = 1;
    let mut i: u8 = 0;
    proof {
        reveal_with_fuel(pow10, 19);
        assert(pow10(18) == 1_000_000_000_000_000_000);
    }
    while i < k
        invariant
            k <= 18,
            i <= k,
            p == pow10(i as nat),
            pow10(18) == 1_000_000_000_000_000_000,
        decreases k - i,
    {
        proof {
            lemma_pow10_monotone((i + 1) as nat, 18);
        }
        p = p * 10;
        i = i + 1;
    }
    proof {
        lemma_pow10_monotone(k as nat, 18);
    }
    5 * p
}

} // verus!
