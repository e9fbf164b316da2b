//! Initial storage of the accounts the client deploys: for each kind of
//! account, its slots in order, by name, each a value word or a map.

use vstd::prelude::*;
use crate::felt::{Felt, Word};
use crate::common::{
    AccountId, assets_mapping_value, initial_user_deposit_word, pool_assets_word,
    registry_id_word, scalar_word,
};

verus! {

/// What a storage slot holds when the account is created.
pub enum SlotContent {
    /// A single word.
    Value(Word),
    /// A map, given by its entries `(key, value)` in insertion order.
    Entries(Vec<(Word, Word)>),
}

/// A named storage slot with its initial content.
pub struct SlotSpec {
    pub name: String,
    pub content: SlotContent,
}

/// Canonical values of the four elements of a word.
pub open spec fn word_vals(w: Word) -> Seq<int> {
    seq![w[0].val(), w[1].val(), w[2].val(), w[3].val()]
}

/// The all-zero word, by values.
pub open spec fn zero_vals() -> Seq<int> {
    seq![0, 0, 0, 0]
}

/// `s` is the value slot `name` holding a word with values `vals`.
pub open spec fn is_value_slot(s: SlotSpec, name: Seq<char>, vals: Seq<int>) -> bool {
    &&& s.name@ == name
    &&& s.content matches SlotContent::Value(w) && word_vals(w) == vals
}

/// `s` is the map slot `name` holding exactly `entries`, by values, in order.
pub open spec fn is_map_slot(s: SlotSpec, name: Seq<char>, entries: Seq<(Seq<int>, Seq<int>)>) -> bool {
    &&& s.name@ == name
    &&& s.content matches SlotContent::Entries(m) && {
        &&& m@.len() == entries.len()
        &&& forall|i: int| 0 <= i < entries.len() ==>
            word_vals(#[trigger] m@[i].0) == entries[i].0 && word_vals(m@[i].1) == entries[i].1
    }
}

fn zero_word() -> (w: Word)
    ensures
        word_vals(w) == zero_vals(),
{
    [Felt::zero(), Felt::zero(), Felt::zero(), Felt::zero()]
}

fn value_slot(name: &str, w: Word) -> (s: SlotSpec)
    ensures
        s.name@ == name@,
        s.content == SlotContent::Value(w),
{
    SlotSpec { name: String::from_str(name), content: SlotContent::Value(w) }
}

fn empty_map_slot(name: &str) -> (s: SlotSpec)
    ensures
        is_map_slot(s, name@, seq![]),
{
    SlotSpec { name: String::from_str(name), content: SlotContent::Entries(Vec::new()) }
}

fn single_entry_map_slot(name: &str, key: Word, value: Word) -> (s: SlotSpec)
    ensures
        is_map_slot(s, name@, seq![(word_vals(key), word_vals(value))]),
{
    let mut entries: Vec<(Word, Word)> = Vec::new();
    entries.push((key, value));
    SlotSpec { name: String::from_str(name), content: SlotContent::Entries(entries) }
}

/// Slots of a constant-product pool account:
/// - `reserve`: `[reserve0, reserve1, total_lp, 0]`, initially zero;
/// - `config`: `[token0.prefix, token0.suffix, token1.prefix, token1.suffix]`;
/// - `lp_shares`: a map, initially empty.
pub fn xyk_pool_storage_slots(token0: AccountId, token1: AccountId) -> (slots: Vec<SlotSpec>)
    ensures
        slots@.len() == 3,
        is_value_slot(slots@[0], "zoro::lp_local::reserve"@, zero_vals()),
        is_value_slot(slots@[1], "zoro::lp_local::config"@, seq![
            token0.prefix.val(), token0.suffix.val(), token1.prefix.val(), token1.suffix.val(),
        ]),
        is_map_slot(slots@[2], "zoro::lp_local::lp_shares"@, seq![]),
{
    let mut slots: Vec<SlotSpec> = Vec::new();
    slots.push(value_slot("zoro::lp_local::reserve", zero_word()));
    slots.push(value_slot("zoro::lp_local::config", pool_assets_word(token0, token1)));
    slots.push(empty_map_slot("zoro::lp_local::lp_shares"));
    slots
}

/// Slots of an LP pool account:
/// - `assets_mapping`: the all-zero key maps to
///   `[token1.suffix, token1.prefix, token0.suffix, token0.prefix]`;
/// - `reserve`: `[reserve0, reserve1, 0, 0]`, initially zero;
/// - `total_supply`: `[total_lp, 0, 0, 0]`, initially zero;
/// - `user_deposits_mapping`: a map, initially empty.
pub fn lp_local_pool_storage_slots(token0: AccountId, token1: AccountId) -> (slots: Vec<SlotSpec>)
    ensures
        slots@.len() == 4,
        is_map_slot(slots@[0], "zoro::lp_local::assets_mapping"@, seq![(zero_vals(), seq![
            token1.suffix.val(), token1.prefix.val(), token0.suffix.val(), token0.prefix.val(),
        ])]),
        is_value_slot(slots@[1], "zoro::lp_local::reserve"@, zero_vals()),
        is_value_slot(slots@[2], "zoro::lp_local::total_supply"@, zero_vals()),
        is_map_slot(slots@[3], "zoro::lp_local::user_deposits_mapping"@, seq![]),
{
    let mut slots: Vec<SlotSpec> = Vec::new();
    slots.push(single_entry_map_slot(
        "zoro::lp_local::assets_mapping",
        zero_word(),
        assets_mapping_value(token0, token1),
    ));
    slots.push(value_slot("zoro::lp_local::reserve", zero_word()));
    slots.push(value_slot("zoro::lp_local::total_supply", zero_word()));
    slots.push(empty_map_slot("zoro::lp_local::user_deposits_mapping"));
    slots
}

/// Slots of the LP component of a combined pool account: those of an LP pool,
/// with `user_deposits_mapping` seeded with `[0, 0, 0, 1] -> [0, 0, 0, 1]`,
/// then `registry_id` (`[registry.suffix, registry.prefix, 0, 0]`) and
/// `register_note_root`.
pub fn combined_pool_storage_slots(
    token0: AccountId,
    token1: AccountId,
    registry_id: AccountId,
    register_note_root: Word,
) -> (slots: Vec<SlotSpec>)
    ensures
        slots@.len() == 6,
        is_map_slot(slots@[0], "zoro::lp_local::assets_mapping"@, seq![(zero_vals(), seq![
            token1.suffix.val(), token1.prefix.val(), token0.suffix.val(), token0.prefix.val(),
        ])]),
        is_value_slot(slots@[1], "zoro::lp_local::reserve"@, zero_vals()),
        is_value_slot(slots@[2], "zoro::lp_local::total_supply"@, zero_vals()),
        is_map_slot(slots@[3], "zoro::lp_local::user_deposits_mapping"@,
            seq![(seq![0, 0, 0, 1], seq![0, 0, 0, 1])]),
        is_value_slot(slots@[4], "zoro::lp_local::registry_id"@, seq![
            registry_id.suffix.val(), registry_id.prefix.val(), 0, 0,
        ]),
        is_value_slot(slots@[5], "zoro::lp_local::register_note_root"@, word_vals(register_note_root)),
{
    let mut slots: Vec<SlotSpec> = Vec::new();
    slots.push(single_entry_map_slot(
        "zoro::lp_local::assets_mapping",
        zero_word(),
        assets_mapping_value(token0, token1),
    ));
    slots.push(value_slot("zoro::lp_local::reserve", zero_word()));
    slots.push(value_slot("zoro::lp_local::total_supply", zero_word()));
    slots.push(single_entry_map_slot(
        "zoro::lp_local::user_deposits_mapping",
        initial_user_deposit_word(),
        initial_user_deposit_word(),
    ));
    slots.push(value_slot("zoro::lp_local::registry_id", registry_id_word(registry_id)));
    slots.push(value_slot("zoro::lp_local::register_note_root", register_note_root));
    slots
}

/// Slots of the LP fuzzing account: an empty `assets_mapping`, zero
/// `reserve` and `total_supply`, and an empty `user_deposits_mapping`.
pub fn lp_local_fuzz_dummy_storage_slots() -> (slots: Vec<SlotSpec>)
    ensures
        slots@.len() == 4,
        is_map_slot(slots@[0], "zoro::lp_local::assets_mapping"@, seq![]),
        is_value_slot(slots@[1], "zoro::lp_local::reserve"@, zero_vals()),
        is_value_slot(slots@[2], "zoro::lp_local::total_supply"@, zero_vals()),
        is_map_slot(slots@[3], "zoro::lp_local::user_deposits_mapping"@, seq![]),
{
    let mut slots: Vec<SlotSpec> = Vec::new();
    slots.push(empty_map_slot("zoro::lp_local::assets_mapping"));
    slots.push(value_slot("zoro::lp_local::reserve", zero_word()));
    slots.push(value_slot("zoro::lp_local::total_supply", zero_word()));
    slots.push(empty_map_slot("zoro::lp_local::user_deposits_mapping"));
    slots
}

/// Slots of the storage fuzzing account: `value_slot` holding
/// `[initial_value, 0, 0, 0]`, `map_slot` mapping the all-zero key to
/// `[initial_map_value, 0, 0, 0]`, a zero `lp_total_supply` and an empty
/// `lp_user_deposits_mapping`.
pub fn storage_fuzz_dummy_storage_slots(initial_value: u64, initial_map_value: u64) -> (slots: Vec<SlotSpec>)
    ensures
        slots@.len() == 4,
        is_value_slot(slots@[0], "zoro::storage_fuzz_dummy::value_slot"@,
            seq![crate::felt::mod_p(initial_value as int), 0, 0, 0]),
        is_map_slot(slots@[1], "zoro::storage_fuzz_dummy::map_slot"@,
            seq![(zero_vals(), seq![crate::felt::mod_p(initial_map_value as int), 0, 0, 0])]),
        is_value_slot(slots@[2], "zoro::storage_fuzz_dummy::lp_total_supply"@, zero_vals()),
        is_map_slot(slots@[3], "zoro::storage_fuzz_dummy::lp_user_deposits_mapping"@, seq![]),
{
    let mut slots: Vec<SlotSpec> = Vec::new();
    slots.push(value_slot("zoro::storage_fuzz_dummy::value_slot", scalar_word(initial_value)));
    slots.push(single_entry_map_slot(
        "zoro::storage_fuzz_dummy::map_slot",
        zero_word(),
        scalar_word(initial_map_value),
    ));
    slots.push(value_slot("zoro::storage_fuzz_dummy::lp_total_supply", zero_word()));
    slots.push(empty_map_slot("zoro::storage_fuzz_dummy::lp_user_deposits_mapping"));
    slots
}

/// Slots of the registry account: empty `pools_mapping` and
/// `assets_to_pool_mapping`, and `accepted_code_hashes_mapping` mapping each
/// accepted pool code hash, in order, to `[1, 0, 0, 0]`.
pub fn registry_storage_slots(accepted_pool_code_hashes: &Vec<Word>) -> (slots: Vec<SlotSpec>)
    ensures
        slots@.len() == 3,
        is_map_slot(slots@[0], "zoro::registry::pools_mapping"@, seq![]),
        is_map_slot(slots@[1], "zoro::registry::assets_to_pool_mapping"@, seq![]),
        is_map_slot(slots@[2], "zoro::registry::accepted_code_hashes_mapping"@,
            accepted_pool_code_hashes@.map_values(|h: Word| (word_vals(h), seq![1, 0, 0, 0]))),
{
    let mut entries: Vec<(Word, Word)> = Vec::new();
    let mut i: usize = 0;
    while i < accepted_pool_code_hashes.len()
        invariant
            i <= accepted_pool_code_hashes@.len(),
            entries@.len() == i,
            forall|j: int| 0 <= j < i ==>
                word_vals(#[trigger] entries@[j].0) == word_vals(accepted_pool_code_hashes@[j])
                && word_vals(entries@[j].1) == seq![1int, 0, 0, 0],
        decreases accepted_pool_code_hashes@.len() - i,
    {
        let marker = scalar_word(1);
        proof {
            assert(crate::felt::mod_p(1) == 1);
        }
        entries.push((accepted_pool_code_hashes[i], marker));
        i = i + 1;
    }
    let ghost expected = accepted_pool_code_hashes@.map_values(|h: Word| (word_vals(h), seq![1int, 0, 0, 0]));
    assert forall|j: int| 0 <= j < expected.len() implies
        word_vals(#[trigger] entries@[j].0) == expected[j].0 && word_vals(entries@[j].1) == expected[j].1 by {
    }
    let mut slots: Vec<SlotSpec> = Vec::new();
    slots.push(empty_map_slot("zoro::registry::pools_mapping"));
    slots.push(empty_map_slot("zoro::registry::assets_to_pool_mapping"));
    slots.push(SlotSpec {
        name: String::from_str("zoro::registry::accepted_code_hashes_mapping"),
        content: SlotContent::Entries(entries),
    });
    slots
}

} // verus!
