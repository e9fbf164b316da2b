//! Ordering of the two assets of a pair.

use vstd::prelude::*;
use crate::felt::Felt;

verus! {

/// Why a pair of assets cannot be ordered.
#[derive(Clone, Copy, Debug, PartialEq, Eq, Structural)]
pub enum OrderAssetsError {
    /// Both assets are the same.
    SameAsset,
}

/// `(a_prefix, a_suffix) < (b_prefix, b_suffix)` in lexicographic order of
/// canonical values.
pub open spec fn asset_lt(a_prefix: Felt, a_suffix: Felt, b_prefix: Felt, b_suffix: Felt) -> bool {
    ||| a_prefix.val() < b_prefix.val()
    ||| (a_prefix.val() == b_prefix.val() && a_suffix.val() < b_suffix.val())
}

/// The ordered pair `(lo_prefix, lo_suffix, hi_prefix, hi_suffix)`, or
/// `SameAsset` when both assets are equal.
pub open spec fn ordered_assets(
    a0_pfx: Felt,
    a0_sfx: Felt,
    a1_pfx: Felt,
    a1_sfx: Felt,
) -> Result<(Felt, Felt, Felt, Felt), OrderAssetsError> {
    if asset_lt(a0_pfx, a0_sfx, a1_pfx, a1_sfx) {
        Ok((a0_pfx, a0_sfx, a1_pfx, a1_sfx))
    } else if asset_lt(a1_pfx, a1_sfx, a0_pfx, a0_sfx) {
        Ok((a1_pfx, a1_sfx, a0_pfx, a0_sfx))
    } else {
        Err(OrderAssetsError::SameAsset)
    }
}

/// Orders two assets, each given by the prefix and suffix of its faucet id,
/// so that the smaller one (by `(prefix, suffix)`) comes first.
pub fn order_assets_as_felts(
    a0_pfx: Felt,
    a0_sfx: Felt,
    a1_pfx: Felt,
    a1_sfx: Felt,
) -> (ordered: Result<(Felt, Felt, Felt, Felt), OrderAssetsError>)
    ensures
        ordered == ordered_assets(a0_pfx, a0_sfx, a1_pfx, a1_sfx),
        ordered is Err <==> (a0_pfx == a1_pfx && a0_sfx == a1_sfx),
        ordered matches Ok(t) ==> {
            if asset_lt(a0_pfx, a0_sfx, a1_pfx, a1_sfx) {
                t == (a0_pfx, a0_sfx, a1_pfx, a1_sfx)
            } else {
                &&& asset_lt(a1_pfx, a1_sfx, a0_pfx, a0_sfx)
                &&& t == (a1_pfx, a1_sfx, a0_pfx, a0_sfx)
            }
        },
        ordered matches Ok(t) ==> {
            &&& (t == (a0_pfx, a0_sfx, a1_pfx, a1_sfx) || t == (a1_pfx, a1_sfx, a0_pfx, a0_sfx))
            &&& (t.0.val() < t.2.val() || (t.0.val() == t.2.val() && t.1.val() < t.3.val()))
        },
{
    let p0 = a0_pfx.as_canonical_u64();
    let s0 = a0_sfx.as_canonical_u64();
    let p1 = a1_pfx.as_canonical_u64();
    let s1 = a1_sfx.as_canonical_u64();
    if p0 < p1 || (p0 == p1 && s0 < s1) {
        Ok((a0_pfx, a0_sfx, a1_pfx, a1_sfx))
    } else if p1 < p0 || (p1 == p0 && s1 < s0) {
        Ok((a1_pfx, a1_sfx, a0_pfx, a0_sfx))
    } else {
        proof {
            crate::felt::lemma_felt_val_injective(a0_pfx, a1_pfx);
            crate::felt::lemma_felt_val_injective(a0_sfx, a1_sfx);
        }
        Err(OrderAssetsError::SameAsset)
    }
}

/// Ordering a pair does not depend on the order in which the two assets are
/// given, and an ordered pair always has its smaller asset first.
pub proof fn law_order_assets_symmetric(a0_pfx: Felt, a0_sfx: Felt, a1_pfx: Felt, a1_sfx: Felt)
    ensures
        ordered_assets(a0_pfx, a0_sfx, a1_pfx, a1_sfx) == ordered_assets(a1_pfx, a1_sfx, a0_pfx, a0_sfx),
        ordered_assets(a0_pfx, a0_sfx, a1_pfx, a1_sfx) matches Ok(t) ==> asset_lt(t.0, t.1, t.2, t.3),
{
}

/// Ordering a pair of distinct assets keeps both assets and puts them in
/// increasing order of prefix, then of suffix, by canonical value; only a
/// pair of the same asset is refused.
pub proof fn law_order_assets_sorts_by_prefix_then_suffix(
    a0_pfx: Felt,
    a0_sfx: Felt,
    a1_pfx: Felt,
    a1_sfx: Felt,
)
    ensures
        ordered_assets(a0_pfx, a0_sfx, a1_pfx, a1_sfx) is Err
            <==> (a0_pfx.val() == a1_pfx.val() && a0_sfx.val() == a1_sfx.val()),
        ordered_assets(a0_pfx, a0_sfx, a1_pfx, a1_sfx) matches Ok(t) ==> {
            &&& (t == (a0_pfx, a0_sfx, a1_pfx, a1_sfx) || t == (a1_pfx, a1_sfx, a0_pfx, a0_sfx))
            &&& (t.0.val() < t.2.val() || (t.0.val() == t.2.val() && t.1.val() < t.3.val()))
        },
{
}

} // verus!
