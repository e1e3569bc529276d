//! The asset symbols that providers may publish prices for.

use vstd::prelude::*;

verus! {

/// The approved symbols, as ASCII bytes: NGN, KES and GHS.
pub open spec fn approved_symbol(s: Seq<u8>) -> bool {
    ||| s == seq![78u8, 71u8, 78u8]
    ||| s == seq![75u8, 69u8, 83u8]
    ||| s == seq![71u8, 72u8, 83u8]
}

/// Whether `asset` is one of the approved symbols (NGN, KES, GHS).
pub fn is_approved_asset_symbol(asset: &Vec<u8>) -> (r: bool)
    ensures
        r == approved_symbol(asset@),
{
    if asset.len() != 3 {
        return false;
    }
    let (a, b, c) = (asset[0], asset[1], asset[2]);
    // 'N' = 78, 'G' = 71, 'K' = 75, 'E' = 69, 'S' = 83, 'H' = 72
    let r = (a == 78 && b == 71 && c == 78) || (a == 75 && b == 69 && c == 83) || (a == 71 && b
        == 72 && c == 83);
    proof {
        if r {
            assert(asset@ =~= seq![a, b, c]);
        }
    }
    r
}

} // verus!
