//! The operational fee of the ports: 0.1 % of a transferred amount.
use vstd::prelude::*;

verus! {

/// The fee is one part in this many.
pub const FEE_DIVISOR: u64 = 1000;

/// Splits `input` base units into what remains after the fee and the fee,
/// the fee being `input / 1000` rounded toward zero. The split is the same
/// at every number of decimals, since both parts are in base units.
pub fn apply_fee_lamports(input: u64, decimals: u8) -> (r: (u64, u64))
    ensures
        r.1 == input / FEE_DIVISOR,
        r.0 + r.1 == input,
        r.1 <= r.0,
{
    let fee = input / FEE_DIVISOR;
    (input - fee, fee)
}

} // verus!
