//! Currency amounts as integers scaled by a fixed factor, and the margin and
//! profit-and-loss arithmetic on them.

use vstd::arithmetic::div_mod::{
    lemma_div_denominator, lemma_div_multiples_vanish, lemma_div_multiples_vanish_quotient,
    lemma_fundamental_div_mod, lemma_mod_pos_bound,
};
use vstd::arithmetic::mul::{lemma_mul_is_associative, lemma_mul_nonnegative};
use vstd::prelude::*;

verus! {

/// Number of scaled units in one unit of currency.
pub const SCALE: u128 = 1_000_000;

/// Why a margin computation was refused.
#[derive(Clone, Copy, Debug, PartialEq, Eq, Structural)]
pub enum MarginError {
    /// The leverage was zero, so the division has no result.
    InvalidLeverage,
    /// The scaled product does not fit in 128 bits.
    Overflow,
}

impl MarginError {
    /// The text that goes with the error.
    pub open spec fn text(self) -> Seq<char> {
        match self {
            MarginError::InvalidLeverage => "leverage must be > 0"@,
            MarginError::Overflow => "overflow mul"@,
        }
    }

    /// Returns the text that goes with the error.
    pub fn message(&self) -> (message: &'static str)
        ensures
            message@ == self.text(),
    {
        match self {
            MarginError::InvalidLeverage => "leverage must be > 0",
            MarginError::Overflow => "overflow mul",
        }
    }
}

/// The margin of a position of `size_scaled` at `leverage`, as an unbounded
/// integer: the size scaled up once more, divided by the leverage and rounded
/// down.
pub open spec fn initial_margin(size_scaled: int, leverage: int) -> int
    recommends
        leverage > 0,
{
    (size_scaled * SCALE) / leverage
}

/// What `calculate_initial_margin` returns for each input.
pub open spec fn margin_outcome(size_scaled: int, leverage: int) -> Result<u128, MarginError> {
    if leverage == 0 {
        Err(MarginError::InvalidLeverage)
    } else if size_scaled * SCALE > u128::MAX {
        Err(MarginError::Overflow)
    } else {
        Ok(initial_margin(size_scaled, leverage) as u128)
    }
}

/// Computes the initial margin of a position from its scaled size and its
/// leverage, refusing a zero leverage and a product that leaves 128 bits.
pub fn calculate_initial_margin(position_size_usdt_scaled: u128, leverage: u128) -> (result: Result<
    u128,
    MarginError,
>)
    ensures
        result == margin_outcome(position_size_usdt_scaled as int, leverage as int),
        leverage == 0 ==> result == Err::<u128, MarginError>(MarginError::InvalidLeverage),
        leverage != 0 && position_size_usdt_scaled * SCALE > u128::MAX ==> result == Err::<
            u128,
            MarginError,
        >(MarginError::Overflow),
        result is Ok <==> leverage != 0 && position_size_usdt_scaled * SCALE <= u128::MAX,
        result matches Ok(margin) ==> margin == (position_size_usdt_scaled * SCALE) / (
        leverage as int),
{
    if leverage == 0 {
        return Err(MarginError::InvalidLeverage);
    }
    match position_size_usdt_scaled.checked_mul(SCALE) {
        None => Err(MarginError::Overflow),
        Some(product) => Ok(product / leverage),
    }
}

/// Dividing the margin by the scale once brings it back to the unit of the
/// size: what is left is the size divided by the leverage, rounded down.
pub proof fn lemma_margin_in_size_units(size_scaled: int, leverage: int)
    requires
        0 <= size_scaled,
        0 < leverage,
    ensures
        initial_margin(size_scaled, leverage) / (SCALE as int) == size_scaled / leverage,
{
    let scale = SCALE as int;
    lemma_div_denominator(size_scaled * scale, leverage, scale);
    lemma_div_multiples_vanish_quotient(scale, size_scaled, leverage);
    assert(size_scaled * scale == scale * size_scaled);
    assert(leverage * scale == scale * leverage);
}

/// A margin under one scaled unit is rounded down to nothing: in the unit of
/// the size the margin is zero exactly when the size is below the leverage.
pub proof fn lemma_margin_zero_iff_size_below_leverage(size_scaled: int, leverage: int)
    requires
        0 <= size_scaled,
        0 < leverage,
    ensures
        size_scaled / leverage == 0 <==> size_scaled < leverage,
        initial_margin(size_scaled, leverage) / (SCALE as int) == 0 <==> size_scaled < leverage,
{
    lemma_margin_in_size_units(size_scaled, leverage);
    lemma_fundamental_div_mod(size_scaled, leverage);
    lemma_mod_pos_bound(size_scaled, leverage);
    let quotient = size_scaled / leverage;
    if size_scaled < leverage {
        assert(quotient == 0) by (nonlinear_arith)
            requires
                0 <= size_scaled < leverage,
                size_scaled == leverage * quotient + size_scaled % leverage,
                0 <= size_scaled % leverage < leverage,
        ;
    } else {
        assert(quotient != 0) by (nonlinear_arith)
            requires
                size_scaled >= leverage,
                size_scaled == leverage * quotient + size_scaled % leverage,
                0 <= size_scaled % leverage < leverage,
        ;
    }
}

/// The profit or loss, in scaled units, of a position of `size` bought at
/// `entry` and sold at `exit`: the price difference times the number of units
/// that `size` buys at `entry`, rounded toward zero. The side of the position
/// plays no part: a rising price is a gain for a short position too.
pub open spec fn realized_pnl(entry: int, exit: int, size: int) -> int
    recommends
        entry > 0,
{
    if exit >= entry {
        ((exit - entry) * size) / entry
    } else {
        -(((entry - exit) * size) / entry)
    }
}

/// The distance between the two prices.
pub open spec fn price_move(entry: int, exit: int) -> int {
    if exit >= entry {
        exit - entry
    } else {
        entry - exit
    }
}

/// The profit or loss is the exact quotient `(exit - entry) * size / entry`
/// rounded toward zero: it has the sign of the price move, and it misses the
/// exact value by less than one scaled unit.
pub proof fn lemma_pnl_rounds_toward_zero(entry: int, exit: int, size: int)
    requires
        entry > 0,
        exit >= 0,
        size >= 0,
    ensures
        exit >= entry ==> {
            &&& 0 <= realized_pnl(entry, exit, size)
            &&& realized_pnl(entry, exit, size) * entry <= (exit - entry) * size
            &&& (exit - entry) * size < (realized_pnl(entry, exit, size) + 1) * entry
        },
        exit <= entry ==> {
            &&& realized_pnl(entry, exit, size) <= 0
            &&& (realized_pnl(entry, exit, size) - 1) * entry < (exit - entry) * size
            &&& (exit - entry) * size <= realized_pnl(entry, exit, size) * entry
        },
{
    let distance = price_move(entry, exit);
    let product = distance * size;
    let quotient = product / entry;
    lemma_mul_nonnegative(distance, size);
    lemma_fundamental_div_mod(product, entry);
    lemma_mod_pos_bound(product, entry);
    assert(entry * quotient == quotient * entry) by (nonlinear_arith);
    assert((quotient + 1) * entry == quotient * entry + entry) by (nonlinear_arith);
    assert((-quotient - 1) * entry == -(quotient * entry) - entry) by (nonlinear_arith);
    assert((-quotient) * entry == -(quotient * entry)) by (nonlinear_arith);
    assert(quotient >= 0) by (nonlinear_arith)
        requires
            product >= 0,
            entry > 0,
            quotient == product / entry,
    ;
    if exit < entry {
        assert((exit - entry) * size == -product) by (nonlinear_arith)
            requires
                product == (entry - exit) * size,
        ;
    } else if exit == entry {
        assert(product == 0) by (nonlinear_arith)
            requires
                product == distance * size,
                distance == 0,
        ;
    }
}

/// Where the size buys a whole number of units at the entry price, nothing is
/// rounded: the profit or loss is the price move times that number of units.
pub proof fn lemma_pnl_exact_for_whole_units(entry: int, exit: int, units: int)
    requires
        entry > 0,
        exit >= 0,
        units >= 0,
    ensures
        realized_pnl(entry, exit, units * entry) == (exit - entry) * units,
{
    let distance = price_move(entry, exit);
    lemma_mul_is_associative(distance, units, entry);
    assert((distance * units) * entry == entry * (distance * units)) by (nonlinear_arith);
    lemma_div_multiples_vanish(distance * units, entry);
    if exit < entry {
        assert((exit - entry) * units == -((entry - exit) * units)) by (nonlinear_arith);
    }
}

/// Why a profit-and-loss computation was refused.
#[derive(Clone, Copy, Debug, PartialEq, Eq, Structural)]
pub enum PnlError {
    /// The entry price was zero, so the position holds no units.
    ZeroEntryPrice,
    /// The product of price move and size leaves 128 bits, or the result
    /// leaves the signed 128-bit range.
    Overflow,
}

/// What `calculate_realized_pnl` returns for each input.
pub open spec fn pnl_outcome(entry: int, exit: int, size: int) -> Result<i128, PnlError> {
    if entry == 0 {
        Err(PnlError::ZeroEntryPrice)
    } else if price_move(entry, exit) * size > u128::MAX {
        Err(PnlError::Overflow)
    } else if !(i128::MIN <= realized_pnl(entry, exit, size) <= i128::MAX) {
        Err(PnlError::Overflow)
    } else {
        Ok(realized_pnl(entry, exit, size) as i128)
    }
}

/// Computes the realized profit or loss of a position from its scaled entry
/// price, exit price and size, with every intermediate step checked.
pub fn calculate_realized_pnl(entry_price: u128, exit_price: u128, size_scaled: u128) -> (result:
    Result<i128, PnlError>)
    ensures
        result == pnl_outcome(entry_price as int, exit_price as int, size_scaled as int),
{
    if entry_price == 0 {
        return Err(PnlError::ZeroEntryPrice);
    }
    let gain = exit_price >= entry_price;
    let distance: u128 = if gain {
        exit_price - entry_price
    } else {
        entry_price - exit_price
    };
    match distance.checked_mul(size_scaled) {
        None => Err(PnlError::Overflow),
        Some(product) => {
            let magnitude: u128 = product / entry_price;
            let limit: u128 = 0x7fff_ffff_ffff_ffff_ffff_ffff_ffff_ffff;
            if magnitude <= limit {
                let value: i128 = magnitude as i128;
                if gain {
                    Ok(value)
                } else {
                    Ok(-value)
                }
            } else if !gain && magnitude == limit + 1 {
                Ok(i128::MIN)
            } else {
                Err(PnlError::Overflow)
            }
        },
    }
}

} // verus!
