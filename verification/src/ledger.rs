//! The decisions of the position ledger. Each operation is split at its round
//! trips to the durable store: a function here takes what the store returned
//! and says what to write next or what to answer; the caller performs the
//! store operation in between.

use crate::clock::now_millis;
use crate::ident::{position_id, position_id_of};
use crate::margin::{
    calculate_initial_margin, calculate_realized_pnl, lemma_margin_in_size_units,
    lemma_margin_zero_iff_size_below_leverage, pnl_outcome, realized_pnl, MarginError, PnlError,
    SCALE,
};
use crate::position::{
    CloseReceipt, CloseRequest, CloseUpdate, CloseUpdateView, LedgerError, OpenReceipt,
    OpenRequest, OpenRequestView, PositionRow, PositionView, Status, StoreError,
};
use vstd::prelude::*;

verus! {

/// An open request is valid when its leverage is at least one and its size
/// and entry price are positive.
pub open spec fn open_request_valid(req: OpenRequestView) -> bool {
    &&& req.leverage >= 1
    &&& req.size_usdt > 0
    &&& req.entry_price > 0
}

/// The position that a valid request opens at `now`: the request's fields,
/// the identifier derived from `now`, the margin `size / leverage`, status
/// `Open` and no exit fields. The margin is rounded down to a whole scaled
/// unit: a size below the leverage opens a position with a margin of zero.
pub open spec fn opened_view(req: OpenRequestView, now: int) -> PositionView {
    PositionView {
        id: position_id_of(now),
        user_id: req.user_id,
        symbol: req.symbol,
        side: req.side,
        size_usdt: req.size_usdt,
        leverage: req.leverage,
        entry_price: req.entry_price,
        initial_margin: req.size_usdt / req.leverage,
        created_at: now,
        status: Status::Open,
        exit_price: None,
        realized_pnl: None,
        closed_at: None,
    }
}

/// What opening decides for each request: an invalid request is refused, so
/// is a size whose scaled product leaves 128 bits, and every other request
/// opens the position `opened_view`.
pub open spec fn open_outcome(req: OpenRequestView, now: int) -> Result<PositionView, LedgerError> {
    if !open_request_valid(req) {
        Err(LedgerError::InvalidInput)
    } else if req.size_usdt * SCALE > u128::MAX {
        Err(LedgerError::Overflow)
    } else {
        Ok(opened_view(req, now))
    }
}

/// A decision on a record, with the record taken by its view.
pub open spec fn row_outcome(result: Result<PositionRow, LedgerError>) -> Result<
    PositionView,
    LedgerError,
> {
    match result {
        Ok(row) => Ok(row@),
        Err(e) => Err(e),
    }
}

/// A decision on an update, with the update taken by its view.
pub open spec fn update_outcome(result: Result<CloseUpdate, LedgerError>) -> Result<
    CloseUpdateView,
    LedgerError,
> {
    match result {
        Ok(update) => Ok(update@),
        Err(e) => Err(e),
    }
}

/// What a lookup in the store returned, with the record taken by its view.
pub open spec fn found_view(found: Result<Option<PositionRow>, StoreError>) -> Result<
    Option<PositionView>,
    StoreError,
> {
    match found {
        Ok(Some(row)) => Ok(Some(row@)),
        Ok(None) => Ok(None),
        Err(e) => Err(e),
    }
}

/// The ledger's error for an arithmetic error of the profit-and-loss
/// computation.
pub open spec fn pnl_error(e: PnlError) -> LedgerError {
    match e {
        PnlError::ZeroEntryPrice => LedgerError::InvalidInput,
        PnlError::Overflow => LedgerError::Overflow,
    }
}

/// Decides on opening a position at the time `now_millis`: validates the
/// request, computes the margin in scaled arithmetic and builds the record to
/// insert. Nothing is to be stored when the result is an error. A margin
/// under one scaled unit is stored as zero.
pub fn open_position_at(req: OpenRequest, now_millis: i64) -> (result: Result<
    PositionRow,
    LedgerError,
>)
    ensures
        row_outcome(result) == open_outcome(req@, now_millis as int),
        result matches Ok(row) ==> row.wf(),
        result matches Ok(row) ==> (row.initial_margin == 0 <==> req.size_usdt < req.leverage),
{
    if req.leverage < 1 || req.size_usdt == 0 || req.entry_price == 0 {
        return Err(LedgerError::InvalidInput);
    }
    let leverage: u128 = req.leverage as u128;
    match calculate_initial_margin(req.size_usdt, leverage) {
        Err(MarginError::InvalidLeverage) => Err(LedgerError::InvalidInput),
        Err(MarginError::Overflow) => Err(LedgerError::Overflow),
        Ok(margin) => {
            proof {
                lemma_margin_in_size_units(req.size_usdt as int, leverage as int);
                lemma_margin_zero_iff_size_below_leverage(req.size_usdt as int, leverage as int);
            }
            let row = PositionRow {
                id: position_id(now_millis),
                user_id: req.user_id,
                symbol: req.symbol,
                side: req.side,
                size_usdt: req.size_usdt,
                leverage: req.leverage,
                entry_price: req.entry_price,
                initial_margin: margin / SCALE,
                created_at: now_millis,
                status: Status::Open,
                exit_price: None,
                realized_pnl: None,
                closed_at: None,
            };
            Ok(row)
        },
    }
}

/// Decides on opening a position now: reads the clock and does what
/// `open_position_at` does at that time. The identifier and the creation time
/// of the record come from the clock, so the outcome is the one of some time.
/// The clock is read first, also for a request that is then refused; a clock
/// that stands before the epoch gives a negative time.
pub fn open_position(req: OpenRequest) -> (result: Result<PositionRow, LedgerError>)
    ensures
        exists|now: i64| row_outcome(result) == #[trigger] open_outcome(req@, now as int),
        result matches Ok(row) ==> row.wf(),
        result matches Ok(row) ==> (row.initial_margin == 0 <==> req.size_usdt < req.leverage),
{
    let now = now_millis();
    open_position_at(req, now)
}

/// Some stored record has the identifier `id`.
pub open spec fn holds_id(stored: Seq<PositionRow>, id: Seq<char>) -> bool {
    exists|i: int| 0 <= i < stored.len() && (#[trigger] stored[i]).id@ == id
}

/// No two stored records have the same identifier.
pub open spec fn ids_distinct(stored: Seq<PositionRow>) -> bool {
    forall|i: int, j: int|
        0 <= i < j < stored.len() ==> (#[trigger] stored[i]).id@ != (#[trigger] stored[j]).id@
}

/// The stored records after the store has tried to insert `row`. The insert
/// takes effect only while no stored record has the identifier of `row`;
/// otherwise the records stay as they are.
pub open spec fn inserted_rows(stored: Seq<PositionRow>, row: PositionRow) -> Seq<PositionRow> {
    if holds_id(stored, row.id@) {
        stored
    } else {
        stored.push(row)
    }
}

/// Tells whether a stored record has the identifier `id`.
pub fn holds_identifier(stored: &Vec<PositionRow>, id: &String) -> (held: bool)
    ensures
        held == holds_id(stored@, id@),
{
    let mut index: usize = 0;
    while index < stored.len()
        invariant
            index <= stored.len(),
            forall|i: int| 0 <= i < index ==> (#[trigger] stored@[i]).id@ != id@,
        decreases stored.len() - index,
    {
        if stored[index].id == *id {
            return true;
        }
        index = index + 1;
    }
    false
}

/// Inserts `row` into the stored records the way the store must: in one
/// step, and only if no stored record has its identifier. Two positions
/// opened within one tick of the clock get the same identifier; the second
/// insert is then refused and the first record stays as it is.
pub fn apply_open(stored: &mut Vec<PositionRow>, row: &PositionRow) -> (inserted: Result<
    (),
    StoreError,
>)
    ensures
        final(stored)@ == inserted_rows(old(stored)@, *row),
        inserted is Err <==> holds_id(old(stored)@, row.id@),
{
    if holds_identifier(stored, &row.id) {
        Err(StoreError)
    } else {
        stored.push(row.duplicate());
        Ok(())
    }
}

/// Answers an open request once the store has tried to insert `row`: the
/// identifier and margin of the record when it was stored, a persistence
/// failure when it was not.
pub fn confirm_open(row: PositionRow, stored: Result<(), StoreError>) -> (result: Result<
    OpenReceipt,
    LedgerError,
>)
    ensures
        stored is Err ==> result == Err::<OpenReceipt, LedgerError>(
            LedgerError::PersistenceFailure,
        ),
        stored is Ok ==> result == Ok::<OpenReceipt, LedgerError>(
            (OpenReceipt { position_id: row.id, initial_margin: row.initial_margin }),
        ),
{
    match stored {
        Err(_) => Err(LedgerError::PersistenceFailure),
        Ok(_) => Ok(OpenReceipt { position_id: row.id, initial_margin: row.initial_margin }),
    }
}

/// An update fits a position when it names the position, its exit price is
/// positive and its profit or loss is the one that the position's entry price
/// and size give at that exit price.
pub open spec fn update_fits(p: PositionView, update: CloseUpdateView) -> bool {
    &&& update.position_id == p.id
    &&& update.exit_price > 0
    &&& update.realized_pnl == realized_pnl(p.entry_price, update.exit_price, p.size_usdt)
}

/// What closing the position `p` at `exit` writes at `now`: nothing for a
/// position that is not open, nothing where the arithmetic is refused, and
/// otherwise the identifier with the exit price, the realized profit or loss
/// and the closing time.
pub open spec fn close_transition(p: PositionView, exit: int, now: int) -> Result<
    CloseUpdateView,
    LedgerError,
> {
    if p.status != Status::Open {
        Err(LedgerError::NotFoundOrAlreadyClosed)
    } else {
        match pnl_outcome(p.entry_price, exit, p.size_usdt) {
            Err(e) => Err(pnl_error(e)),
            Ok(pnl) => Ok(
                CloseUpdateView {
                    position_id: p.id,
                    exit_price: exit,
                    realized_pnl: pnl as int,
                    closed_at: now,
                },
            ),
        }
    }
}

/// What closing decides for each lookup result and exit price: an exit price
/// that is not positive is refused first, then a failed lookup is a
/// persistence failure, an absent record is not found, and a record that was
/// found goes through `close_transition`.
pub open spec fn close_outcome(
    found: Result<Option<PositionView>, StoreError>,
    exit: int,
    now: int,
) -> Result<CloseUpdateView, LedgerError> {
    if exit <= 0 {
        Err(LedgerError::InvalidInput)
    } else {
        match found {
            Err(_) => Err(LedgerError::PersistenceFailure),
            Ok(None) => Err(LedgerError::NotFoundOrAlreadyClosed),
            Ok(Some(p)) => close_transition(p, exit, now),
        }
    }
}

/// Decides on closing a position at the time `now_millis`, given what the
/// store returned for its identifier: computes the realized profit or loss
/// and the update to write. Nothing is to be written when the result is an
/// error.
pub fn close_position_at(
    found: Result<Option<PositionRow>, StoreError>,
    req: CloseRequest,
    now_millis: i64,
) -> (result: Result<CloseUpdate, LedgerError>)
    ensures
        update_outcome(result) == close_outcome(
            found_view(found),
            req.exit_price as int,
            now_millis as int,
        ),
        found matches Ok(Some(row)) ==> (result matches Ok(update) ==> update_fits(
            row@,
            update@,
        )),
{
    if req.exit_price == 0 {
        return Err(LedgerError::InvalidInput);
    }
    match found {
        Err(_) => Err(LedgerError::PersistenceFailure),
        Ok(None) => Err(LedgerError::NotFoundOrAlreadyClosed),
        Ok(Some(row)) => {
            if !row.is_open() {
                return Err(LedgerError::NotFoundOrAlreadyClosed);
            }
            match calculate_realized_pnl(row.entry_price, req.exit_price, row.size_usdt) {
                Err(PnlError::ZeroEntryPrice) => Err(LedgerError::InvalidInput),
                Err(PnlError::Overflow) => Err(LedgerError::Overflow),
                Ok(pnl) => Ok(
                    CloseUpdate {
                        position_id: row.id,
                        exit_price: req.exit_price,
                        realized_pnl: pnl,
                        closed_at: now_millis,
                    },
                ),
            }
        },
    }
}

/// Decides on closing a position now: reads the clock and does what
/// `close_position_at` does at that time. Only the closing time of the update
/// comes from the clock, so the outcome is the one of some time. The clock is
/// read first, also for a request that is then refused; a clock that stands
/// before the epoch gives a negative time.
pub fn close_position(found: Result<Option<PositionRow>, StoreError>, req: CloseRequest) -> (result:
    Result<CloseUpdate, LedgerError>)
    ensures
        exists|now: i64|
            update_outcome(result) == #[trigger] close_outcome(
                found_view(found),
                req.exit_price as int,
                now as int,
            ),
        found matches Ok(Some(row)) ==> (result matches Ok(update) ==> update_fits(
            row@,
            update@,
        )),
{
    let now = now_millis();
    close_position_at(found, req, now)
}

/// The position `p` after the store has tried to write `update` to it. The
/// write takes effect only on the position that the update names, and only
/// while that position is open; otherwise the position stays as it is.
pub open spec fn applied_view(p: PositionView, update: CloseUpdateView) -> PositionView {
    if p.status == Status::Open && p.id == update.position_id {
        PositionView {
            status: Status::Closed,
            exit_price: Some(update.exit_price),
            realized_pnl: Some(update.realized_pnl),
            closed_at: Some(update.closed_at),
            ..p
        }
    } else {
        p
    }
}

/// The number of records that writing `update` changes when the store holds
/// `p` under the update's identifier or under another one.
pub open spec fn rows_written(p: PositionView, update: CloseUpdateView) -> int {
    if p.status == Status::Open && p.id == update.position_id {
        1
    } else {
        0
    }
}

/// Writes `update` to `row` the way the store must: in one step, and only if
/// the record is the one that the update names and is still open. Returns the
/// number of records changed, which is one or zero.
pub fn apply_close(row: &mut PositionRow, update: &CloseUpdate) -> (written: u64)
    ensures
        final(row)@ == applied_view(old(row)@, update@),
        written == rows_written(old(row)@, update@),
        old(row).wf() && update_fits(old(row)@, update@) ==> final(row).wf(),
{
    if row.is_open() && row.id == update.position_id {
        row.status = Status::Closed;
        row.exit_price = Some(update.exit_price);
        row.realized_pnl = Some(update.realized_pnl);
        row.closed_at = Some(update.closed_at);
        1
    } else {
        0
    }
}

/// What the caller is told once the store has tried to write `update`.
pub open spec fn close_answer(update: CloseUpdate, written: Result<u64, StoreError>) -> Result<
    CloseReceipt,
    LedgerError,
> {
    match written {
        Err(_) => Err(LedgerError::PersistenceFailure),
        Ok(count) => if count == 0 {
            Err(LedgerError::NotFoundOrAlreadyClosed)
        } else {
            Ok(
                CloseReceipt {
                    position_id: update.position_id,
                    exit_price: update.exit_price,
                    realized_pnl: update.realized_pnl,
                },
            )
        },
    }
}

/// Answers a close request once the store has tried to write `update`: a
/// persistence failure when the write failed, not found when it changed no
/// record because the position was closed in between, and otherwise the
/// identifier, exit price and realized profit or loss.
pub fn confirm_close(update: CloseUpdate, written: Result<u64, StoreError>) -> (result: Result<
    CloseReceipt,
    LedgerError,
>)
    ensures
        result == close_answer(update, written),
{
    match written {
        Err(_) => Err(LedgerError::PersistenceFailure),
        Ok(count) => {
            if count == 0 {
                Err(LedgerError::NotFoundOrAlreadyClosed)
            } else {
                Ok(
                    CloseReceipt {
                        position_id: update.position_id,
                        exit_price: update.exit_price,
                        realized_pnl: update.realized_pnl,
                    },
                )
            }
        },
    }
}

/// What a lookup by identifier answers.
pub open spec fn get_outcome(found: Result<Option<PositionRow>, StoreError>) -> Result<
    PositionRow,
    LedgerError,
> {
    match found {
        Err(_) => Err(LedgerError::PersistenceFailure),
        Ok(None) => Err(LedgerError::NotFoundOrAlreadyClosed),
        Ok(Some(row)) => Ok(row),
    }
}

/// Answers a lookup by identifier, given what the store returned: the record
/// when there is one, not found when there is none, and a persistence failure
/// when the lookup failed.
pub fn get_position(found: Result<Option<PositionRow>, StoreError>) -> (result: Result<
    PositionRow,
    LedgerError,
>)
    ensures
        result == get_outcome(found),
{
    match found {
        Err(_) => Err(LedgerError::PersistenceFailure),
        Ok(None) => Err(LedgerError::NotFoundOrAlreadyClosed),
        Ok(Some(row)) => Ok(row),
    }
}

} // verus!
