//! What holds of a position over its whole life: it is opened without exit
//! fields, closed at most once, and unchanged ever after.

use crate::ident::{lemma_position_id_injective, position_id_of};
use crate::ledger::{
    applied_view, close_outcome, holds_id, ids_distinct, inserted_rows, open_outcome, opened_view,
    rows_written, update_fits,
};
use crate::margin::realized_pnl;
use crate::position::{
    CloseUpdateView, LedgerError, OpenRequestView, PositionRow, PositionView, Status,
};
use vstd::prelude::*;

verus! {

/// A position that was opened is open, has no exit fields, carries the margin
/// `size / leverage` and satisfies the invariant of a stored position.
pub proof fn lemma_open_yields_open_position(req: OpenRequestView, now: int)
    requires
        open_outcome(req, now) is Ok,
    ensures
        open_outcome(req, now) == Ok::<PositionView, LedgerError>(opened_view(req, now)),
        opened_view(req, now).status == Status::Open,
        opened_view(req, now).exit_price is None,
        opened_view(req, now).realized_pnl is None,
        opened_view(req, now).closed_at is None,
        opened_view(req, now).initial_margin == req.size_usdt / req.leverage,
        opened_view(req, now).wf(),
{
}

/// An insert replaces nothing: every record that was stored is still stored,
/// in its place and unchanged, whether the insert went through or not; and
/// records with distinct identifiers keep distinct identifiers.
pub proof fn lemma_insert_replaces_nothing(stored: Seq<PositionRow>, row: PositionRow)
    ensures
        inserted_rows(stored, row).len() >= stored.len(),
        forall|i: int| 0 <= i < stored.len() ==> #[trigger] inserted_rows(stored, row)[i] == stored[i],
        holds_id(inserted_rows(stored, row), row.id@),
        ids_distinct(stored) ==> ids_distinct(inserted_rows(stored, row)),
{
    let after = inserted_rows(stored, row);
    if holds_id(stored, row.id@) {
    } else {
        assert(after[stored.len() as int] == row);
        assert forall|i: int, j: int| 0 <= i < j < after.len() && ids_distinct(stored) implies (
        #[trigger] after[i]).id@ != (#[trigger] after[j]).id@ by {
            if j < stored.len() {
                assert(after[i] == stored[i] && after[j] == stored[j]);
            } else {
                assert(after[i] == stored[i]);
            }
        }
    }
}

/// Two positions opened at the same time collide: they get the same
/// identifier, so once the record of one is stored the insert of the other is
/// refused and leaves every stored record as it is.
pub proof fn lemma_same_time_collides(
    stored: Seq<PositionRow>,
    first: PositionRow,
    second: PositionRow,
    first_req: OpenRequestView,
    second_req: OpenRequestView,
    now: int,
)
    requires
        first@ == opened_view(first_req, now),
        second@ == opened_view(second_req, now),
    ensures
        first.id@ == second.id@,
        holds_id(inserted_rows(stored, first), second.id@),
        inserted_rows(inserted_rows(stored, first), second) == inserted_rows(stored, first),
{
    lemma_insert_replaces_nothing(stored, first);
}

/// Two positions opened at different times do not collide: where neither
/// identifier is stored yet, both inserts go through, one behind the other.
pub proof fn lemma_different_times_do_not_collide(
    stored: Seq<PositionRow>,
    first: PositionRow,
    second: PositionRow,
    first_req: OpenRequestView,
    second_req: OpenRequestView,
    first_at: int,
    second_at: int,
)
    requires
        first@ == opened_view(first_req, first_at),
        second@ == opened_view(second_req, second_at),
        first_at != second_at,
        !holds_id(stored, first.id@),
        !holds_id(stored, second.id@),
    ensures
        first.id@ != second.id@,
        inserted_rows(inserted_rows(stored, first), second) == stored.push(first).push(second),
{
    if position_id_of(first_at) == position_id_of(second_at) {
        lemma_position_id_injective(first_at, second_at);
    }
    let middle = stored.push(first);
    if holds_id(middle, second.id@) {
        let i = choose|i: int| 0 <= i < middle.len() && (#[trigger] middle[i]).id@ == second.id@;
        if i < stored.len() {
            assert(stored[i] == middle[i]);
        }
    }
}

/// Closing an open position once changes exactly one record: the position is
/// then closed, holds the exit price and the closing time of the request and
/// the profit or loss that entry price, exit price and size give, keeps every
/// other field and still satisfies the invariant.
pub proof fn lemma_close_populates_exit_fields(
    p: PositionView,
    exit: int,
    now: int,
    update: CloseUpdateView,
)
    requires
        p.wf(),
        p.status == Status::Open,
        close_outcome(Ok(Some(p)), exit, now) == Ok::<CloseUpdateView, LedgerError>(update),
    ensures
        update_fits(p, update),
        rows_written(p, update) == 1,
        applied_view(p, update) == (PositionView {
            status: Status::Closed,
            exit_price: Some(exit),
            realized_pnl: Some(realized_pnl(p.entry_price, exit, p.size_usdt)),
            closed_at: Some(now),
            ..p
        }),
        applied_view(p, update).wf(),
{
}

/// A closed position cannot be closed again: every further attempt is refused,
/// with `NotFoundOrAlreadyClosed` when its exit price is valid, and no update,
/// whatever it holds, changes the record.
pub proof fn lemma_closed_is_final(q: PositionView, exit: int, now: int, update: CloseUpdateView)
    requires
        q.status == Status::Closed,
    ensures
        close_outcome(Ok(Some(q)), exit, now) is Err,
        exit > 0 ==> close_outcome(Ok(Some(q)), exit, now) == Err::<CloseUpdateView, LedgerError>(
            LedgerError::NotFoundOrAlreadyClosed,
        ),
        rows_written(q, update) == 0,
        applied_view(q, update) == q,
{
}

/// The life of a position. Opening yields an open position without exit
/// fields. Closing it once yields a closed position whose exit fields are
/// those of the request, with the profit or loss
/// `(exit - entry) * size / entry`. Closing it a second time fails with
/// `NotFoundOrAlreadyClosed` and leaves the fields of the first close as they
/// are.
pub proof fn lemma_lifecycle(
    req: OpenRequestView,
    opened_at: int,
    exit: int,
    closed_at: int,
    second_exit: int,
    second_at: int,
)
    requires
        open_outcome(req, opened_at) is Ok,
        close_outcome(Ok(Some(opened_view(req, opened_at))), exit, closed_at) is Ok,
        second_exit > 0,
    ensures
        ({
            let p = opened_view(req, opened_at);
            let update = close_outcome(Ok(Some(p)), exit, closed_at)->Ok_0;
            let q = applied_view(p, update);
            &&& p.status == Status::Open
            &&& p.exit_price is None && p.realized_pnl is None && p.closed_at is None
            &&& q.status == Status::Closed
            &&& q.exit_price == Some(exit)
            &&& q.realized_pnl == Some(realized_pnl(req.entry_price, exit, req.size_usdt))
            &&& q.closed_at == Some(closed_at)
            &&& q.wf()
            &&& close_outcome(Ok(Some(q)), second_exit, second_at) == Err::<
                CloseUpdateView,
                LedgerError,
            >(LedgerError::NotFoundOrAlreadyClosed)
            &&& forall|second: CloseUpdateView| #[trigger] applied_view(q, second) == q
        }),
{
    let p = opened_view(req, opened_at);
    let update = close_outcome(Ok(Some(p)), exit, closed_at)->Ok_0;
    lemma_open_yields_open_position(req, opened_at);
    lemma_close_populates_exit_fields(p, exit, closed_at, update);
}

/// Two attempts to close one open position, either of which would succeed
/// alone. Whichever of them the store writes first wins: its write changes
/// the record and the other's changes nothing, so the record holds the
/// winner's exit price and the profit or loss that it gives. This holds when
/// both attempts read the position before either wrote. When the other
/// attempt reads only after the winner has written, it is refused with
/// `NotFoundOrAlreadyClosed` before it writes anything.
pub proof fn lemma_one_close_wins(
    p: PositionView,
    winner_exit: int,
    winner_at: int,
    other_exit: int,
    other_at: int,
)
    requires
        p.wf(),
        p.status == Status::Open,
        close_outcome(Ok(Some(p)), winner_exit, winner_at) is Ok,
        close_outcome(Ok(Some(p)), other_exit, other_at) is Ok,
    ensures
        ({
            let first = close_outcome(Ok(Some(p)), winner_exit, winner_at)->Ok_0;
            let second = close_outcome(Ok(Some(p)), other_exit, other_at)->Ok_0;
            let q = applied_view(p, first);
            &&& rows_written(p, first) == 1
            &&& rows_written(q, second) == 0
            &&& applied_view(q, second) == q
            &&& q.status == Status::Closed
            &&& q.exit_price == Some(winner_exit)
            &&& q.realized_pnl == Some(realized_pnl(p.entry_price, winner_exit, p.size_usdt))
            &&& q.wf()
            &&& close_outcome(Ok(Some(q)), other_exit, other_at) == Err::<
                CloseUpdateView,
                LedgerError,
            >(LedgerError::NotFoundOrAlreadyClosed)
        }),
{
    let first = close_outcome(Ok(Some(p)), winner_exit, winner_at)->Ok_0;
    lemma_close_populates_exit_fields(p, winner_exit, winner_at, first);
}

/// The profit or loss of a position is present exactly when the position is
/// closed, for every position that satisfies the invariant.
pub proof fn lemma_pnl_present_iff_closed(p: PositionView)
    requires
        p.wf(),
    ensures
        p.realized_pnl is Some <==> p.status == Status::Closed,
{
}

} // verus!
