//! The position record, the requests that create and close it, and the
//! mathematical view that the ledger's contracts are stated over.

use crate::margin::realized_pnl;
use vstd::prelude::*;

verus! {

/// Where a position stands in its lifecycle. `Closed` is final.
#[derive(Clone, Copy, Debug, PartialEq, Eq, Structural)]
pub enum Status {
    Open,
    Closed,
}

/// Why a ledger operation did not go through.
#[derive(Clone, Copy, Debug, PartialEq, Eq, Structural)]
pub enum LedgerError {
    /// A leverage below one, or a size or price that is not positive.
    InvalidInput,
    /// The scaled arithmetic left the 128-bit range.
    Overflow,
    /// No open position has the identifier: it is unknown or already closed.
    NotFoundOrAlreadyClosed,
    /// The store could not be reached or refused the operation.
    PersistenceFailure,
}

/// A failed round trip to the durable store.
#[derive(Clone, Copy, Debug, PartialEq, Eq, Structural)]
pub struct StoreError;

/// A request to open a position. Amounts are in scaled units.
#[derive(Clone, Debug, PartialEq, Eq)]
pub struct OpenRequest {
    pub user_id: String,
    pub symbol: String,
    pub side: String,
    pub size_usdt: u128,
    pub leverage: i32,
    pub entry_price: u128,
}

/// A request to close a position at a price in scaled units.
#[derive(Clone, Copy, Debug, PartialEq, Eq, Structural)]
pub struct CloseRequest {
    pub exit_price: u128,
}

/// A position as the store holds it. Amounts are in scaled units, times in
/// milliseconds since the epoch; the three exit fields are filled on closing.
#[derive(Clone, Debug, PartialEq, Eq)]
pub struct PositionRow {
    pub id: String,
    pub user_id: String,
    pub symbol: String,
    pub side: String,
    pub size_usdt: u128,
    pub leverage: i32,
    pub entry_price: u128,
    pub initial_margin: u128,
    pub created_at: i64,
    pub status: Status,
    pub exit_price: Option<u128>,
    pub realized_pnl: Option<i128>,
    pub closed_at: Option<i64>,
}

/// What closing a position writes to the store: the identifier of the
/// position and its three exit fields.
#[derive(Clone, Debug, PartialEq, Eq)]
pub struct CloseUpdate {
    pub position_id: String,
    pub exit_price: u128,
    pub realized_pnl: i128,
    pub closed_at: i64,
}

/// What the caller gets back for an opened position.
#[derive(Clone, Debug, PartialEq, Eq)]
pub struct OpenReceipt {
    pub position_id: String,
    pub initial_margin: u128,
}

/// What the caller gets back for a closed position.
#[derive(Clone, Debug, PartialEq, Eq)]
pub struct CloseReceipt {
    pub position_id: String,
    pub exit_price: u128,
    pub realized_pnl: i128,
}

/// An open request as plain mathematical values.
pub struct OpenRequestView {
    pub user_id: Seq<char>,
    pub symbol: Seq<char>,
    pub side: Seq<char>,
    pub size_usdt: int,
    pub leverage: int,
    pub entry_price: int,
}

/// What closing a position writes to the store, as plain mathematical values.
pub struct CloseUpdateView {
    pub position_id: Seq<char>,
    pub exit_price: int,
    pub realized_pnl: int,
    pub closed_at: int,
}

/// A position as plain mathematical values. The three optional exit fields of
/// the record are modelled one by one, so that a record that holds only some
/// of them still has a view.
pub struct PositionView {
    pub id: Seq<char>,
    pub user_id: Seq<char>,
    pub symbol: Seq<char>,
    pub side: Seq<char>,
    pub size_usdt: int,
    pub leverage: int,
    pub entry_price: int,
    pub initial_margin: int,
    pub created_at: int,
    pub status: Status,
    pub exit_price: Option<int>,
    pub realized_pnl: Option<int>,
    pub closed_at: Option<int>,
}

impl View for OpenRequest {
    type V = OpenRequestView;

    open spec fn view(&self) -> OpenRequestView {
        OpenRequestView {
            user_id: self.user_id@,
            symbol: self.symbol@,
            side: self.side@,
            size_usdt: self.size_usdt as int,
            leverage: self.leverage as int,
            entry_price: self.entry_price as int,
        }
    }
}

impl View for CloseUpdate {
    type V = CloseUpdateView;

    open spec fn view(&self) -> CloseUpdateView {
        CloseUpdateView {
            position_id: self.position_id@,
            exit_price: self.exit_price as int,
            realized_pnl: self.realized_pnl as int,
            closed_at: self.closed_at as int,
        }
    }
}

impl View for PositionRow {
    type V = PositionView;

    open spec fn view(&self) -> PositionView {
        PositionView {
            id: self.id@,
            user_id: self.user_id@,
            symbol: self.symbol@,
            side: self.side@,
            size_usdt: self.size_usdt as int,
            leverage: self.leverage as int,
            entry_price: self.entry_price as int,
            initial_margin: self.initial_margin as int,
            created_at: self.created_at as int,
            status: self.status,
            exit_price: match self.exit_price {
                Some(price) => Some(price as int),
                None => None,
            },
            realized_pnl: match self.realized_pnl {
                Some(pnl) => Some(pnl as int),
                None => None,
            },
            closed_at: match self.closed_at {
                Some(at) => Some(at as int),
                None => None,
            },
        }
    }
}

impl PositionView {
    /// The invariant of a stored position: positive size and prices, a
    /// leverage of at least one, the margin that size and leverage give, and
    /// exit fields exactly when the position is closed, the profit or loss
    /// being the one that the entry price, exit price and size give. The
    /// margin is the quotient rounded down to a whole scaled unit, so it is
    /// zero, not positive, for a size below the leverage.
    pub open spec fn wf(self) -> bool {
        &&& self.size_usdt > 0
        &&& self.leverage >= 1
        &&& self.entry_price > 0
        &&& self.initial_margin == self.size_usdt / self.leverage
        &&& match self.status {
            Status::Open => {
                &&& self.exit_price is None
                &&& self.realized_pnl is None
                &&& self.closed_at is None
            },
            Status::Closed => {
                &&& self.exit_price matches Some(price)
                &&& price > 0
                &&& self.realized_pnl == Some(
                    realized_pnl(self.entry_price, price, self.size_usdt),
                )
                &&& self.closed_at is Some
            },
        }
    }
}

impl PositionRow {
    /// The record's view satisfies the invariant of a stored position.
    pub open spec fn wf(&self) -> bool {
        self@.wf()
    }

    /// Copies the record, field by field.
    pub fn duplicate(&self) -> (copy: PositionRow)
        ensures
            copy == *self,
    {
        PositionRow {
            id: self.id.clone(),
            user_id: self.user_id.clone(),
            symbol: self.symbol.clone(),
            side: self.side.clone(),
            size_usdt: self.size_usdt,
            leverage: self.leverage,
            entry_price: self.entry_price,
            initial_margin: self.initial_margin,
            created_at: self.created_at,
            status: self.status,
            exit_price: self.exit_price,
            realized_pnl: self.realized_pnl,
            closed_at: self.closed_at,
        }
    }

    /// Tells whether the position can still be closed.
    pub fn is_open(&self) -> (open: bool)
        ensures
            open == (self.status == Status::Open),
    {
        match self.status {
            Status::Open => true,
            Status::Closed => false,
        }
    }
}

} // verus!
