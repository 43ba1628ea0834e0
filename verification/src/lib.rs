//! Fixed-point margin arithmetic and the open/close lifecycle of leveraged
//! trading positions.

mod clock;
pub mod ident;
pub mod ledger;
pub mod lifecycle;
pub mod listing;
pub mod margin;
pub mod position;
