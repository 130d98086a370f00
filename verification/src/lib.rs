//! A double-entry bookkeeping aggregation engine.
//!
//! The engine turns a validated ledger — declared accounts, declared
//! category groupings, and named periods of transactions — into a
//! multi-dimensional summary: per-account totals, per-period totals, and
//! totals rolled up by account type and by named account category, with the
//! contributing transfers of every total kept in a guaranteed order.
//!
//! Loading the ledger from disk and rendering the result are left to the
//! surrounding program; the engine itself is a pure computation whose
//! behaviour is stated in contracts and machine-checked.

pub mod account;
pub mod amount;
pub mod calculate;
pub mod date;
pub mod file_io;
pub mod laws;
pub mod ledger;
pub mod order;
pub mod rollup;
pub mod summary;
pub mod summing;
pub mod transfer;

pub use account::{Accumulator, SummedAccount};
pub use amount::Amount;
pub use calculate::{calculate, SummedBookkeeping, SummedGrouping};
pub use date::Date;
pub use file_io::{DummyFileIO, FakeFileIO, FileIO};
pub use ledger::{
    AccountType, LedgerError, RealBookkeeping, RealGrouping, RealTransaction,
};
pub use summary::{AccountGroupSummary, GroupingSummary, Summary};
pub use transfer::{Transfer, TransferId};
