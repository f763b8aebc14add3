//! Synchronisation engine of a shielded value pool: a height-ordered cache of
//! fetched ledger entries, the queue that feeds it, the extraction of shielded
//! payloads from ledger transactions, and the scanning state that follows them.

pub mod amount;
pub mod context;
pub mod error;
pub mod event;
pub mod extract;
pub mod fetch;
pub mod fetch_channel;
pub mod ibc;
pub mod progress;
pub mod storage;
pub mod task;
pub mod text;
pub mod tx;
pub mod unscanned;
pub mod utils;
