//! A non-fungible-token ledger: ownership and approval stores, a hash-chained
//! and certified transaction log, batch validation and commit, and the
//! bookkeeping that moves old log entries to archive instances.

pub mod account;
pub mod archive;
pub mod batch;
pub mod certify;
pub mod encode;
pub mod laws;
pub mod mint;
pub mod query;
pub mod state;
pub mod txlog;
pub mod types;
