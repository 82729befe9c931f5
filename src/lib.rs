//! Persistence core of a donation and tax-record tracker: records, the
//! revision log, optimistic concurrency and ownership checks, together with
//! the text helpers that shape charity and report data.

pub mod activity;
pub mod assets;
pub mod charities;
pub mod classify;
pub mod donations;
pub mod integrity;
pub mod laws;
pub mod outside;
pub mod receipts;
pub mod records;
pub mod requests;
pub mod schema;
pub mod store;
pub mod text;
