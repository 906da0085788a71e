//! Market-calendar-aware synchronisation and caching engine for exchange
//! price data: market status, sync-state bookkeeping, price reconciliation,
//! cache policy and job leases.

pub mod cache;
pub mod calendar;
pub mod exchange;
pub mod holiday;
pub mod index;
pub mod job;
pub mod market;
pub mod price;
pub mod sync;
pub mod text;
pub mod token;
