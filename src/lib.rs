//! Core of a proof relay: callback requests are ingested and deduplicated,
//! proof jobs advance through a compare-and-set guarded lifecycle, and
//! waiters are told of terminal outcomes.

pub mod input;
pub mod request;
pub mod job;
pub mod retry;
pub mod storage;
pub mod relay;
pub mod notifier;
pub mod record;
pub mod laws;
