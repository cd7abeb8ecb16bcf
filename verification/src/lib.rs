//! An interactive incremental prefix-search selector over a fixed set of
//! text entries: a store of entries built once at session start, a query
//! buffer the user edits, a candidate list narrowed to the entries that
//! start with the query, and a dispatch step that maps logical key events
//! to state transitions until the session ends Confirmed or Cancelled.

pub mod loader;
pub mod query;
pub mod selection;
pub mod session;
pub mod store;
