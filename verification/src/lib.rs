//! Capture of structured log events: each event becomes a [`LogEntry`], is handed
//! to live subscribers, kept in a bounded history that can be queried, and
//! encoded as one line of a durable log.
//!
//! The library holds the rules of that pipeline and proves them: how a record
//! is built, which records the history keeps, what a query answers, and what a
//! line of the log looks like. Reading events from the process, scheduling the
//! background work and writing the file are left to the caller.

pub mod cache;
pub mod fanout;
pub mod query;
pub mod record;
pub mod sink;
pub mod text;
pub mod tracing_utils;
pub mod visitor;

pub use cache::{BoundedCache, DEFAULT_CAPACITY};
pub use query::{LogQuery, Query, DEFAULT_PAGE_SIZE};
pub use record::{LogEntry, Record, Severity};
pub use visitor::TracingVisitor;
