//! In-process metadata registry for a log-ingestion server.
//!
//! The registry maps each log stream's name to its serialized schema, its
//! serialized alert configuration, and its running ingestion statistics.
//! Every operation is specified against a mathematical view of the registry:
//! a `Map` from the stream name (as a sequence of characters) to the record
//! held for that name.

pub mod bootstrap;
pub mod error;
pub mod record;
pub mod registry;
pub mod shared;
pub mod text;
