//! Error taxonomy of the registry.

use vstd::prelude::*;

verus! {

/// Every failure a registry operation can report.
///
/// `StreamMetaNotFound` is surfaced to callers whenever a lookup or an
/// in-place mutation names a stream with no record. `SchemaNotInStore` and
/// `AlertNotInStore` arise only while assembling a record during bootstrap
/// load, where they are absorbed into an empty default rather than
/// propagated. `InvalidUtf8` reports that fetched bytes do not decode as
/// text.
#[derive(Debug, Clone, PartialEq, Eq)]
pub enum Error {
    StreamMetaNotFound(String),
    SchemaNotInStore(String),
    AlertNotInStore(String),
    InvalidUtf8,
}

} // verus!
