//! The process-wide shared registry: the whole map behind one verified
//! multiple-reader/single-writer lock.
//!
//! Any number of readers proceed simultaneously; a writer excludes every
//! reader and every other writer for the duration of its one map
//! operation. A reader borrows the stored registry only through the
//! lock's read handle, and the lock's protocol guarantees that what it
//! borrows is a value some writer stored whole: a reader sees either the
//! previous complete record for a name or the next complete record, never
//! a mix of the two. The operations that read and then write — replacing
//! one text field of a record — run under a single exclusive acquisition
//! here, so no other writer can interleave between their two steps.
//!
//! Because other writers may run between any two calls, a contract on
//! this type cannot relate one call's result to the next call's state; it
//! can, and does, say that each result comes from one consistent
//! snapshot of the registry.

use vstd::prelude::*;
use vstd::rwlock::RwLock;

use crate::bootstrap::FetchedStream;
use crate::error::Error;
use crate::record::{LogStreamMetadata, MetaView};
use crate::registry::STREAM_INFO;

verus! {

/// A registry shared by every thread of the process, behind one
/// reader/writer lock.
pub struct SharedRegistry {
    lock: RwLock<STREAM_INFO, spec_fn(STREAM_INFO) -> bool>,
}

impl SharedRegistry {
    #[verifier::type_invariant]
    spec fn wf(self) -> bool {
        forall|v: STREAM_INFO| #[trigger] self.lock.inv(v)
    }

    /// A shared handle over an initially empty registry.
    pub fn new() -> (r: SharedRegistry) {
        let lock = RwLock::new(STREAM_INFO::new(), Ghost(|v: STREAM_INFO| true));
        proof {
            assert forall|v: STREAM_INFO| #[trigger] lock.inv(v) by {}
        }
        SharedRegistry { lock }
    }

    /// The schema text one consistent snapshot records for `stream_name`,
    /// under a shared acquisition.
    pub fn schema(&self, stream_name: &str) -> (r: Result<String, Error>)
        ensures
            r matches Ok(s) ==> exists|m: Map<Seq<char>, MetaView>|
                #[trigger] m.contains_key(stream_name@) && s@ == m[stream_name@].schema,
            r matches Err(e) ==> (e matches Error::StreamMetaNotFound(n) && n@ == stream_name@),
    {
        proof {
            use_type_invariant(&*self);
        }
        let handle = self.lock.acquire_read();
        let result = handle.borrow().schema(stream_name);
        proof {
            if handle.view()@.contains_key(stream_name@) {
                assert(result matches Ok(s) && s@ == handle.view()@[stream_name@].schema);
            }
        }
        handle.release_read();
        result
    }

    /// The alert-configuration text one consistent snapshot records for
    /// `stream_name`, under a shared acquisition.
    pub fn alert(&self, stream_name: &str) -> (r: Result<String, Error>)
        ensures
            r matches Ok(a) ==> exists|m: Map<Seq<char>, MetaView>|
                #[trigger] m.contains_key(stream_name@) && a@ == m[stream_name@].alert_config,
            r matches Err(e) ==> (e matches Error::StreamMetaNotFound(n) && n@ == stream_name@),
    {
        proof {
            use_type_invariant(&*self);
        }
        let handle = self.lock.acquire_read();
        let result = handle.borrow().alert(stream_name);
        proof {
            if handle.view()@.contains_key(stream_name@) {
                assert(result matches Ok(a) && a@ == handle.view()@[stream_name@].alert_config);
            }
        }
        handle.release_read();
        result
    }

    /// The whole record one consistent snapshot holds for `stream_name`,
    /// copied out under a shared acquisition: a complete record or none,
    /// never a partial one.
    pub fn record(&self, stream_name: &str) -> (r: Option<LogStreamMetadata>)
        ensures
            r matches Some(rec) ==> exists|m: Map<Seq<char>, MetaView>|
                #[trigger] m.contains_key(stream_name@) && rec@ == m[stream_name@],
    {
        proof {
            use_type_invariant(&*self);
        }
        let handle = self.lock.acquire_read();
        let result = match handle.borrow().get(stream_name) {
            Some(found) => Some(
                LogStreamMetadata {
                    schema: found.schema.clone(),
                    alert_config: found.alert_config.clone(),
                    stats: found.stats,
                },
            ),
            None => None,
        };
        proof {
            if handle.view()@.contains_key(stream_name@) {
                assert(result matches Some(rec) && rec@ == handle.view()@[stream_name@]);
            }
        }
        handle.release_read();
        result
    }

    /// Install a fresh record for `stream_name` under an exclusive
    /// acquisition; create-or-replace, exactly as
    /// [`STREAM_INFO::add_stream`].
    pub fn add_stream(&self, stream_name: String, schema: String, alert_config: String) -> (r:
        Result<(), Error>)
        ensures
            r is Ok,
    {
        proof {
            use_type_invariant(&*self);
        }
        let (mut registry, handle) = self.lock.acquire_write();
        let result = registry.add_stream(stream_name, schema, alert_config);
        handle.release_write(registry);
        result
    }

    /// Remove the record for `stream_name`, if any, under an exclusive
    /// acquisition; idempotent, exactly as [`STREAM_INFO::delete_stream`].
    pub fn delete_stream(&self, stream_name: &str) -> (r: Result<(), Error>)
        ensures
            r is Ok,
    {
        proof {
            use_type_invariant(&*self);
        }
        let (mut registry, handle) = self.lock.acquire_write();
        let result = registry.delete_stream(stream_name);
        handle.release_write(registry);
        result
    }

    /// Replace the schema text of `stream_name`'s record, keeping its
    /// alert text and resetting its statistics. The read of the current
    /// alert text and the write of the new record both happen under the
    /// one exclusive acquisition taken here, so no concurrent writer can
    /// interleave between the two steps.
    pub fn set_schema(&self, stream_name: String, schema: String) -> (r: Result<(), Error>)
        ensures
            r matches Err(e) ==> (e matches Error::StreamMetaNotFound(n) && n@ == stream_name@),
    {
        proof {
            use_type_invariant(&*self);
        }
        let (mut registry, handle) = self.lock.acquire_write();
        let result = registry.set_schema(stream_name, schema);
        handle.release_write(registry);
        result
    }

    /// Replace the alert-configuration text of `stream_name`'s record,
    /// keeping its schema text and resetting its statistics, under one
    /// exclusive acquisition as with [`Self::set_schema`].
    pub fn set_alert(&self, stream_name: String, alert_config: String) -> (r: Result<(), Error>)
        ensures
            r matches Err(e) ==> (e matches Error::StreamMetaNotFound(n) && n@ == stream_name@),
    {
        proof {
            use_type_invariant(&*self);
        }
        let (mut registry, handle) = self.lock.acquire_write();
        let result = registry.set_alert(stream_name, alert_config);
        handle.release_write(registry);
        result
    }

    /// Fold one ingested batch into `stream_name`'s statistics under an
    /// exclusive acquisition: `Ok(true)` when applied, `Ok(false)` when a
    /// new total would not fit in 64 bits (the record is then left
    /// untouched), `StreamMetaNotFound` when no record exists.
    pub fn update_stats(&self, stream_name: &str, size: u64, compressed_size: u64) -> (r: Result<
        bool,
        Error,
    >)
        ensures
            r matches Err(e) ==> (e matches Error::StreamMetaNotFound(n) && n@ == stream_name@),
    {
        proof {
            use_type_invariant(&*self);
        }
        let (mut registry, handle) = self.lock.acquire_write();
        let result = registry.try_update_stats(stream_name, size, compressed_size);
        handle.release_write(registry);
        result
    }

    /// Seed the registry from fetched bootstrap data under one exclusive
    /// acquisition, exactly as [`STREAM_INFO::load`].
    pub fn load(&self, streams: Vec<FetchedStream>) -> (r: Result<(), Error>)
        ensures
            r is Ok,
    {
        proof {
            use_type_invariant(&*self);
        }
        let (mut registry, handle) = self.lock.acquire_write();
        let result = registry.load(streams);
        handle.release_write(registry);
        result
    }
}

} // verus!
