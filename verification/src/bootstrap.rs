//! Bootstrap load: seeding the registry from what durable storage reports.
//!
//! The caller enumerates the streams known to storage and fetches each
//! stream's schema and alert blobs; enumeration failure is the caller's to
//! propagate and is fatal to the whole load. The registry then absorbs the
//! fetched results here: a blob that is missing or does not decode as
//! UTF-8 falls back to the empty text, so one stream's bad metadata never
//! blocks loading the others.

use vstd::prelude::*;

use crate::error::Error;
use crate::record::MetaView;
use crate::registry::STREAM_INFO;
use crate::text::parse_string;
use vstd::utf8::{decode_utf8, valid_utf8};

verus! {

/// What the storage collaborator reported for one stream: its name, and
/// the schema and alert blobs as fetched (`None` when the fetch failed).
#[derive(Debug, Clone)]
pub struct FetchedStream {
    pub name: String,
    pub schema_bytes: Option<Vec<u8>>,
    pub alert_bytes: Option<Vec<u8>>,
}

/// The text a fetched blob contributes to the loaded record: its decoding
/// when it is present and valid UTF-8, and the empty text otherwise.
pub open spec fn fallback_text(bytes: Option<Vec<u8>>) -> Seq<char> {
    match bytes {
        Some(b) => if valid_utf8(b@) {
            decode_utf8(b@)
        } else {
            Seq::<char>::empty()
        },
        None => Seq::<char>::empty(),
    }
}

/// The record that bootstrap load installs for one fetched stream.
pub open spec fn loaded_record(f: FetchedStream) -> MetaView {
    MetaView::fresh(fallback_text(f.schema_bytes), fallback_text(f.alert_bytes))
}

/// The registry view after loading `streams`, in order, over `m`: each
/// fetched stream installs its record, a later occurrence of a name
/// overwriting an earlier one.
pub open spec fn loaded_map(m: Map<Seq<char>, MetaView>, streams: Seq<FetchedStream>) -> Map<
    Seq<char>,
    MetaView,
>
    decreases streams.len(),
{
    if streams.len() == 0 {
        m
    } else {
        loaded_map(m.insert(streams[0].name@, loaded_record(streams[0])), streams.drop_first())
    }
}

/// Decode one fetched blob, a missing or undecodable blob becoming the
/// given not-in-store error. The caller absorbs that error into an empty
/// default, so it never escapes a load.
fn decode_fetched(bytes: Option<Vec<u8>>, missing: Error) -> (r: Result<String, Error>)
    ensures
        r is Ok <==> (bytes matches Some(b) && valid_utf8(b@)),
        r matches Ok(s) ==> (bytes matches Some(b) && s@ == decode_utf8(b@)),
        r matches Err(e) ==> e == missing,
{
    match bytes {
        Some(b) => match parse_string(b) {
            Ok(text) => Ok(text),
            Err(_) => Err(missing),
        },
        None => Err(missing),
    }
}

impl STREAM_INFO {
    /// Populate the registry from the fetched bootstrap data: for each
    /// reported stream, in order, install a fresh record whose texts are
    /// the decoded blobs, with the empty text standing in for a missing or
    /// undecodable blob. The load succeeds once every listed stream has
    /// been processed; it never fails because of one stream's metadata.
    pub fn load(&mut self, streams: Vec<FetchedStream>) -> (r: Result<(), Error>)
        ensures
            r is Ok,
            final(self)@ == loaded_map(old(self)@, streams@),
    {
        let mut remaining = streams;
        let ghost target = loaded_map(self@, remaining@);
        while remaining.len() > 0
            invariant
                loaded_map(self@, remaining@) == target,
            decreases remaining@.len(),
        {
            let ghost m0 = self@;
            let ghost before = remaining@;
            let f = remaining.remove(0);
            proof {
                assert(remaining@ =~= before.drop_first());
            }
            let ghost gf = f;
            let FetchedStream { name, schema_bytes, alert_bytes } = f;
            let alert_config = match decode_fetched(
                alert_bytes,
                Error::AlertNotInStore(name.clone()),
            ) {
                Ok(text) => text,
                Err(_) => String::new(),
            };
            let schema = match decode_fetched(
                schema_bytes,
                Error::SchemaNotInStore(name.clone()),
            ) {
                Ok(text) => text,
                Err(_) => String::new(),
            };
            let ghost gschema = schema@;
            let ghost galert = alert_config@;
            proof {
                assert(gschema == fallback_text(gf.schema_bytes));
                assert(galert == fallback_text(gf.alert_bytes));
            }
            let _ = self.add_stream(name, schema, alert_config);
            proof {
                assert(self@ == m0.insert(gf.name@, MetaView::fresh(gschema, galert)));
                assert(MetaView::fresh(gschema, galert) == loaded_record(gf));
                assert(gf == before[0]);
                assert(loaded_map(m0, before) == loaded_map(
                    m0.insert(before[0].name@, loaded_record(before[0])),
                    before.drop_first(),
                ));
            }
        }
        Ok(())
    }
}

} // verus!
