//! The metadata registry: a mapping from stream name to the stream's
//! metadata record.
//!
//! The registry is held as a vector of name/record pairs with pairwise
//! distinct names; its mathematical view is the `Map` from each name's
//! character sequence to the record's value. Every operation is specified
//! as one step on that map. A process that shares one registry between
//! threads wraps it in a reader/writer lock and performs each call under
//! one lock acquisition, so that every call acts on a single consistent
//! snapshot; the `shared` module provides exactly that wrapper.

use vstd::prelude::*;

use crate::error::Error;
use crate::record::{LogStreamMetadata, MetaView, Stats};

verus! {

/// One registry entry: the stream's name beside its record.
type Entry = (String, LogStreamMetadata);

/// Whether some entry of `s` carries the name `k`.
spec fn has_key(s: Seq<Entry>, k: Seq<char>) -> bool {
    exists|i: int| 0 <= i < s.len() && s[i].0@ == k
}

/// Whether the entries of `s` carry pairwise distinct names.
spec fn distinct_keys(s: Seq<Entry>) -> bool {
    forall|i: int, j: int| 0 <= i < j < s.len() ==> s[i].0@ != s[j].0@
}

/// The mapping that a sequence of entries denotes; a later entry for the
/// same name overrides an earlier one.
spec fn map_of(s: Seq<Entry>) -> Map<Seq<char>, MetaView>
    decreases s.len(),
{
    if s.len() == 0 {
        Map::empty()
    } else {
        map_of(s.drop_last()).insert(s.last().0@, s.last().1@)
    }
}

proof fn lemma_map_of_dom(s: Seq<Entry>, k: Seq<char>)
    ensures
        map_of(s).contains_key(k) <==> has_key(s, k),
    decreases s.len(),
{
    if s.len() > 0 {
        let t = s.drop_last();
        lemma_map_of_dom(t, k);
        if s.last().0@ == k {
            assert(s[s.len() - 1].0@ == k);
        } else {
            if has_key(t, k) {
                let i = choose|i: int| 0 <= i < t.len() && t[i].0@ == k;
                assert(s[i].0@ == k);
            }
            if has_key(s, k) {
                let i = choose|i: int| 0 <= i < s.len() && s[i].0@ == k;
                assert(t[i].0@ == k);
            }
        }
    }
}

proof fn lemma_distinct_drop_last(s: Seq<Entry>)
    requires
        distinct_keys(s),
        s.len() > 0,
    ensures
        distinct_keys(s.drop_last()),
{
    let t = s.drop_last();
    assert forall|i: int, j: int| 0 <= i < j < t.len() implies t[i].0@ != t[j].0@ by {
        assert(t[i] == s[i]);
        assert(t[j] == s[j]);
    }
}

/// In a registry with distinct names, the mapping holds exactly the record
/// stored beside each name.
proof fn lemma_map_of_value(s: Seq<Entry>, i: int)
    requires
        distinct_keys(s),
        0 <= i < s.len(),
    ensures
        map_of(s).contains_key(s[i].0@),
        map_of(s)[s[i].0@] == s[i].1@,
    decreases s.len(),
{
    lemma_map_of_dom(s, s[i].0@);
    if i < s.len() - 1 {
        let t = s.drop_last();
        lemma_distinct_drop_last(s);
        assert(t[i] == s[i]);
        lemma_map_of_value(t, i);
        assert(s.last().0@ != s[i].0@);
    }
}

proof fn lemma_map_of_push(s: Seq<Entry>, p: Entry)
    ensures
        map_of(s.push(p)) == map_of(s).insert(p.0@, p.1@),
{
    assert(s.push(p).drop_last() =~= s);
    assert(s.push(p).last() == p);
}

proof fn lemma_distinct_push(s: Seq<Entry>, p: Entry)
    requires
        distinct_keys(s),
        !has_key(s, p.0@),
    ensures
        distinct_keys(s.push(p)),
{
    let u = s.push(p);
    assert forall|i: int, j: int| 0 <= i < j < u.len() implies u[i].0@ != u[j].0@ by {
        if j < s.len() {
            assert(u[i] == s[i]);
            assert(u[j] == s[j]);
        } else {
            assert(u[i] == s[i]);
            assert(u[j] == p);
        }
    }
}

proof fn lemma_distinct_remove(s: Seq<Entry>, i: int)
    requires
        distinct_keys(s),
        0 <= i < s.len(),
    ensures
        distinct_keys(s.remove(i)),
        !has_key(s.remove(i), s[i].0@),
{
    let u = s.remove(i);
    s.remove_ensures(i);
    assert forall|a: int, b: int| 0 <= a < b < u.len() implies u[a].0@ != u[b].0@ by {
        let oa: int = if a < i { a } else { a + 1 };
        let ob: int = if b < i { b } else { b + 1 };
        assert(u[a] == s[oa]);
        assert(u[b] == s[ob]);
    }
    assert forall|a: int| 0 <= a < u.len() implies u[a].0@ != s[i].0@ by {
        let oa: int = if a < i { a } else { a + 1 };
        assert(u[a] == s[oa]);
    }
}

/// Removing the entry that carries a name removes exactly that name from
/// the mapping.
proof fn lemma_map_of_remove(s: Seq<Entry>, i: int)
    requires
        distinct_keys(s),
        0 <= i < s.len(),
    ensures
        map_of(s.remove(i)) == map_of(s).remove(s[i].0@),
    decreases s.len(),
{
    let k = s[i].0@;
    let t = s.drop_last();
    lemma_distinct_drop_last(s);
    if i == s.len() - 1 {
        assert(s.remove(i) =~= t);
        lemma_map_of_dom(t, k);
        if has_key(t, k) {
            let j = choose|j: int| 0 <= j < t.len() && t[j].0@ == k;
            assert(s[j].0@ == k);
            assert(false);
        }
        assert(map_of(s).remove(k) =~= map_of(t));
    } else {
        assert(t[i] == s[i]);
        lemma_map_of_remove(t, i);
        assert(s.remove(i).drop_last() =~= t.remove(i));
        assert(s.remove(i).last() == s.last());
        assert(s.last().0@ != k);
        assert(map_of(t).remove(k).insert(s.last().0@, s.last().1@) =~= map_of(t).insert(
            s.last().0@,
            s.last().1@,
        ).remove(k));
        assert(map_of(s.remove(i)) == map_of(t.remove(i)).insert(s.last().0@, s.last().1@));
    }
}

/// A registry with pairwise distinct names holds exactly one entry per
/// name in its mapping.
proof fn lemma_map_of_len(s: Seq<Entry>)
    requires
        distinct_keys(s),
    ensures
        map_of(s).dom().finite(),
        map_of(s).dom().len() == s.len(),
    decreases s.len(),
{
    if s.len() > 0 {
        let t = s.drop_last();
        let k = s.last().0@;
        lemma_distinct_drop_last(s);
        lemma_map_of_len(t);
        lemma_map_of_dom(t, k);
        if has_key(t, k) {
            let j = choose|j: int| 0 <= j < t.len() && t[j].0@ == k;
            assert(s[j].0@ == k);
            assert(false);
        }
        assert(map_of(s).dom() =~= map_of(t).dom().insert(k));
    } else {
        assert(map_of(s).dom() =~= Set::<Seq<char>>::empty());
    }
}

/// Look up the index of the entry named `name`, if any.
fn find_entry(entries: &Vec<Entry>, name: &String) -> (r: Option<usize>)
    ensures
        match r {
            Some(i) => i < entries@.len() && entries@[i as int].0@ == name@,
            None => !has_key(entries@, name@),
        },
{
    let mut i: usize = 0;
    while i < entries.len()
        invariant
            i <= entries@.len(),
            forall|j: int| 0 <= j < i ==> entries@[j].0@ != name@,
        decreases entries@.len() - i,
    {
        if entries[i].0 == *name {
            return Some(i);
        }
        i = i + 1;
    }
    None
}

/// The registry of every known stream's metadata, viewed as a map from the
/// stream's name to its record.
#[allow(non_camel_case_types)]
pub struct STREAM_INFO {
    entries: Vec<Entry>,
}

impl View for STREAM_INFO {
    type V = Map<Seq<char>, MetaView>;

    closed spec fn view(&self) -> Map<Seq<char>, MetaView> {
        map_of(self.entries@)
    }
}

impl STREAM_INFO {
    #[verifier::type_invariant]
    spec fn well_formed(self) -> bool {
        distinct_keys(self.entries@)
    }

    /// An empty registry, as a process starts with before bootstrap load.
    pub fn new() -> (r: STREAM_INFO)
        ensures
            r@ == Map::<Seq<char>, MetaView>::empty(),
    {
        STREAM_INFO { entries: Vec::new() }
    }

    /// The whole record held for `stream_name`, if any.
    pub fn get(&self, stream_name: &str) -> (r: Option<&LogStreamMetadata>)
        ensures
            match r {
                Some(m) => self@.contains_key(stream_name@) && m@ == self@[stream_name@],
                None => !self@.contains_key(stream_name@),
            },
    {
        proof {
            use_type_invariant(&*self);
            lemma_map_of_dom(self.entries@, stream_name@);
        }
        let key: String = stream_name.to_owned();
        match find_entry(&self.entries, &key) {
            Some(i) => {
                proof {
                    lemma_map_of_value(self.entries@, i as int);
                }
                Some(&self.entries[i].1)
            },
            None => None,
        }
    }

    /// How many streams the registry knows.
    pub fn len(&self) -> (n: usize)
        ensures
            self@.dom().finite(),
            n == self@.dom().len(),
    {
        proof {
            use_type_invariant(&*self);
            lemma_map_of_len(self.entries@);
        }
        self.entries.len()
    }

    /// The schema text recorded for `stream_name`; fails with
    /// `StreamMetaNotFound` exactly when no record exists for that name.
    pub fn schema(&self, stream_name: &str) -> (r: Result<String, Error>)
        ensures
            self@.contains_key(stream_name@) ==> (r matches Ok(s)
                && s@ == self@[stream_name@].schema),
            !self@.contains_key(stream_name@) ==> (r matches Err(e)
                && e matches Error::StreamMetaNotFound(n) && n@ == stream_name@),
    {
        proof {
            use_type_invariant(&*self);
            lemma_map_of_dom(self.entries@, stream_name@);
        }
        let key: String = stream_name.to_owned();
        match find_entry(&self.entries, &key) {
            Some(i) => {
                proof {
                    lemma_map_of_value(self.entries@, i as int);
                }
                Ok(self.entries[i].1.schema.clone())
            },
            None => Err(Error::StreamMetaNotFound(key)),
        }
    }

    /// The alert-configuration text recorded for `stream_name`; fails with
    /// `StreamMetaNotFound` exactly when no record exists for that name.
    pub fn alert(&self, stream_name: &str) -> (r: Result<String, Error>)
        ensures
            self@.contains_key(stream_name@) ==> (r matches Ok(a)
                && a@ == self@[stream_name@].alert_config),
            !self@.contains_key(stream_name@) ==> (r matches Err(e)
                && e matches Error::StreamMetaNotFound(n) && n@ == stream_name@),
    {
        proof {
            use_type_invariant(&*self);
            lemma_map_of_dom(self.entries@, stream_name@);
        }
        let key: String = stream_name.to_owned();
        match find_entry(&self.entries, &key) {
            Some(i) => {
                proof {
                    lemma_map_of_value(self.entries@, i as int);
                }
                Ok(self.entries[i].1.alert_config.clone())
            },
            None => Err(Error::StreamMetaNotFound(key)),
        }
    }

    /// Install a fresh record for `stream_name`: the given texts with
    /// statistics reset to zero. This is create-or-replace: any record
    /// already held for that name is discarded, its statistics included,
    /// and no error path exists.
    pub fn add_stream(&mut self, stream_name: String, schema: String, alert_config: String) -> (r:
        Result<(), Error>)
        ensures
            r is Ok,
            final(self)@ == old(self)@.insert(
                stream_name@,
                MetaView::fresh(schema@, alert_config@),
            ),
    {
        proof {
            use_type_invariant(&*self);
        }
        let metadata = LogStreamMetadata { schema, alert_config, stats: Stats::default() };
        let mut entries: Vec<Entry> = Vec::new();
        core::mem::swap(&mut entries, &mut self.entries);
        let ghost s0 = entries@;
        if let Some(i) = find_entry(&entries, &stream_name) {
            proof {
                lemma_map_of_remove(s0, i as int);
                lemma_distinct_remove(s0, i as int);
            }
            let _ = entries.remove(i);
        } else {
            proof {
                lemma_map_of_dom(s0, stream_name@);
                assert(map_of(s0).remove(stream_name@) =~= map_of(s0));
            }
        }
        proof {
            lemma_map_of_push(entries@, (stream_name, metadata));
            lemma_distinct_push(entries@, (stream_name, metadata));
            assert(map_of(s0).remove(stream_name@).insert(stream_name@, metadata@) =~= map_of(
                s0,
            ).insert(stream_name@, metadata@));
        }
        entries.push((stream_name, metadata));
        self.entries = entries;
        Ok(())
    }

    /// Remove the record for `stream_name`, if any. Idempotent: the absence
    /// of a record is not an error.
    pub fn delete_stream(&mut self, stream_name: &str) -> (r: Result<(), Error>)
        ensures
            r is Ok,
            final(self)@ == old(self)@.remove(stream_name@),
    {
        proof {
            use_type_invariant(&*self);
        }
        let key: String = stream_name.to_owned();
        let mut entries: Vec<Entry> = Vec::new();
        core::mem::swap(&mut entries, &mut self.entries);
        let ghost s0 = entries@;
        if let Some(i) = find_entry(&entries, &key) {
            proof {
                lemma_map_of_remove(s0, i as int);
                lemma_distinct_remove(s0, i as int);
            }
            let _ = entries.remove(i);
        } else {
            proof {
                lemma_map_of_dom(s0, stream_name@);
                assert(map_of(s0).remove(stream_name@) =~= map_of(s0));
            }
        }
        self.entries = entries;
        Ok(())
    }

    /// Fold one ingested batch into the statistics of `stream_name`'s
    /// record, leaving its texts as they are; fails with
    /// `StreamMetaNotFound`, and changes nothing, exactly when no record
    /// exists for that name.
    pub fn update_stats(&mut self, stream_name: &str, size: u64, compressed_size: u64) -> (r:
        Result<(), Error>)
        requires
            old(self)@.contains_key(stream_name@) ==> old(self)@[stream_name@].stats.fits(
                size,
                compressed_size,
            ),
        ensures
            old(self)@.contains_key(stream_name@) ==> r is Ok && final(self)@ == old(self)@.insert(
                stream_name@,
                MetaView {
                    schema: old(self)@[stream_name@].schema,
                    alert_config: old(self)@[stream_name@].alert_config,
                    stats: old(self)@[stream_name@].stats.updated(size, compressed_size),
                },
            ),
            !old(self)@.contains_key(stream_name@) ==> (r matches Err(e)
                && e matches Error::StreamMetaNotFound(n) && n@ == stream_name@ && final(self)@
                == old(self)@),
    {
        proof {
            use_type_invariant(&*self);
            lemma_map_of_dom(self.entries@, stream_name@);
        }
        let key: String = stream_name.to_owned();
        let mut entries: Vec<Entry> = Vec::new();
        core::mem::swap(&mut entries, &mut self.entries);
        let ghost s0 = entries@;
        match find_entry(&entries, &key) {
            Some(i) => {
                proof {
                    lemma_map_of_value(s0, i as int);
                    lemma_map_of_remove(s0, i as int);
                    lemma_distinct_remove(s0, i as int);
                }
                let (name, mut meta) = entries.remove(i);
                meta.stats.update(size, compressed_size);
                proof {
                    lemma_map_of_push(entries@, (name, meta));
                    lemma_distinct_push(entries@, (name, meta));
                    assert(map_of(s0).remove(name@).insert(name@, meta@) =~= map_of(s0).insert(
                        name@,
                        meta@,
                    ));
                }
                entries.push((name, meta));
                self.entries = entries;
                Ok(())
            },
            None => {
                self.entries = entries;
                Err(Error::StreamMetaNotFound(key))
            },
        }
    }

    /// Fold one ingested batch into the statistics of `stream_name`'s
    /// record after testing that the new totals fit in 64 bits, so that
    /// callers who cannot inspect the current counters need no
    /// precondition: `Ok(true)` applies the update, `Ok(false)` reports
    /// that a total would not fit and leaves the record untouched, and
    /// `StreamMetaNotFound` reports that no record exists for that name.
    pub fn try_update_stats(&mut self, stream_name: &str, size: u64, compressed_size: u64) -> (r:
        Result<bool, Error>)
        ensures
            old(self)@.contains_key(stream_name@) && old(self)@[stream_name@].stats.fits(
                size,
                compressed_size,
            ) ==> (r == Ok::<bool, Error>(true) && final(self)@ == old(self)@.insert(
                stream_name@,
                MetaView {
                    schema: old(self)@[stream_name@].schema,
                    alert_config: old(self)@[stream_name@].alert_config,
                    stats: old(self)@[stream_name@].stats.updated(size, compressed_size),
                },
            )),
            old(self)@.contains_key(stream_name@) && !old(self)@[stream_name@].stats.fits(
                size,
                compressed_size,
            ) ==> (r == Ok::<bool, Error>(false) && final(self)@ == old(self)@),
            !old(self)@.contains_key(stream_name@) ==> (r matches Err(e)
                && e matches Error::StreamMetaNotFound(n) && n@ == stream_name@ && final(self)@
                == old(self)@),
    {
        proof {
            use_type_invariant(&*self);
            lemma_map_of_dom(self.entries@, stream_name@);
        }
        let key: String = stream_name.to_owned();
        match find_entry(&self.entries, &key) {
            Some(i) => {
                proof {
                    lemma_map_of_value(self.entries@, i as int);
                }
                let stats = self.entries[i].1.stats;
                if stats.size.checked_add(size).is_some() && stats.prev_compressed.checked_add(
                    compressed_size,
                ).is_some() {
                    let _ = self.update_stats(stream_name, size, compressed_size);
                    Ok(true)
                } else {
                    Ok(false)
                }
            },
            None => Err(Error::StreamMetaNotFound(key)),
        }
    }

    /// Replace the schema text of `stream_name`'s record, keeping its
    /// alert-configuration text; fails with `StreamMetaNotFound`, and
    /// changes nothing, exactly when no record exists for that name.
    ///
    /// The replacement installs a whole fresh record, so the stream's
    /// statistics are reset to zero on every schema update. The read of the
    /// current alert text and the write of the new record happen under the
    /// one exclusive borrow of this call; a process sharing the registry
    /// behind a lock must hold the writer lock across the whole call to
    /// keep the two steps atomic.
    pub fn set_schema(&mut self, stream_name: String, schema: String) -> (r: Result<(), Error>)
        ensures
            old(self)@.contains_key(stream_name@) ==> r is Ok && final(self)@ == old(self)@.insert(
                stream_name@,
                MetaView::fresh(schema@, old(self)@[stream_name@].alert_config),
            ),
            !old(self)@.contains_key(stream_name@) ==> (r matches Err(e)
                && e matches Error::StreamMetaNotFound(n) && n@ == stream_name@ && final(self)@
                == old(self)@),
    {
        let alert_config = match self.alert(stream_name.as_str()) {
            Ok(a) => a,
            Err(e) => {
                return Err(e);
            },
        };
        self.add_stream(stream_name, schema, alert_config)
    }

    /// Replace the alert-configuration text of `stream_name`'s record,
    /// keeping its schema text; fails with `StreamMetaNotFound`, and
    /// changes nothing, exactly when no record exists for that name.
    ///
    /// As with [`Self::set_schema`], the replacement installs a whole fresh
    /// record, so the stream's statistics are reset to zero.
    pub fn set_alert(&mut self, stream_name: String, alert_config: String) -> (r: Result<
        (),
        Error,
    >)
        ensures
            old(self)@.contains_key(stream_name@) ==> r is Ok && final(self)@ == old(self)@.insert(
                stream_name@,
                MetaView::fresh(old(self)@[stream_name@].schema, alert_config@),
            ),
            !old(self)@.contains_key(stream_name@) ==> (r matches Err(e)
                && e matches Error::StreamMetaNotFound(n) && n@ == stream_name@ && final(self)@
                == old(self)@),
    {
        let schema = match self.schema(stream_name.as_str()) {
            Ok(s) => s,
            Err(e) => {
                return Err(e);
            },
        };
        self.add_stream(stream_name, schema, alert_config)
    }
}

/// Deleting a stream is idempotent: removing the same name from the
/// registry view a second time changes nothing.
pub proof fn lemma_delete_idempotent(m: Map<Seq<char>, MetaView>, name: Seq<char>)
    ensures
        m.remove(name).remove(name) == m.remove(name),
{
    assert(m.remove(name).remove(name) =~= m.remove(name));
}

} // verus!
