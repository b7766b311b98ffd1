//! Per-stream metadata record and its running ingestion statistics.

use vstd::prelude::*;

verus! {

/// Running ingestion statistics for one stream.
///
/// `size` accumulates the raw event-body bytes ingested. `compressed_size`
/// is the total encoded storage across all persisted segments, up to and
/// including the most recently committed one. `prev_compressed` is the
/// carry: the compressed total accumulated before the current, not yet
/// finalized segment. It is advanced by the caller when a segment is
/// finalized; `update` itself never changes it.
#[derive(Debug, Clone, Copy, PartialEq, Eq, Structural)]
pub struct Stats {
    pub size: u64,
    pub compressed_size: u64,
    pub prev_compressed: u64,
}

impl Default for Stats {
    /// A fresh record starts with every counter at zero.
    fn default() -> (s: Self)
        ensures
            s == Stats::zero(),
    {
        Stats { size: 0, compressed_size: 0, prev_compressed: 0 }
    }
}

impl Stats {
    /// The statistics of a freshly created record.
    pub open spec fn zero() -> Stats {
        Stats { size: 0, compressed_size: 0, prev_compressed: 0 }
    }

    /// Whether both totals of [`Stats::update`] stay within 64 bits.
    pub open spec fn fits(self, size: u64, compressed_size: u64) -> bool {
        self.size + size <= u64::MAX && self.prev_compressed + compressed_size <= u64::MAX
    }

    /// The statistics after folding in one ingested batch, as computed by
    /// [`Stats::update`].
    pub open spec fn updated(self, size: u64, compressed_size: u64) -> Stats
        recommends
            self.size + size <= u64::MAX,
            self.prev_compressed + compressed_size <= u64::MAX,
    {
        Stats {
            size: (self.size + size) as u64,
            compressed_size: (self.prev_compressed + compressed_size) as u64,
            prev_compressed: self.prev_compressed,
        }
    }

    /// Fold one ingested batch into the statistics: `size` grows by the
    /// event body's size, while the compressed total is recomputed as the
    /// carry plus the current segment's encoded size. Repeated calls before
    /// the carry is advanced therefore overwrite, not accumulate, the
    /// in-flight segment's compressed contribution.
    pub fn update(&mut self, size: u64, compressed_size: u64)
        requires
            old(self).size + size <= u64::MAX,
            old(self).prev_compressed + compressed_size <= u64::MAX,
        ensures
            final(self).size == old(self).size + size,
            final(self).compressed_size == old(self).prev_compressed + compressed_size,
            final(self).prev_compressed == old(self).prev_compressed,
            *final(self) == old(self).updated(size, compressed_size),
    {
        self.size = self.size + size;
        self.compressed_size = self.prev_compressed + compressed_size;
    }
}

/// The record the registry keeps for one stream: opaque serialized schema
/// text (empty until first known), opaque serialized alert-rule text (empty
/// when no alerts are configured), and the running statistics.
#[derive(Debug, Clone, PartialEq, Eq)]
pub struct LogStreamMetadata {
    pub schema: String,
    pub alert_config: String,
    pub stats: Stats,
}

/// Mathematical value of a [`LogStreamMetadata`] record: the two text
/// fields as character sequences, beside the statistics.
#[verifier::ext_equal]
pub ghost struct MetaView {
    pub schema: Seq<char>,
    pub alert_config: Seq<char>,
    pub stats: Stats,
}

impl MetaView {
    /// The record `add_stream` and bootstrap load install: the given texts
    /// with statistics reset to zero.
    pub open spec fn fresh(schema: Seq<char>, alert_config: Seq<char>) -> MetaView {
        MetaView { schema, alert_config, stats: Stats::zero() }
    }
}

impl View for LogStreamMetadata {
    type V = MetaView;

    open spec fn view(&self) -> MetaView {
        MetaView {
            schema: self.schema@,
            alert_config: self.alert_config@,
            stats: self.stats,
        }
    }
}

impl Default for LogStreamMetadata {
    /// A fresh record: both texts empty, statistics at zero.
    fn default() -> (m: Self)
        ensures
            m@ == MetaView::fresh(Seq::<char>::empty(), Seq::<char>::empty()),
    {
        LogStreamMetadata {
            schema: String::new(),
            alert_config: String::new(),
            stats: Stats { size: 0, compressed_size: 0, prev_compressed: 0 },
        }
    }
}

} // verus!
