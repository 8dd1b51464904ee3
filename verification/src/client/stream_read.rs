//! Handing out the data of a stream, closing it, and building one.

use roaring::RoaringBitmap;
use vstd::prelude::*;
use vstd::string::*;

use crate::client::input_stream;
use crate::client::input_stream::{
    CelebornInputStream, CelebornInputStreamConfig, ChunkRange, InputStreamState, PushFailedBatch,
};
use crate::error::{CelebornError, Result};
use crate::protocol::PartitionLocation;
use crate::string_map::StringMap;

verus! {

broadcast use vstd::std_specs::hash::group_hash_axioms;

/// What to do to read bytes.
pub enum ReadAction {
    /// Fill the buffer, then ask again
    Fill,
    /// All bytes were got that there are
    Return,
}

/// What to do to read one byte.
pub enum ByteAction {
    /// Fill the buffer, then ask again
    Fill,
    /// The byte, or `None` at the end of the stream
    Return(Option<u8>),
}

/// What to do to skip bytes.
pub enum SkipAction {
    /// Fill the buffer, then ask again; so many bytes were skipped
    Fill(usize),
    /// So many bytes were skipped in all
    Return(usize),
}

/// The smaller of two numbers.
pub open spec fn least(a: int, b: int) -> int {
    if a <= b {
        a
    } else {
        b
    }
}

impl CelebornInputStream {
    /// The state after `n` bytes were handed out.
    pub open spec fn handed_out(&self, n: int) -> InputStreamState {
        InputStreamState { position: (self.state.position + n) as usize, ..self.state }
    }

    /// A turn of reading up to `want` bytes, of which `out0` were read before it and `out1`
    /// after it. It ends when all are read, when the stream is closed, or when no more data
    /// could be got.
    pub open spec fn has_read(
        &self,
        after: &CelebornInputStream,
        out0: Seq<u8>,
        out1: Seq<u8>,
        want: usize,
        filled: Option<bool>,
        r: ReadAction,
    ) -> bool {
        if (filled is None && (want == 0 || self.state.closed)) || filled == Some(false) {
            &&& r is Return
            &&& out1 == out0
            &&& after.state == self.state
        } else {
            let ready = self.state.ready();
            let n = least(ready.len() as int, want - out0.len());
            &&& out1 == out0 + ready.take(n)
            &&& after.state == self.handed_out(n)
            &&& after.state.ready() == ready.skip(n)
            &&& if out1.len() == want {
                r is Return
            } else {
                r is Fill
            }
        }
    }

    /// A turn of skipping `n` bytes, of which `skipped` were skipped before it.
    pub open spec fn has_skipped(
        &self,
        after: &CelebornInputStream,
        skipped: usize,
        n: usize,
        filled: Option<bool>,
        r: SkipAction,
    ) -> bool {
        if (filled is None && (n == 0 || self.state.closed)) || filled == Some(false) {
            &&& r == SkipAction::Return(skipped)
            &&& after.state == self.state
        } else {
            let ready = self.state.ready();
            let k = least(ready.len() as int, n - skipped);
            &&& after.state == self.handed_out(k)
            &&& after.state.ready() == ready.skip(k)
            &&& if skipped + k == n {
                r == SkipAction::Return(n)
            } else {
                r == SkipAction::Fill((skipped + k) as usize)
            }
        }
    }

    /// Reads on into `out` until it holds `want` bytes. `filled` says how filling the
    /// buffer ended, where it was asked for; reading begins with `None`.
    pub fn read(&mut self, out: &mut Vec<u8>, want: usize, filled: Option<bool>) -> (r: ReadAction)
        requires
            old(self).wf(),
            old(out)@.len() <= want,
        ensures
            final(self).wf(),
            final(self).same_plan(old(self)),
            old(self).has_read(final(self), old(out)@, final(out)@, want, filled, r),
    {
        match filled {
            None => {
                if want == 0 || self.state.closed {
                    return ReadAction::Return;
                }
            },
            Some(false) => {
                return ReadAction::Return;
            },
            Some(true) => {},
        }
        let ghost ready = self.state.ready();
        let have: usize = if self.state.position < self.state.limit {
            self.state.limit - self.state.position
        } else {
            0
        };
        let missing: usize = want - out.len();
        let n: usize = if have <= missing { have } else { missing };
        let mut i: usize = 0;
        let start: usize = self.state.position;
        let ghost out0 = out@;
        while i < n
            invariant
                i <= n,
                n <= have,
                start == self.state.position,
                ready == self.state.ready(),
                self.state.limit <= self.state.raw_data_buf@.len(),
                have > 0 ==> start + have == self.state.limit,
                have == ready.len(),
                out@ == out0 + ready.take(i as int),
            decreases n - i,
        {
            out.push(self.state.raw_data_buf[start + i]);
            i += 1;
            assert(out@ =~= out0 + ready.take(i as int));
        }
        if n > 0 {
            self.state.position = start + n;
        }
        assert(self.state.ready() =~= ready.skip(n as int));
        if out.len() == want {
            ReadAction::Return
        } else {
            ReadAction::Fill
        }
    }

    /// Reads one byte. `filled` says how filling the buffer ended, where it was asked
    /// for; reading begins with `None`.
    pub fn read_byte(&mut self, filled: Option<bool>) -> (r: ByteAction)
        requires
            old(self).wf(),
        ensures
            final(self).wf(),
            final(self).same_plan(old(self)),
            if (filled is None && old(self).state.closed) || filled == Some(false) {
                &&& r == ByteAction::Return(None)
                &&& final(self).state == old(self).state
            } else if old(self).state.ready().len() > 0 {
                &&& r == ByteAction::Return(Some(old(self).state.ready()[0]))
                &&& final(self).state == old(self).handed_out(1)
                &&& final(self).state.ready() == old(self).state.ready().skip(1)
            } else {
                &&& final(self).state == old(self).state
                &&& if filled is None {
                    r is Fill
                } else {
                    r == ByteAction::Return(None)
                }
            },
    {
        match filled {
            None => {
                if self.state.closed {
                    return ByteAction::Return(None);
                }
            },
            Some(false) => {
                return ByteAction::Return(None);
            },
            Some(true) => {},
        }
        let ghost ready = self.state.ready();
        if self.state.position < self.state.limit {
            let b: u8 = self.state.raw_data_buf[self.state.position];
            self.state.position = self.state.position + 1;
            assert(self.state.ready() =~= ready.skip(1));
            return ByteAction::Return(Some(b));
        }
        match filled {
            None => ByteAction::Fill,
            Some(_) => ByteAction::Return(None),
        }
    }

    /// Skips on until `n` bytes are skipped, of which `skipped` are. `filled` says how
    /// filling the buffer ended, where it was asked for; skipping begins with `None`.
    pub fn skip(&mut self, skipped: usize, n: usize, filled: Option<bool>) -> (r: SkipAction)
        requires
            old(self).wf(),
            skipped <= n,
        ensures
            final(self).wf(),
            final(self).same_plan(old(self)),
            old(self).has_skipped(final(self), skipped, n, filled, r),
    {
        match filled {
            None => {
                if n == 0 || self.state.closed {
                    return SkipAction::Return(skipped);
                }
            },
            Some(false) => {
                return SkipAction::Return(skipped);
            },
            Some(true) => {},
        }
        let ghost ready = self.state.ready();
        let have: usize = if self.state.position < self.state.limit {
            self.state.limit - self.state.position
        } else {
            0
        };
        let missing: usize = n - skipped;
        let k: usize = if have <= missing { have } else { missing };
        if k > 0 {
            self.state.position = self.state.position + k;
        }
        assert(self.state.ready() =~= ready.skip(k as int));
        if skipped + k == n {
            SkipAction::Return(n)
        } else {
            SkipAction::Fill(skipped + k)
        }
    }

    /// Close the stream and release what it holds. Says whether a reader was open, which
    /// is then to be closed. Closing a closed stream does nothing.
    pub fn close(&mut self) -> (reader_open: bool)
        requires
            old(self).wf(),
        ensures
            final(self).wf(),
            final(self).same_plan(old(self)),
            final(self).state.closed,
            if old(self).state.closed {
                &&& *final(self) == *old(self)
                &&& !reader_open
            } else {
                &&& reader_open == (old(self).state.reader is Some)
                &&& final(self).state.reader is None
                &&& final(self).state.current_chunk is None
                &&& final(self).state.ready().len() == 0
                &&& final(self).state.batches_read@ == Set::<u64>::empty()
                &&& final(self).state.file_index == old(self).state.file_index
                &&& final(self).state.skip_count == old(self).state.skip_count
            },
    {
        if self.state.closed {
            return false;
        }
        let reader_open: bool = self.state.reader.is_some();
        self.state.current_chunk = None;
        self.state.reader = None;
        self.state.raw_data_buf.clear();
        self.state.position = 0;
        self.state.limit = 0;
        self.state.batches_read.clear();
        self.state.closed = true;
        reader_open
    }
}

/// Reading hands out the data in order and loses none: what was read and what is ready
/// after a turn is what was read and ready before it.
pub proof fn law_read_conserves(
    before: CelebornInputStream,
    after: CelebornInputStream,
    out0: Seq<u8>,
    out1: Seq<u8>,
    want: usize,
    filled: Option<bool>,
    r: ReadAction,
)
    requires
        out0.len() <= want,
        before.has_read(&after, out0, out1, want, filled, r),
    ensures
        out1 + after.state.ready() == out0 + before.state.ready(),
{
    let ready = before.state.ready();
    let n = least(ready.len() as int, want - out0.len());
    assert((out0 + ready.take(n)) + ready.skip(n) =~= out0 + ready);
}

/// Skipping passes over the bytes that reading would give: a turn of either leaves the stream
/// in the same state, and goes on or ends with the same number of bytes.
pub proof fn law_skip_passes_what_is_read(
    before: CelebornInputStream,
    read: CelebornInputStream,
    skipped: CelebornInputStream,
    out0: Seq<u8>,
    out1: Seq<u8>,
    want: usize,
    filled: Option<bool>,
    r: ReadAction,
    s: SkipAction,
)
    requires
        out0.len() <= want,
        before.has_read(&read, out0, out1, want, filled, r),
        before.has_skipped(&skipped, out0.len() as usize, want, filled, s),
    ensures
        read.state == skipped.state,
        s == match r {
            ReadAction::Fill => SkipAction::Fill(out1.len() as usize),
            ReadAction::Return => SkipAction::Return(out1.len() as usize),
        },
{
}

/// Bytes read ahead of what is asked for.
pub struct ReadAhead {
    pub buffer: Vec<u8>,
    pub position: usize,
}

impl ReadAhead {
    /// What was handed out lies in the buffer.
    pub open spec fn wf(&self) -> bool {
        self.position <= self.buffer@.len()
    }

    /// The bytes that were not handed out yet.
    pub open spec fn ready(&self) -> Seq<u8> {
        self.buffer@.skip(self.position as int)
    }

    /// Nothing read ahead.
    pub fn new() -> (r: Self)
        ensures
            r.wf(),
            r.ready().len() == 0,
    {
        ReadAhead { buffer: Vec::new(), position: 0 }
    }

    /// Whether all bytes were handed out.
    pub fn is_empty(&self) -> (r: bool)
        requires
            self.wf(),
        ensures
            r == (self.ready().len() == 0),
    {
        self.position >= self.buffer.len()
    }

    /// Takes the bytes of a read in.
    pub fn refill(&mut self, data: Vec<u8>)
        ensures
            final(self).wf(),
            final(self).ready() == data@,
    {
        assert(data@.skip(0) =~= data@);
        self.buffer = data;
        self.position = 0;
    }

    /// Hands out up to `room` bytes.
    pub fn serve(&mut self, room: usize) -> (r: Vec<u8>)
        requires
            old(self).wf(),
        ensures
            final(self).wf(),
            r@ == old(self).ready().take(least(old(self).ready().len() as int, room as int)),
            final(self).ready() == old(self).ready().skip(
                least(old(self).ready().len() as int, room as int),
            ),
    {
        let have: usize = self.buffer.len() - self.position;
        let n: usize = if have <= room { have } else { room };
        let part: &[u8] = vstd::slice::slice_subrange(
            self.buffer.as_slice(),
            self.position,
            self.position + n,
        );
        let r: Vec<u8> = vstd::slice::slice_to_vec(part);
        assert(r@ =~= self.ready().take(n as int));
        self.position = self.position + n;
        assert(self.ready() =~= old(self).ready().skip(n as int));
        r
    }
}

/// Builder for CelebornInputStream.
pub struct CelebornInputStreamBuilder {
    pub config: CelebornInputStreamConfig,
    pub shuffle_key: Option<String>,
    pub locations: Vec<PartitionLocation>,
    pub attempts: Vec<i32>,
    pub attempt_number: i32,
    pub start_map_index: i32,
    pub end_map_index: i32,
    pub failed_batches: StringMap<Vec<PushFailedBatch>>,
    pub partition_location_to_chunk_range: Option<StringMap<ChunkRange>>,
    pub map_id_bitmaps: StringMap<RoaringBitmap>,
}

impl Default for CelebornInputStreamBuilder {
    fn default() -> (r: Self)
        ensures
            r.wf(),
            r.is_blank(),
    {
        CelebornInputStreamBuilder::new()
    }
}

impl CelebornInputStreamBuilder {
    /// No location occurs twice in a map.
    pub open spec fn wf(&self) -> bool {
        &&& self.failed_batches.wf()
        &&& (self.partition_location_to_chunk_range matches Some(m) ==> m.wf())
        &&& self.map_id_bitmaps.wf()
    }

    /// Whether nothing has been set yet.
    pub open spec fn is_blank(&self) -> bool {
        &&& input_stream::has_fixed_settings(self.config)
        &&& self.config.fetch_max_retries_per_replica == 3
        &&& !self.config.push_replicate_enabled
        &&& self.shuffle_key is None
        &&& self.locations@.len() == 0
        &&& self.attempts@.len() == 0
        &&& self.attempt_number == 0
        &&& self.start_map_index == -1
        &&& self.end_map_index == i32::MAX
        &&& self.failed_batches.entries@.len() == 0
        &&& self.partition_location_to_chunk_range is None
        &&& self.map_id_bitmaps.entries@.len() == 0
    }

    /// Create a new builder with default configuration.
    pub fn new() -> (r: Self)
        ensures
            r.wf(),
            r.is_blank(),
    {
        CelebornInputStreamBuilder {
            config: CelebornInputStreamConfig::default(),
            shuffle_key: None,
            locations: Vec::new(),
            attempts: Vec::new(),
            attempt_number: 0,
            start_map_index: -1,
            end_map_index: i32::MAX,
            failed_batches: StringMap::new(),
            partition_location_to_chunk_range: None,
            map_id_bitmaps: StringMap::new(),
        }
    }

    /// Set the configuration.
    pub fn config(self, config: CelebornInputStreamConfig) -> (r: Self)
        ensures
            r == (CelebornInputStreamBuilder { config, ..self }),
    {
        let mut b: CelebornInputStreamBuilder = self;
        b.config = config;
        b
    }

    /// Set the shuffle key.
    pub fn shuffle_key(self, key: &str) -> (r: Self)
        ensures
            r.shuffle_key matches Some(k) && k@ == key@,
            r == (CelebornInputStreamBuilder { shuffle_key: r.shuffle_key, ..self }),
    {
        let mut b: CelebornInputStreamBuilder = self;
        b.shuffle_key = Some(key.to_owned());
        b
    }

    /// Set the partition locations.
    pub fn locations(self, locations: Vec<PartitionLocation>) -> (r: Self)
        ensures
            r == (CelebornInputStreamBuilder { locations, ..self }),
    {
        let mut b: CelebornInputStreamBuilder = self;
        b.locations = locations;
        b
    }

    /// Set the mapper attempts.
    pub fn attempts(self, attempts: Vec<i32>) -> (r: Self)
        ensures
            r == (CelebornInputStreamBuilder { attempts, ..self }),
    {
        let mut b: CelebornInputStreamBuilder = self;
        b.attempts = attempts;
        b
    }

    /// Set the attempt number.
    pub fn attempt_number(self, attempt_number: i32) -> (r: Self)
        ensures
            r == (CelebornInputStreamBuilder { attempt_number, ..self }),
    {
        let mut b: CelebornInputStreamBuilder = self;
        b.attempt_number = attempt_number;
        b
    }

    /// Set the start map index for range filter.
    pub fn start_map_index(self, index: i32) -> (r: Self)
        ensures
            r == (CelebornInputStreamBuilder { start_map_index: index, ..self }),
    {
        let mut b: CelebornInputStreamBuilder = self;
        b.start_map_index = index;
        b
    }

    /// Set the end map index for range filter.
    pub fn end_map_index(self, index: i32) -> (r: Self)
        ensures
            r == (CelebornInputStreamBuilder { end_map_index: index, ..self }),
    {
        let mut b: CelebornInputStreamBuilder = self;
        b.end_map_index = index;
        b
    }

    /// Set the failed batches for deduplication.
    pub fn failed_batches(self, batches: StringMap<Vec<PushFailedBatch>>) -> (r: Self)
        ensures
            r == (CelebornInputStreamBuilder { failed_batches: batches, ..self }),
    {
        let mut b: CelebornInputStreamBuilder = self;
        b.failed_batches = batches;
        b
    }

    /// Set the partition location to chunk range mapping.
    pub fn partition_location_to_chunk_range(self, map: StringMap<ChunkRange>) -> (r: Self)
        ensures
            r == (CelebornInputStreamBuilder {
                partition_location_to_chunk_range: Some(map),
                ..self
            }),
    {
        let mut b: CelebornInputStreamBuilder = self;
        b.partition_location_to_chunk_range = Some(map);
        b
    }

    /// Set the map ID bitmaps for range filtering.
    pub fn map_id_bitmaps(self, bitmaps: StringMap<RoaringBitmap>) -> (r: Self)
        ensures
            r == (CelebornInputStreamBuilder { map_id_bitmaps: bitmaps, ..self }),
    {
        let mut b: CelebornInputStreamBuilder = self;
        b.map_id_bitmaps = bitmaps;
        b
    }

    /// Enable range read filter.
    pub fn range_read_filter_enabled(self, enabled: bool) -> (r: Self)
        ensures
            r == (CelebornInputStreamBuilder {
                config: CelebornInputStreamConfig {
                    range_read_filter_enabled: enabled,
                    ..self.config
                },
                ..self
            }),
    {
        let mut b: CelebornInputStreamBuilder = self;
        b.config.range_read_filter_enabled = enabled;
        b
    }

    /// Enable split skew partition without map range.
    pub fn split_skew_partition_without_map_range(self, enabled: bool) -> (r: Self)
        ensures
            r == (CelebornInputStreamBuilder {
                config: CelebornInputStreamConfig {
                    split_skew_partition_without_map_range: enabled,
                    ..self.config
                },
                ..self
            }),
    {
        let mut b: CelebornInputStreamBuilder = self;
        b.config.split_skew_partition_without_map_range = enabled;
        b
    }

    /// Build the CelebornInputStream. The shuffle key must have been set.
    pub fn build(self) -> (r: Result<CelebornInputStream>)
        requires
            self.wf(),
            input_stream::max_retry_of(self.config) <= u32::MAX,
        ensures
            match self.shuffle_key {
                None => r matches Err(CelebornError::InvalidConfig(m)) && m@
                    == "shuffle_key is required"@,
                Some(key) => {
                    &&& r matches Ok(s)
                    &&& s.wf()
                    &&& s.is_fresh()
                    &&& s.shuffle_key == key
                    &&& s.config == self.config
                    &&& s.attempts == self.attempts
                    &&& s.attempt_number == self.attempt_number
                    &&& s.start_map_index == self.start_map_index
                    &&& s.end_map_index == self.end_map_index
                    &&& s.failed_batches == self.failed_batches
                    &&& s.partition_location_to_chunk_range == self.partition_location_to_chunk_range
                    &&& s.map_id_bitmaps == self.map_id_bitmaps
                    &&& s.locations@.to_multiset() == self.locations@.to_multiset()
                    &&& s.fetch_chunk_max_retry == input_stream::max_retry_of(self.config)
                },
            },
    {
        let shuffle_key: String = match self.shuffle_key {
            Some(k) => k,
            None => {
                return Err(CelebornError::InvalidConfig("shuffle_key is required".to_owned()));
            },
        };
        Ok(
            CelebornInputStream::with_options(
                self.config,
                shuffle_key,
                self.locations,
                self.attempts,
                self.attempt_number,
                self.start_map_index,
                self.end_map_index,
                self.failed_batches,
                self.partition_location_to_chunk_range,
                self.map_id_bitmaps,
            ),
        )
    }
}

} // verus!
