//! What an input stream does next: which location it reads, when it tries again and
//! where, and when it goes on to the next chunk or reader.

use bytes::Bytes;
use vstd::prelude::*;
use vstd::string::*;

use crate::client::input_stream;
use crate::client::input_stream::{CelebornInputStream, ExcludedWorkers, InputStreamState};
use crate::error::CelebornError;
use crate::protocol;
use crate::protocol::{LocationModel, PartitionLocation};
use crate::text;

verus! {

/// An attempt to open a reader.
pub struct OpenAttempt {
    /// Where the reader is to be opened
    pub location: PartitionLocation,
    /// Why the last try failed
    pub last_error: Option<CelebornError>,
}

/// What to do about an attempt.
pub enum OpenTurn {
    /// Open a reader at the location of the attempt
    Open,
    /// Wait so many milliseconds, then ask again
    Wait(u64),
    /// Give up
    GiveUp(CelebornError),
}

/// What to do to get a chunk.
pub enum FetchTurn {
    /// Ask the reader
    AskReader,
    /// There is none to get
    NoChunk,
    /// Give up
    Fail(CelebornError),
}

/// How the reader answered.
pub enum FetchReply {
    /// It has no further chunk
    Exhausted,
    /// It gave a chunk, or nothing
    Chunk(Option<Bytes>),
    /// It failed
    Failed(CelebornError),
}

/// What follows from the answer of the reader.
pub enum FetchStep {
    /// A chunk was got
    Chunk(Bytes),
    /// There is none to get
    NoChunk,
    /// Close the reader and give up
    CloseAndFail(CelebornError),
    /// Close the reader, wait so many milliseconds, and open one at the location
    CloseAndReopen { wait_ms: u64, location: PartitionLocation },
}

/// What happened on the way to the next reader.
pub enum ReaderEvent {
    /// The way begins
    Advance,
    /// A reader was opened
    Opened(PartitionLocation),
    /// Whether the reader has data
    HasData(bool),
    /// A chunk was got, or none
    Chunk(Option<Bytes>),
}

/// What to do on the way to the next reader.
pub enum ReaderAction {
    /// Close the reader that is open, and open one at the location
    OpenAt(PartitionLocation),
    /// Ask the reader whether it has data
    AskHasData,
    /// Get a chunk
    FetchChunk,
    /// The way ends; close the reader where the stream has none
    Finished,
}

/// What happened on the way to the next chunk.
pub enum ChunkEvent {
    /// The way begins
    Start,
    /// Whether the reader has data
    HasData(bool),
    /// A chunk was got, or none
    Chunk(Option<Bytes>),
    /// The stream went on to the next reader
    ReadersMoved,
}

/// What to do on the way to the next chunk.
pub enum ChunkAction {
    /// Ask the reader whether it has data
    AskHasData,
    /// Get a chunk
    FetchChunk,
    /// Go on to the next reader, up to a chunk
    NextReader,
    /// The way ends; whether the stream goes on. Close the reader where the stream has none
    Moved(bool),
}

/// The text for a worker that is excluded.
pub open spec fn excluded_text(l: LocationModel) -> Seq<char> {
    "Fetch data from excluded worker: "@ + input_stream::fetch_key(l)
}

/// The text for a reader that could not be opened.
pub open spec fn not_opened_text(max: u32, l: LocationModel) -> Seq<char> {
    "createPartitionReader failed after "@ + text::nat_text(max as nat) + " retries for "@
        + input_stream::fetch_key(l)
}

/// The text for a chunk that a location did not give.
pub open spec fn no_chunk_text(tries: u32, l: LocationModel) -> Seq<char> {
    "Fetch chunk failed after "@ + text::nat_text(tries as nat) + " retries for "@
        + input_stream::fetch_key(l)
}

/// The text for a chunk that was not got.
pub open spec fn tries_text(max: u32) -> Seq<char> {
    "Fetch chunk failed after "@ + text::nat_text(max as nat) + " retries"@
}

fn excluded_error(location: &PartitionLocation) -> (e: CelebornError)
    ensures
        e matches CelebornError::FetchFailed(m) && m@ == excluded_text(location.model()),
{
    CelebornError::FetchFailed(
        text::join("Fetch data from excluded worker: ", location.fetch_address().as_str()),
    )
}

/// Whether an error makes its worker suspect.
pub open spec fn critical(e: CelebornError) -> bool {
    e is Connection || e is Timeout || e is FetchFailed
}

impl CelebornInputStream {
    /// Whether a location holds nothing to read for this stream.
    pub open spec fn skips(&self, l: LocationModel) -> bool {
        let id = protocol::unique_id_text(l.id, l.epoch);
        if self.config.split_skew_partition_without_map_range {
            self.partition_location_to_chunk_range matches Some(m) && !m@.dom().contains(id)
        } else if !self.config.range_read_filter_enabled || self.end_map_index == i32::MAX {
            false
        } else if self.map_id_bitmaps@.dom().contains(id) {
            !input_stream::range_meets(
                self.map_id_bitmaps@[id],
                self.start_map_index,
                self.end_map_index,
            )
        } else {
            match l.peer {
                Some(p) => {
                    let peer_id = protocol::unique_id_text(p.id, p.epoch);
                    self.map_id_bitmaps@.dom().contains(peer_id) && !input_stream::range_meets(
                        self.map_id_bitmaps@[peer_id],
                        self.start_map_index,
                        self.end_map_index,
                    )
                },
                None => false,
            }
        }
    }

    /// The first location from `i` on that is not skipped, or the number of locations.
    pub open spec fn readable_from(&self, i: int) -> int
        decreases self.locations@.len() - i,
    {
        if i < 0 || i >= self.locations@.len() {
            self.locations@.len() as int
        } else if self.skips(self.locations@[i].model()) {
            self.readable_from(i + 1)
        } else {
            i
        }
    }

    /// Whether the bitmap holds no map id of the range.
    fn range_missing(&self, bitmap: &roaring::RoaringBitmap) -> (r: bool)
        ensures
            r == !input_stream::range_meets(*bitmap, self.start_map_index, self.end_map_index),
    {
        let mut i: i32 = if self.start_map_index < 0 { 0 } else { self.start_map_index };
        while i < self.end_map_index
            invariant
                0 <= i,
                self.start_map_index <= i,
                forall|j: int|
                    #![trigger input_stream::members(*bitmap).contains(j as u32)]
                    self.start_map_index <= j < i && 0 <= j ==> !input_stream::members(
                        *bitmap,
                    ).contains(j as u32),
            decreases self.end_map_index - i,
        {
            if input_stream::bitmap_contains(bitmap, i as u32) {
                assert(input_stream::members(*bitmap).contains(i as int as u32));
                return false;
            }
            i += 1;
        }
        true
    }

    /// Check if a location should be skipped based on range filter.
    pub fn should_skip_location(&self, location: &PartitionLocation) -> (r: bool)
        requires
            self.wf(),
        ensures
            r == self.skips(location.model()),
    {
        proof {
            reveal_with_fuel(PartitionLocation::model, 2);
        }
        let unique_id: String = location.unique_id();
        if self.config.split_skew_partition_without_map_range {
            return match &self.partition_location_to_chunk_range {
                Some(map) => !map.contains_key(unique_id.as_str()),
                None => false,
            };
        }
        if !self.config.range_read_filter_enabled {
            return false;
        }
        if self.end_map_index == i32::MAX {
            return false;
        }
        match self.map_id_bitmaps.get(unique_id.as_str()) {
            Some(b) => self.range_missing(b),
            None => match &location.peer {
                Some(peer) => match self.map_id_bitmaps.get(peer.unique_id().as_str()) {
                    Some(b) => self.range_missing(b),
                    None => false,
                },
                None => false,
            },
        }
    }

    /// The next location that is to be read, from where the stream stands.
    pub open spec fn moved_on(
        &self,
        after: &CelebornInputStream,
        r: Option<PartitionLocation>,
    ) -> bool {
        let from = self.state.file_index;
        let k = self.readable_from(from as int);
        let found = k < self.locations@.len();
        &&& from <= k
        &&& after.state == (InputStreamState {
            file_index: k as usize,
            skip_count: (self.state.skip_count + (k - from)) as usize,
            fetch_chunk_retry_cnt: if found {
                0
            } else {
                self.state.fetch_chunk_retry_cnt
            },
            ..self.state
        })
        &&& if found {
            r matches Some(l) && l.model() == self.locations@[k].model()
        } else {
            r is None
        }
    }

    /// Get the next readable location. Locations that are skipped on the way are counted;
    /// a location that is found starts with fresh retries.
    pub fn next_readable_location(&mut self) -> (r: Option<PartitionLocation>)
        requires
            old(self).wf(),
        ensures
            final(self).wf(),
            final(self).same_plan(old(self)),
            old(self).moved_on(final(self), r),
    {
        let n: usize = self.locations.len();
        let ghost start = *self;
        while self.state.file_index < n
            invariant
                n == self.locations@.len(),
                self.wf(),
                self.same_plan(&start),
                start.wf(),
                start == *old(self),
                start.state.file_index <= self.state.file_index,
                self.state == (InputStreamState {
                    file_index: self.state.file_index,
                    skip_count: (start.state.skip_count + (self.state.file_index
                        - start.state.file_index)) as usize,
                    ..start.state
                }),
                start.readable_from(self.state.file_index as int) == start.readable_from(
                    start.state.file_index as int,
                ),
            decreases n - self.state.file_index,
        {
            let i: usize = self.state.file_index;
            let skip: bool = self.should_skip_location(&self.locations[i]);
            assert(skip == start.skips(start.locations@[i as int].model()));
            if !skip {
                let found: PartitionLocation = self.locations[i].clone();
                self.state.fetch_chunk_retry_cnt = 0;
                return Some(found);
            }
            self.state.skip_count = self.state.skip_count + 1;
            self.state.file_index = i + 1;
        }
        None
    }

    /// Check if an error is critical (should trigger worker exclusion).
    pub fn is_critical_error(&self, error: &CelebornError) -> (r: bool)
        ensures
            r == critical(*error),
    {
        match error {
            CelebornError::Connection(_) => true,
            CelebornError::Timeout(_) => true,
            CelebornError::FetchFailed(_) => true,
            _ => false,
        }
    }

    /// Whether a failure at a location leads to the exclusion of its worker.
    pub open spec fn excludes_on(&self, e: CelebornError) -> bool {
        self.config.push_replicate_enabled && self.config.fetch_exclude_worker_on_failure && critical(e)
    }

    /// The excluded workers after a failure at `l`.
    pub open spec fn excluded_after(
        &self,
        workers: Map<Seq<char>, u64>,
        l: LocationModel,
        e: CelebornError,
        now: u64,
    ) -> Map<Seq<char>, u64> {
        if self.excludes_on(e) {
            workers.insert(input_stream::fetch_key(l), now)
        } else {
            workers
        }
    }

    /// Exclude a failed location.
    pub fn exclude_failed_location(
        &self,
        excluded: &mut ExcludedWorkers,
        location: &PartitionLocation,
        error: &CelebornError,
        now: u64,
    )
        ensures
            final(excluded).workers@ == self.excluded_after(
                old(excluded).workers@,
                location.model(),
                *error,
                now,
            ),
    {
        if self.config.push_replicate_enabled && self.config.fetch_exclude_worker_on_failure {
            if self.is_critical_error(error) {
                excluded.exclude(location, now);
            }
        }
    }

    /// Where an attempt goes on after a failure: at the peer, unless the stream reads a
    /// skewed partition. An attempt that has used its peer stays where it is.
    pub open spec fn next_try(&self, l: PartitionLocation) -> PartitionLocation {
        if l.peer is Some && !self.config.split_skew_partition_without_map_range {
            *(l.peer->0)
        } else {
            PartitionLocation { peer: None, ..l }
        }
    }

    /// How long to wait before the next try, when `tries` have failed: not at all for
    /// every other switch to a peer.
    pub open spec fn next_wait(&self, has_peer: bool, tries: int) -> u64 {
        if has_peer && !self.config.split_skew_partition_without_map_range && tries % 2 != 0 {
            0
        } else {
            self.config.retry_wait_ms
        }
    }

    /// Counts a failed try and moves the attempt on.
    fn after_open_failure(&mut self, attempt: &mut OpenAttempt) -> (wait: u64)
        requires
            old(self).wf(),
            old(self).state.fetch_chunk_retry_cnt < old(self).fetch_chunk_max_retry,
        ensures
            final(self).wf(),
            final(self).same_plan(old(self)),
            final(self).state == (InputStreamState {
                fetch_chunk_retry_cnt: (old(self).state.fetch_chunk_retry_cnt + 1) as u32,
                ..old(self).state
            }),
            final(attempt).location == old(self).next_try(old(attempt).location),
            final(attempt).last_error == old(attempt).last_error,
            wait == old(self).next_wait(
                old(attempt).location.peer is Some,
                old(self).state.fetch_chunk_retry_cnt + 1,
            ),
    {
        self.state.fetch_chunk_retry_cnt = self.state.fetch_chunk_retry_cnt + 1;
        let peer: Option<Box<PartitionLocation>> = attempt.location.peer.take();
        match peer {
            Some(p) => {
                if !self.config.split_skew_partition_without_map_range {
                    attempt.location = *p;
                    if self.state.fetch_chunk_retry_cnt % 2 == 0 {
                        self.config.retry_wait_ms
                    } else {
                        0
                    }
                } else {
                    self.config.retry_wait_ms
                }
            },
            None => self.config.retry_wait_ms,
        }
    }

    /// How an attempt to open a location goes on: it is given up once the retries are used up, waits
    /// where the worker is excluded, and is made else.
    pub open spec fn open_turned(
        &self,
        after: &CelebornInputStream,
        excluded: ExcludedWorkers,
        excluded_after: ExcludedWorkers,
        attempt: OpenAttempt,
        attempt_after: OpenAttempt,
        now: u64,
        r: OpenTurn,
    ) -> bool {
        let l = attempt.location;
        let tries = self.state.fetch_chunk_retry_cnt;
        let shut = excluded.excludes(
            l.model(),
            self.config.fetch_excluded_worker_expire_timeout_ms,
            now,
        );
        if tries >= self.fetch_chunk_max_retry {
            &&& r matches OpenTurn::GiveUp(e) && match attempt.last_error {
                Some(last) => e == last,
                None => e matches CelebornError::FetchFailed(m) && m@ == not_opened_text(
                    self.fetch_chunk_max_retry,
                    l.model(),
                ),
            }
            &&& after.state == self.state
            &&& excluded_after.workers@ == excluded.workers@
            &&& attempt_after.location == l
        } else if shut {
            &&& r == OpenTurn::Wait(self.next_wait(l.peer is Some, tries + 1))
            &&& after.state == (InputStreamState {
                fetch_chunk_retry_cnt: (tries + 1) as u32,
                ..self.state
            })
            &&& excluded_after.workers@ == excluded.workers@
            &&& attempt_after.location == self.next_try(l)
            &&& attempt_after.last_error matches Some(CelebornError::FetchFailed(m)) && m@
                == excluded_text(l.model())
        } else {
            &&& r is Open
            &&& after.state == self.state
            &&& excluded_after.workers@ == excluded.workers@.remove(
                input_stream::fetch_key(l.model()),
            )
            &&& attempt_after == attempt
        }
    }

    /// What to do about an attempt to open a reader. It is given up when the retries are
    /// used up, with the last error; a try at an excluded worker counts as failed.
    pub fn open_turn(
        &mut self,
        excluded: &mut ExcludedWorkers,
        attempt: &mut OpenAttempt,
        now: u64,
    ) -> (r: OpenTurn)
        requires
            old(self).wf(),
        ensures
            final(self).wf(),
            final(self).same_plan(old(self)),
            old(self).open_turned(
                final(self),
                *old(excluded),
                *final(excluded),
                *old(attempt),
                *final(attempt),
                now,
                r,
            ),
    {
        if self.state.fetch_chunk_retry_cnt >= self.fetch_chunk_max_retry {
            return match attempt.last_error.take() {
                Some(e) => OpenTurn::GiveUp(e),
                None => {
                    let mut m: String = String::from_str("createPartitionReader failed after ");
                    text::append_u64(&mut m, self.fetch_chunk_max_retry as u64);
                    m.append(" retries for ");
                    m.append(attempt.location.fetch_address().as_str());
                    OpenTurn::GiveUp(CelebornError::FetchFailed(m))
                },
            };
        }
        if excluded.is_excluded(
            &attempt.location,
            self.config.fetch_excluded_worker_expire_timeout_ms,
            now,
        ) {
            attempt.last_error = Some(excluded_error(&attempt.location));
            let wait: u64 = self.after_open_failure(attempt);
            return OpenTurn::Wait(wait);
        }
        OpenTurn::Open
    }

    /// How an opening that failed is taken: the worker may be excluded, and the next attempt is made
    /// elsewhere or after a wait.
    pub open spec fn open_taken_back(
        &self,
        after: &CelebornInputStream,
        excluded: ExcludedWorkers,
        excluded_after: ExcludedWorkers,
        attempt: OpenAttempt,
        attempt_after: OpenAttempt,
        error: CelebornError,
        now: u64,
        wait: u64,
    ) -> bool {
        &&& after.state == (InputStreamState {
            fetch_chunk_retry_cnt: (self.state.fetch_chunk_retry_cnt + 1) as u32,
            ..self.state
        })
        &&& excluded_after.workers@ == self.excluded_after(
            excluded.workers@,
            attempt.location.model(),
            error,
            now,
        )
        &&& attempt_after.location == self.next_try(attempt.location)
        &&& attempt_after.last_error == Some(error)
        &&& wait == self.next_wait(
            attempt.location.peer is Some,
            self.state.fetch_chunk_retry_cnt + 1,
        )
    }

    /// Takes note that a reader could not be opened, and says how many milliseconds to
    /// wait before the attempt goes on.
    pub fn open_failed(
        &mut self,
        excluded: &mut ExcludedWorkers,
        attempt: &mut OpenAttempt,
        error: CelebornError,
        now: u64,
    ) -> (wait: u64)
        requires
            old(self).wf(),
            old(self).state.fetch_chunk_retry_cnt < old(self).fetch_chunk_max_retry,
        ensures
            final(self).wf(),
            final(self).same_plan(old(self)),
            old(self).open_taken_back(
                final(self),
                *old(excluded),
                *final(excluded),
                *old(attempt),
                *final(attempt),
                error,
                now,
                wait,
            ),
    {
        self.exclude_failed_location(excluded, &attempt.location, &error, now);
        attempt.last_error = Some(error);
        self.after_open_failure(attempt)
    }

    /// Whether a chunk is fetched: not once the retries are used up, without a reader, or where the
    /// worker is excluded.
    pub open spec fn fetch_turned(
        &self,
        after: &CelebornInputStream,
        excluded: ExcludedWorkers,
        excluded_after: ExcludedWorkers,
        now: u64,
        r: FetchTurn,
    ) -> bool {
        &&& *after == *self
        &&& ({
            let expire = self.config.fetch_excluded_worker_expire_timeout_ms;
            if self.state.fetch_chunk_retry_cnt >= self.fetch_chunk_max_retry {
                &&& r matches FetchTurn::Fail(CelebornError::FetchFailed(m)) && m@ == tries_text(
                    self.fetch_chunk_max_retry,
                )
                &&& excluded_after.workers@ == excluded.workers@
            } else {
                match self.state.reader {
                    None => r is NoChunk && excluded_after.workers@ == excluded.workers@,
                    Some(l) => if excluded.excludes(l.model(), expire, now) {
                        &&& r matches FetchTurn::Fail(CelebornError::FetchFailed(m)) && m@
                            == excluded_text(l.model())
                        &&& excluded_after.workers@ == excluded.workers@
                    } else {
                        &&& r is AskReader
                        &&& excluded_after.workers@ == excluded.workers@.remove(
                            input_stream::fetch_key(l.model()),
                        )
                    },
                }
            }
        })
    }

    /// What to do to get the next chunk from the current reader.
    pub fn fetch_turn(&mut self, excluded: &mut ExcludedWorkers, now: u64) -> (r: FetchTurn)
        requires
            old(self).wf(),
        ensures
            old(self).fetch_turned(final(self), *old(excluded), *final(excluded), now, r),
    {
        if self.state.fetch_chunk_retry_cnt >= self.fetch_chunk_max_retry {
            let mut m: String = String::from_str("Fetch chunk failed after ");
            text::append_u64(&mut m, self.fetch_chunk_max_retry as u64);
            m.append(" retries");
            return FetchTurn::Fail(CelebornError::FetchFailed(m));
        }
        match &self.state.reader {
            None => FetchTurn::NoChunk,
            Some(location) => {
                if excluded.is_excluded(
                    location,
                    self.config.fetch_excluded_worker_expire_timeout_ms,
                    now,
                ) {
                    FetchTurn::Fail(excluded_error(location))
                } else {
                    FetchTurn::AskReader
                }
            },
        }
    }

    /// Where a chunk is tried again after a failure at `l`.
    pub open spec fn retry_at(&self, l: LocationModel) -> LocationModel {
        if l.peer is Some && !self.config.split_skew_partition_without_map_range {
            *(l.peer->0)
        } else {
            l
        }
    }

    /// How a fetch that failed is taken: the worker may be excluded, and the reader is closed;
    /// it is opened again, at the peer if there is one, until the retries are used up.
    pub open spec fn fetch_failed(
        &self,
        after: &CelebornInputStream,
        workers: Map<Seq<char>, u64>,
        workers_after: Map<Seq<char>, u64>,
        e: CelebornError,
        now: u64,
        r: FetchStep,
    ) -> bool {
        let l = self.state.reader->0.model();
        let tries = (self.state.fetch_chunk_retry_cnt + 1) as u32;
        &&& after.state == (InputStreamState {
            fetch_chunk_retry_cnt: tries,
            reader: None,
            ..self.state
        })
        &&& workers_after == self.excluded_after(workers, l, e, now)
        &&& if tries >= self.fetch_chunk_max_retry {
            r matches FetchStep::CloseAndFail(CelebornError::FetchFailed(m)) && m@ == no_chunk_text(
                tries,
                l,
            )
        } else {
            r matches FetchStep::CloseAndReopen { wait_ms, location } && wait_ms == self.next_wait(
                l.peer is Some,
                tries as int,
            ) && location.model() == self.retry_at(l)
        }
    }

    /// How a reader is moved on.
    pub open spec fn reader_turned(
        &self,
        after: &CelebornInputStream,
        fetch_chunk: bool,
        event: ReaderEvent,
        r: ReaderAction,
    ) -> bool {
        match event {
            ReaderEvent::Advance => self.advanced(after, r),
            ReaderEvent::Opened(l) => {
                &&& r is AskHasData
                &&& after.state == (InputStreamState {
                    reader: Some(l),
                    file_index: if self.state.file_index < self.locations@.len() {
                        (self.state.file_index + 1) as usize
                    } else {
                        self.state.file_index
                    },
                    ..self.state
                })
            },
            ReaderEvent::HasData(true) => {
                &&& after.state == self.state
                &&& if fetch_chunk {
                    r is FetchChunk
                } else {
                    r is Finished
                }
            },
            ReaderEvent::HasData(false) => self.advanced(after, r),
            ReaderEvent::Chunk(Some(c)) => {
                &&& r is Finished
                &&& after.state == (InputStreamState { current_chunk: Some(c), ..self.state })
            },
            ReaderEvent::Chunk(None) => self.advanced(after, r),
        }
    }

    /// How the next chunk is come by.
    pub open spec fn chunk_turned(
        &self,
        after: &CelebornInputStream,
        event: ChunkEvent,
        r: ChunkAction,
    ) -> bool {
        match event {
            ChunkEvent::Start => {
                &&& after.state.current_chunk is None
                &&& if self.state.reader is Some {
                    r is AskHasData && after.state == (InputStreamState {
                        current_chunk: None,
                        ..self.state
                    })
                } else {
                    self.left_reader(after, r)
                }
            },
            ChunkEvent::HasData(true) => r is FetchChunk && after.state == self.state,
            ChunkEvent::HasData(false) => self.left_reader(after, r) && after.state.current_chunk
                == self.state.current_chunk,
            ChunkEvent::Chunk(Some(c)) => r == ChunkAction::Moved(true) && after.state == (
            InputStreamState { current_chunk: Some(c), ..self.state }),
            ChunkEvent::Chunk(None) => self.left_reader(after, r) && after.state.current_chunk
                == self.state.current_chunk,
            ChunkEvent::ReadersMoved => r == ChunkAction::Moved(self.state.reader is Some)
                && after.state == self.state,
        }
    }

    /// What follows from the answer of the reader. After a failure the reader is given
    /// up, and the chunk is tried again at the peer or at the same location, as long as
    /// retries are left.
    pub fn fetch_reply(
        &mut self,
        excluded: &mut ExcludedWorkers,
        reply: FetchReply,
        now: u64,
    ) -> (r: FetchStep)
        requires
            old(self).wf(),
            old(self).state.reader is Some,
            old(self).state.fetch_chunk_retry_cnt < old(self).fetch_chunk_max_retry,
        ensures
            final(self).wf(),
            final(self).same_plan(old(self)),
            match reply {
                FetchReply::Exhausted => r is NoChunk && *final(self) == *old(self)
                    && final(excluded).workers@ == old(excluded).workers@,
                FetchReply::Chunk(None) => r is NoChunk && *final(self) == *old(self)
                    && final(excluded).workers@ == old(excluded).workers@,
                FetchReply::Chunk(Some(c)) => r == FetchStep::Chunk(c) && *final(self) == *old(self)
                    && final(excluded).workers@ == old(excluded).workers@,
                FetchReply::Failed(e) => {
                    let l = old(self).state.reader->0.model();
                    &&& old(self).fetch_failed(
                        final(self),
                        old(excluded).workers@,
                        final(excluded).workers@,
                        e,
                        now,
                        r,
                    )
                    &&& (old(self).state.fetch_chunk_retry_cnt + 1
                        < old(self).fetch_chunk_max_retry && l.peer is Some
                        && !old(self).config.split_skew_partition_without_map_range ==> r is CloseAndReopen
                        && r->location.model() == *(l.peer->0))
                },
            },
    {
        let error: CelebornError = match reply {
            FetchReply::Exhausted => {
                return FetchStep::NoChunk;
            },
            FetchReply::Chunk(None) => {
                return FetchStep::NoChunk;
            },
            FetchReply::Chunk(Some(c)) => {
                return FetchStep::Chunk(c);
            },
            FetchReply::Failed(e) => e,
        };
        let location: PartitionLocation = match self.state.reader.take() {
            Some(l) => l,
            None => {
                return FetchStep::NoChunk;
            },
        };
        self.exclude_failed_location(excluded, &location, &error, now);
        let tries: u32 = self.state.fetch_chunk_retry_cnt + 1;
        self.state.fetch_chunk_retry_cnt = tries;
        if tries >= self.fetch_chunk_max_retry {
            let mut m: String = String::from_str("Fetch chunk failed after ");
            text::append_u64(&mut m, tries as u64);
            m.append(" retries for ");
            m.append(location.fetch_address().as_str());
            return FetchStep::CloseAndFail(CelebornError::FetchFailed(m));
        }
        match &location.peer {
            Some(peer) => {
                if !self.config.split_skew_partition_without_map_range {
                    let wait_ms: u64 = if tries % 2 == 0 { self.config.retry_wait_ms } else { 0 };
                    FetchStep::CloseAndReopen { wait_ms, location: (&**peer).clone() }
                } else {
                    FetchStep::CloseAndReopen { wait_ms: self.config.retry_wait_ms, location }
                }
            },
            None => FetchStep::CloseAndReopen { wait_ms: self.config.retry_wait_ms, location },
        }
    }

    /// Takes note that a reader was opened in place of a failed one.
    pub fn reader_reopened(&mut self, location: PartitionLocation)
        requires
            old(self).wf(),
        ensures
            final(self).wf(),
            final(self).same_plan(old(self)),
            final(self).state == (InputStreamState { reader: Some(location), ..old(self).state }),
    {
        self.state.reader = Some(location);
    }

    /// The effect of going on to the next location: the reader is given up, and the next
    /// location that is not skipped is to be opened, where there is one.
    pub open spec fn advanced(&self, after: &CelebornInputStream, r: ReaderAction) -> bool {
        let from = self.state.file_index;
        let k = self.readable_from(from as int);
        let found = k < self.locations@.len();
        &&& after.state == (InputStreamState {
            reader: None,
            file_index: k as usize,
            skip_count: (self.state.skip_count + (k - from)) as usize,
            fetch_chunk_retry_cnt: if found {
                0
            } else {
                self.state.fetch_chunk_retry_cnt
            },
            ..self.state
        })
        &&& if found {
            r matches ReaderAction::OpenAt(l) && l.model() == self.locations@[k].model()
        } else {
            r is Finished
        }
    }

    fn advance(&mut self) -> (r: ReaderAction)
        requires
            old(self).wf(),
        ensures
            final(self).wf(),
            final(self).same_plan(old(self)),
            old(self).advanced(final(self), r),
    {
        let ghost start = *self;
        self.state.reader = None;
        let ghost mid = *self;
        proof {
            start.lemma_readable_same(&mid, start.state.file_index as int);
        }
        match self.next_readable_location() {
            Some(l) => ReaderAction::OpenAt(l),
            None => ReaderAction::Finished,
        }
    }

    /// Which locations are skipped does not depend on the state.
    proof fn lemma_readable_same(&self, other: &CelebornInputStream, i: int)
        requires
            self.same_plan(other),
        ensures
            self.readable_from(i) == other.readable_from(i),
        decreases self.locations@.len() - i,
    {
        if 0 <= i < self.locations@.len() {
            let l = self.locations@[i].model();
            assert(self.skips(l) == other.skips(l));
            if self.skips(l) {
                self.lemma_readable_same(other, i + 1);
            }
        }
    }

    /// What to do on the way to the next reader with data; with `fetch_chunk` the way
    /// goes on up to a chunk.
    pub fn reader_turn(&mut self, fetch_chunk: bool, event: ReaderEvent) -> (r: ReaderAction)
        requires
            old(self).wf(),
        ensures
            final(self).wf(),
            final(self).same_plan(old(self)),
            old(self).reader_turned(final(self), fetch_chunk, event, r),
    {
        match event {
            ReaderEvent::Advance => self.advance(),
            ReaderEvent::Opened(l) => {
                self.state.reader = Some(l);
                if self.state.file_index < self.locations.len() {
                    self.state.file_index = self.state.file_index + 1;
                }
                ReaderAction::AskHasData
            },
            ReaderEvent::HasData(true) => {
                if fetch_chunk {
                    ReaderAction::FetchChunk
                } else {
                    ReaderAction::Finished
                }
            },
            ReaderEvent::HasData(false) => self.advance(),
            ReaderEvent::Chunk(Some(c)) => {
                self.state.current_chunk = Some(c);
                ReaderAction::Finished
            },
            ReaderEvent::Chunk(None) => self.advance(),
        }
    }

    /// The effect of leaving the current reader: the stream goes on to the next reader
    /// where locations are left, else it ends.
    pub open spec fn left_reader(&self, after: &CelebornInputStream, r: ChunkAction) -> bool {
        if self.state.file_index < self.locations@.len() {
            r is NextReader && after.state == (InputStreamState {
                current_chunk: after.state.current_chunk,
                ..self.state
            })
        } else {
            r == ChunkAction::Moved(false) && after.state == (InputStreamState {
                reader: None,
                current_chunk: after.state.current_chunk,
                ..self.state
            })
        }
    }

    fn leave_reader(&mut self) -> (r: ChunkAction)
        requires
            old(self).wf(),
        ensures
            final(self).wf(),
            final(self).same_plan(old(self)),
            old(self).left_reader(final(self), r),
            final(self).state.current_chunk == old(self).state.current_chunk,
    {
        if self.state.file_index < self.locations.len() {
            ChunkAction::NextReader
        } else {
            self.state.reader = None;
            ChunkAction::Moved(false)
        }
    }

    /// What to do on the way to the next chunk: the current reader is asked first, then
    /// the next one.
    pub fn chunk_turn(&mut self, event: ChunkEvent) -> (r: ChunkAction)
        requires
            old(self).wf(),
        ensures
            final(self).wf(),
            final(self).same_plan(old(self)),
            old(self).chunk_turned(final(self), event, r),
    {
        match event {
            ChunkEvent::Start => {
                self.state.current_chunk = None;
                if self.state.reader.is_some() {
                    ChunkAction::AskHasData
                } else {
                    self.leave_reader()
                }
            },
            ChunkEvent::HasData(true) => ChunkAction::FetchChunk,
            ChunkEvent::HasData(false) => self.leave_reader(),
            ChunkEvent::Chunk(Some(c)) => {
                self.state.current_chunk = Some(c);
                ChunkAction::Moved(true)
            },
            ChunkEvent::Chunk(None) => self.leave_reader(),
            ChunkEvent::ReadersMoved => ChunkAction::Moved(self.state.reader.is_some()),
        }
    }
}

} // verus!
