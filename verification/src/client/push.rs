//! Data push to Celeborn workers: the frames that carry shuffle data, the buffers that
//! collect small pieces, and what follows when a push fails. Sending is left to the caller.

use bytes::{Bytes, BytesMut};
use dashmap::DashMap;
use vstd::prelude::*;
use vstd::string::*;

use crate::buffers;
use crate::client::compression;
use crate::client::lifecycle;
use crate::client::lifecycle::{LifecycleManager, ShuffleModel};
use crate::client::locations;
use crate::client::partition_reader;
use crate::config::{CelebornConfig, CompressionCodec};
use crate::error;
use crate::error::{CelebornError, Result, StatusCode};
use crate::network::codec::{Frame, FrameModel};
use crate::network::connection::{ConnectionPool, PoolEntry};
use crate::protocol;
use crate::protocol::batch_header;
use crate::protocol::batch_header::BatchHeader;
use crate::protocol::message::{MessageType, PushData, PushMergedData};
use crate::protocol::{Encodable, LocationModel, PartitionLocation};
use crate::string_map::StringMap;
use crate::tables;
use crate::text;
use crate::wire;

verus! {

/// The body of a push: the batch header, little-endian, then the compressed data.
pub open spec fn batch_body(map_id: i32, attempt_id: i32, batch_id: i32, packed: Seq<u8>) -> Seq<u8> {
    batch_header::wire_le(
        BatchHeader {
            map_id,
            attempt_id,
            batch_id,
            compressed_size: wire::signed32(packed.len()),
        },
    ) + packed
}

/// What a push sends is what a read of the chunk gives back: behind its header the
/// compressed data, which unpacks to the data that was pushed.
pub proof fn law_pushed_data_is_read_back(
    codec: CompressionCodec,
    map_id: i32,
    attempt_id: i32,
    batch_id: i32,
    data: Seq<u8>,
    packed: Seq<u8>,
)
    requires
        compression::packs(codec, data, packed),
        compression::restorable(codec, data.len()),
        packed.len() <= i32::MAX,
    ensures
        partition_reader::strip_headers(batch_body(map_id, attempt_id, batch_id, packed), 0) == Ok::<
            Seq<u8>,
            Seq<char>,
        >(packed),
        compression::unpacked(codec, packed) == Ok::<Seq<u8>, Seq<char>>(data),
{
    let header = BatchHeader {
        map_id,
        attempt_id,
        batch_id,
        compressed_size: wire::signed32(packed.len()),
    };
    let b = batch_header::Batch { header, data: packed };
    let bs = seq![b];
    let none = Seq::<u8>::empty();
    assert(batch_header::sized_right(b));
    partition_reader::law_strip_round_trip(bs, none, 0);
    assert(bs.drop_first() =~= Seq::<batch_header::Batch>::empty());
    assert(batch_header::batches_wire(bs.drop_first()) =~= none);
    assert(partition_reader::joined(bs.drop_first()) =~= none);
    assert(batch_header::batches_wire(bs) + none =~= batch_body(map_id, attempt_id, batch_id, packed));
    assert(partition_reader::joined(bs) =~= packed);
}

/// Builds the body of a push: mapId (4) + attemptId (4) + batchId (4) +
/// compressedTotalSize (4) + data, with the header in little-endian.
pub fn build_body(map_id: i32, attempt_id: i32, batch_id: i32, packed: &[u8]) -> (r: Bytes)
    ensures
        buffers::octets(r) == batch_body(map_id, attempt_id, batch_id, packed@),
{
    let header: BatchHeader = BatchHeader {
        map_id,
        attempt_id,
        batch_id,
        compressed_size: wire::wire_len(packed.len()),
    };
    let head: [u8; 16] = header.encode();
    let mut body: Vec<u8> = Vec::new();
    body.extend_from_slice(head.as_slice());
    body.extend_from_slice(packed);
    assert(body@ =~= batch_body(map_id, attempt_id, batch_id, packed@));
    buffers::bytes_from_vec(body)
}

/// A push to a worker.
pub struct PushCall {
    pub shuffle_key: String,
    pub partition_unique_id: String,
    pub location: PartitionLocation,
    pub data: Bytes,
}

/// What a `PushCall` says.
pub struct PushModel {
    pub shuffle_key: Seq<char>,
    pub partition_unique_id: Seq<char>,
    pub location: LocationModel,
    pub data: Seq<u8>,
}

impl View for PushCall {
    type V = PushModel;

    open spec fn view(&self) -> PushModel {
        PushModel {
            shuffle_key: self.shuffle_key@,
            partition_unique_id: self.partition_unique_id@,
            location: self.location.model(),
            data: buffers::octets(self.data),
        }
    }
}

/// The message of a push.
pub open spec fn push_message(request_id: i64, c: PushModel) -> Seq<u8> {
    seq![protocol::message::type_code(MessageType::PushData)] + wire::be_i64(request_id) + seq![
        protocol::mode_code(c.location.mode) as u8,
    ] + protocol::short_string(c.shuffle_key) + protocol::short_string(c.partition_unique_id)
        + protocol::message::sized_body(c.data)
}

/// The frame that carries a push: the encoded message, and the data once more as the body
/// of the frame.
pub fn push_frame(request_id: i64, call: &PushCall) -> (r: Frame)
    requires
        push_message(request_id, call@).len() <= isize::MAX,
    ensures
        r@ == (FrameModel {
            message_type: MessageType::PushData,
            message: push_message(request_id, call@),
            body: call@.data,
        }),
{
    let mode: u8 = call.location.mode.code() as u8;
    let push_data: PushData = PushData::new(
        request_id,
        mode,
        call.shuffle_key.clone(),
        call.partition_unique_id.clone(),
        buffers::bytes_clone(&call.data),
    );
    let message_buf: BytesMut = push_data.encode_to_bytes();
    Frame::with_body(
        MessageType::PushData,
        buffers::buffer_freeze(message_buf),
        buffers::bytes_clone(&call.data),
    )
}

/// Buffer for accumulating push data.
pub struct PushBuffer {
    /// Shuffle key
    pub shuffle_key: String,
    /// Partition unique ID
    pub partition_unique_id: String,
    /// Partition location
    pub location: PartitionLocation,
    /// Buffered data
    pub data: BytesMut,
    /// Maximum buffer size
    pub max_size: usize,
}

impl View for PushBuffer {
    type V = PushModel;

    open spec fn view(&self) -> PushModel {
        PushModel {
            shuffle_key: self.shuffle_key@,
            partition_unique_id: self.partition_unique_id@,
            location: self.location.model(),
            data: buffers::buffered(self.data),
        }
    }
}

impl PushBuffer {
    /// An empty buffer.
    pub fn new(
        shuffle_key: String,
        partition_unique_id: String,
        location: PartitionLocation,
        max_size: usize,
    ) -> (r: Self)
        requires
            max_size <= isize::MAX,
        ensures
            r.shuffle_key == shuffle_key,
            r.partition_unique_id == partition_unique_id,
            r.location == location,
            r@.data == Seq::<u8>::empty(),
            r.max_size == max_size,
    {
        PushBuffer {
            shuffle_key,
            partition_unique_id,
            location,
            data: buffers::buffer_with_capacity(max_size),
            max_size,
        }
    }

    /// Whether the buffer holds as much as it should.
    pub fn is_full(&self) -> (r: bool)
        ensures
            r == (self@.data.len() >= self.max_size),
    {
        buffers::buffer_len(&self.data) >= self.max_size
    }

    /// How much the buffer can take on.
    pub fn remaining_capacity(&self) -> (r: usize)
        ensures
            r == room_left(self@.data.len(), self.max_size),
    {
        let len: usize = buffers::buffer_len(&self.data);
        if len < self.max_size {
            self.max_size - len
        } else {
            0
        }
    }

    /// Adds data behind what the buffer holds.
    pub fn append(&mut self, data: &[u8])
        requires
            buffers::has_room(old(self)@.data, data@.len() as int),
        ensures
            final(self)@ == (PushModel { data: old(self)@.data + data@, ..old(self)@ }),
            final(self).max_size == old(self).max_size,
    {
        buffers::put_slice(&mut self.data, data);
    }

    /// Takes all data out.
    pub fn take_data(&mut self) -> (r: Bytes)
        requires
            old(self).max_size <= isize::MAX,
        ensures
            buffers::octets(r) == old(self)@.data,
            final(self)@ == (PushModel { data: Seq::<u8>::empty(), ..old(self)@ }),
            final(self).max_size == old(self).max_size,
    {
        let mut taken: BytesMut = buffers::buffer_with_capacity(self.max_size);
        std::mem::swap(&mut self.data, &mut taken);
        buffers::buffer_freeze(taken)
    }

    /// Whether the buffer holds nothing.
    pub fn is_empty(&self) -> (r: bool)
        ensures
            r == (self@.data.len() == 0),
    {
        buffers::buffer_len(&self.data) == 0
    }
}

/// How much a buffer with `len` bytes can take on.
pub open spec fn room_left(len: nat, max_size: usize) -> int {
    if len < max_size {
        max_size - len
    } else {
        0
    }
}

/// A push that was made ready for its location.
pub struct Prepared {
    pub shuffle_key: String,
    pub partition_unique_id: String,
    /// The buffer that the data may go to
    pub buffer_key: String,
    pub location: PartitionLocation,
    pub body: Bytes,
}

/// The push of a `Prepared`.
pub open spec fn prepared_call(p: Prepared) -> PushModel {
    PushModel {
        shuffle_key: p.shuffle_key@,
        partition_unique_id: p.partition_unique_id@,
        location: p.location.model(),
        data: buffers::octets(p.body),
    }
}

/// How far a push has come.
pub enum PushStage {
    /// Nothing was done yet
    Start,
    /// A location is being asked for
    Locating,
    /// Older data is being sent to make room in the buffer
    MakingRoom(Prepared),
    /// The data is being sent
    Sending(Prepared),
    /// The data could not be sent; another location is being asked for
    Reviving(Prepared, CelebornError),
    /// The data is being sent to another location
    Resending,
    /// The buffer became full and is being sent
    Flushing,
    /// The push is over
    Finished,
}

/// A push of data to a partition.
pub struct PushJob {
    pub shuffle_id: i32,
    pub map_id: i32,
    pub attempt_id: i32,
    pub partition_id: i32,
    pub data: Vec<u8>,
    pub retry_count: u32,
    pub stage: PushStage,
}

/// What happened to a push.
pub enum PushEvent {
    Begin,
    Revived(Result<PartitionLocation>),
    Sent(Result<()>),
}

/// What is to be done for a push.
pub enum PushAction {
    /// Ask for a location in place of the old one
    Revive(i32, Option<PartitionLocation>, StatusCode),
    /// Send data
    Send(PushCall),
    /// The push ends so
    Return(Result<()>),
}

/// What the buffers and the shuffles hold.
#[verifier::ext_equal]
pub struct World {
    pub pending: Map<Seq<char>, PushModel>,
    pub shuffles: Map<i32, ShuffleModel>,
}

/// Whether an error may go away with another location.
pub open spec fn retriable(e: CelebornError) -> bool {
    e is Connection || e is Timeout || e is WorkerUnavailable || e is PushFailed
}

/// The cause that a failure is reported with.
pub open spec fn failure_cause(e: CelebornError) -> StatusCode {
    match e {
        CelebornError::Connection(_) => StatusCode::PushDataCreateConnectionFailPrimary,
        CelebornError::Timeout(_) => StatusCode::PushDataTimeoutPrimary,
        _ => StatusCode::PushDataWriteFailPrimary,
    }
}

/// The settings that a push depends on.
pub struct PushRules {
    pub app_id: Seq<char>,
    pub codec: CompressionCodec,
    pub buffer_size: usize,
    pub max_retries: u32,
    pub revives: bool,
}

/// The job as it was before it was started.
pub open spec fn unstarted(job: PushJob) -> PushJob {
    PushJob { stage: PushStage::Start, ..job }
}

/// Whether `p` is the job made ready for a location, with a batch id.
pub open spec fn prepared_for(
    p: Prepared,
    rules: PushRules,
    job: PushJob,
    loc: LocationModel,
    batch_id: i32,
) -> bool {
    &&& p.shuffle_key@ == text::key_text(rules.app_id, job.shuffle_id)
    &&& p.partition_unique_id@ == protocol::unique_id_text(loc.id, loc.epoch)
    &&& p.buffer_key@ == p.shuffle_key@ + seq!['-'] + p.partition_unique_id@
    &&& p.location.model() == loc
    &&& exists|packed: Seq<u8>| #[trigger]
        compression::packs(rules.codec, job.data@, packed) && buffers::octets(p.body) == batch_body(
            job.map_id,
            job.attempt_id,
            batch_id,
            packed,
        )
}

/// What is sent when a buffer is flushed; nothing where it is not there or empty.
pub open spec fn flushed(pending: Map<Seq<char>, PushModel>, key: Seq<char>) -> Option<PushModel> {
    if pending.dom().contains(key) && pending[key].data.len() > 0 {
        Some(pending[key])
    } else {
        None
    }
}

/// Whether the buffer has no room for the data.
pub open spec fn crowded(pending: Map<Seq<char>, PushModel>, p: Prepared, rules: PushRules) -> bool {
    pending.dom().contains(p.buffer_key@) && room_left(
        pending[p.buffer_key@].data.len(),
        rules.buffer_size,
    ) < buffers::octets(p.body).len()
}

/// The buffers after the data was added.
pub open spec fn stored(pending: Map<Seq<char>, PushModel>, p: Prepared) -> Map<Seq<char>, PushModel> {
    pending.insert(
        p.buffer_key@,
        if pending.dom().contains(p.buffer_key@) {
            PushModel {
                data: pending[p.buffer_key@].data + buffers::octets(p.body),
                ..pending[p.buffer_key@]
            }
        } else {
            prepared_call(p)
        },
    )
}

/// How a push that is ready goes on: large data is sent, small data is buffered, and a
/// buffer that became full is sent.
pub open spec fn dispatched(
    rules: PushRules,
    before: World,
    after: World,
    job: PushJob,
    next: PushJob,
    p: Prepared,
    action: PushAction,
) -> bool {
    if buffers::octets(p.body).len() >= rules.buffer_size {
        &&& after == before
        &&& next == (PushJob { stage: PushStage::Sending(p), ..job })
        &&& action matches PushAction::Send(c)
        &&& c@ == prepared_call(p)
    } else {
        let filled = stored(before.pending, p);
        if filled[p.buffer_key@].data.len() >= rules.buffer_size {
            &&& after == (World { pending: filled.remove(p.buffer_key@), ..before })
            &&& match flushed(filled, p.buffer_key@) {
                Some(m) => {
                    &&& next == (PushJob { stage: PushStage::Flushing, ..job })
                    &&& action matches PushAction::Send(c)
                    &&& c@ == m
                },
                None => next == (PushJob { stage: PushStage::Finished, ..job })
                    && action == PushAction::Return(Ok(())),
            }
        } else {
            &&& after == (World { pending: filled, ..before })
            &&& next == (PushJob { stage: PushStage::Finished, ..job })
            &&& action == PushAction::Return(Ok(()))
        }
    }
}

/// The data that is buffered under a key.
pub open spec fn pending_data(pending: Map<Seq<char>, PushModel>, key: Seq<char>) -> Seq<u8> {
    if pending.dom().contains(key) {
        pending[key].data
    } else {
        Seq::<u8>::empty()
    }
}

/// The data that an action sends.
pub open spec fn sent_data(action: PushAction) -> Seq<u8> {
    match action {
        PushAction::Send(c) => c@.data,
        _ => Seq::<u8>::empty(),
    }
}

/// No byte of a push is lost or overtakes another one of its partition: what was buffered
/// and then what is pushed is what is sent and then what stays buffered. Large data is sent
/// past the buffer, which stays as it is. No other buffer changes.
pub proof fn law_buffering_loses_nothing(
    rules: PushRules,
    before: World,
    after: World,
    job: PushJob,
    next: PushJob,
    p: Prepared,
    action: PushAction,
)
    requires
        dispatched(rules, before, after, job, next, p, action),
    ensures
        ({
            let key = p.buffer_key@;
            let body = buffers::octets(p.body);
            if body.len() >= rules.buffer_size {
                sent_data(action) == body && after.pending == before.pending
            } else {
                &&& pending_data(before.pending, key) + body == sent_data(action) + pending_data(
                    after.pending,
                    key,
                )
                &&& after.pending.remove(key) == before.pending.remove(key)
            }
        }),
{
    let key = p.buffer_key@;
    let body = buffers::octets(p.body);
    if body.len() < rules.buffer_size {
        let filled = stored(before.pending, p);
        assert(filled[key].data =~= pending_data(before.pending, key) + body);
        assert(filled.remove(key) =~= before.pending.remove(key));
        assert(filled.remove(key).remove(key) =~= before.pending.remove(key));
        assert(pending_data(before.pending, key) + body =~= sent_data(action) + pending_data(
            after.pending,
            key,
        ));
    }
}

/// Whether data consists of whole batches, each behind a header that announces its size.
pub open spec fn whole(data: Seq<u8>) -> bool {
    exists|bs: Seq<batch_header::Batch>| #[trigger]
        batch_header::batches_wire(bs) == data && all_sized(bs)
}

/// Whether every batch has the size that its header announces.
pub open spec fn all_sized(bs: Seq<batch_header::Batch>) -> bool {
    forall|i: int| 0 <= i < bs.len() ==> batch_header::sized_right(#[trigger] bs[i])
}

/// The body of a push is a whole batch.
pub proof fn law_body_is_a_whole_batch(map_id: i32, attempt_id: i32, batch_id: i32, packed: Seq<u8>)
    requires
        packed.len() <= i32::MAX,
    ensures
        whole(batch_body(map_id, attempt_id, batch_id, packed)),
{
    let header = BatchHeader {
        map_id,
        attempt_id,
        batch_id,
        compressed_size: wire::signed32(packed.len()),
    };
    let bs = seq![batch_header::Batch { header, data: packed }];
    assert(bs.drop_first() =~= Seq::<batch_header::Batch>::empty());
    assert(batch_header::batches_wire(bs.drop_first()) =~= Seq::<u8>::empty());
    assert(batch_header::batches_wire(bs) =~= batch_body(map_id, attempt_id, batch_id, packed));
    assert(all_sized(bs));
}

/// Buffering keeps batches whole: where every buffer and the body of a push hold whole batches,
/// so do the buffers afterwards, and so does what is sent.
pub proof fn law_batches_stay_whole(
    rules: PushRules,
    before: World,
    after: World,
    job: PushJob,
    next: PushJob,
    p: Prepared,
    action: PushAction,
)
    requires
        dispatched(rules, before, after, job, next, p, action),
        whole(buffers::octets(p.body)),
        forall|k: Seq<char>| #[trigger]
            before.pending.dom().contains(k) ==> whole(before.pending[k].data),
    ensures
        whole(sent_data(action)),
        forall|k: Seq<char>| #[trigger]
            after.pending.dom().contains(k) ==> whole(after.pending[k].data),
{
    let none = Seq::<batch_header::Batch>::empty();
    assert(batch_header::batches_wire(none) == Seq::<u8>::empty() && all_sized(none));
    let key = p.buffer_key@;
    if before.pending.dom().contains(key) {
        lemma_whole_joined(before.pending[key].data, buffers::octets(p.body));
    }
    assert(whole(stored(before.pending, p)[key].data));
    assert forall|k: Seq<char>| #[trigger] after.pending.dom().contains(k) implies whole(
        after.pending[k].data,
    ) by {
        if k != key {
            assert(before.pending.dom().contains(k));
        }
    }
}

/// Whole batches behind whole batches are whole batches.
proof fn lemma_whole_joined(a: Seq<u8>, b: Seq<u8>)
    requires
        whole(a),
        whole(b),
    ensures
        whole(a + b),
{
    let first = choose|bs: Seq<batch_header::Batch>| #[trigger]
        batch_header::batches_wire(bs) == a && all_sized(bs);
    let second = choose|bs: Seq<batch_header::Batch>| #[trigger]
        batch_header::batches_wire(bs) == b && all_sized(bs);
    let both = first + second;
    batch_header::lemma_wire_joined(first, second);
    assert(all_sized(both)) by {
        assert forall|i: int| 0 <= i < both.len() implies batch_header::sized_right(
            #[trigger] both[i],
        ) by {
            if i < first.len() {
                assert(both[i] == first[i]);
            } else {
                assert(both[i] == second[i - first.len()]);
            }
        }
    }
}

/// How a push with a location goes on: it takes the next batch id of the partition, and
/// older data is sent first where the buffer has no room. Data that cannot be compressed ends
/// the push.
pub open spec fn placed(
    rules: PushRules,
    before: World,
    after: World,
    job: PushJob,
    next: PushJob,
    loc: LocationModel,
    action: PushAction,
) -> bool {
    let counted = lifecycle::counted(before.shuffles, job.shuffle_id, job.partition_id);
    let batch_id = lifecycle::batch_counter(before.shuffles, job.shuffle_id, job.partition_id);
    match compression::pack_fault(rules.codec, job.data@) {
        Some(why) => {
            &&& after == before
            &&& next == (PushJob { stage: PushStage::Finished, ..job })
            &&& action matches PushAction::Return(Err(CelebornError::Compression(m)))
            &&& m@ == why
        },
        None => exists|p: Prepared| #[trigger]
            prepared_for(p, rules, unstarted(job), loc, batch_id) && if crowded(
                before.pending,
                p,
                rules,
            ) {
                let emptied = World {
                    pending: before.pending.remove(p.buffer_key@),
                    shuffles: counted,
                };
                match flushed(before.pending, p.buffer_key@) {
                    Some(m) => {
                        &&& after == emptied
                        &&& next == (PushJob { stage: PushStage::MakingRoom(p), ..job })
                        &&& action matches PushAction::Send(c)
                        &&& c@ == m
                    },
                    None => dispatched(rules, emptied, after, job, next, p, action),
                }
            } else {
                dispatched(rules, World { shuffles: counted, ..before }, after, job, next, p, action)
            },
    }
}

/// How a push begins: with the first known location of the partition, else with a request
/// for one.
pub open spec fn begun(
    rules: PushRules,
    before: World,
    after: World,
    job: PushJob,
    next: PushJob,
    action: PushAction,
) -> bool {
    match lifecycle::lookup(before.shuffles, job.shuffle_id, job.partition_id) {
        Ok(found) if found.len() > 0 => placed(rules, before, after, job, next, found[0], action),
        _ => if rules.revives {
            &&& after == before
            &&& next == (PushJob { stage: PushStage::Locating, ..job })
            &&& action == PushAction::Revive(
                (-1int) as i32,
                None,
                StatusCode::PushDataFailNonCriticalCause,
            )
        } else {
            &&& after == before
            &&& next == (PushJob { stage: PushStage::Finished, ..job })
            &&& action == PushAction::Return(
                Err(
                    CelebornError::PartitionNotFound {
                        shuffle_id: job.shuffle_id,
                        partition_id: job.partition_id,
                    },
                ),
            )
        },
    }
}

/// How a push whose data could not be sent goes on: from the start, as often as allowed.
pub open spec fn retried(
    rules: PushRules,
    before: World,
    after: World,
    job: PushJob,
    next: PushJob,
    e: CelebornError,
    action: PushAction,
) -> bool {
    if retriable(e) && job.retry_count < rules.max_retries {
        begun(
            rules,
            before,
            after,
            PushJob { retry_count: (job.retry_count + 1) as u32, ..job },
            next,
            action,
        )
    } else {
        &&& after == before
        &&& next == (PushJob { stage: PushStage::Finished, ..job })
        &&& action == PushAction::Return(Err(e))
    }
}

/// Whether the event can happen at the stage.
pub open spec fn fits(stage: PushStage, event: PushEvent) -> bool {
    match event {
        PushEvent::Begin => stage is Start,
        PushEvent::Revived(_) => stage is Locating || stage is Reviving,
        PushEvent::Sent(_) => stage is MakingRoom || stage is Sending || stage is Resending
            || stage is Flushing,
    }
}

/// How a push goes on after an event.
pub open spec fn pushed_on(
    rules: PushRules,
    before: World,
    after: World,
    job: PushJob,
    event: PushEvent,
    next: PushJob,
    action: PushAction,
) -> bool {
    let over = PushJob { stage: PushStage::Finished, ..job };
    match (job.stage, event) {
        (PushStage::Start, PushEvent::Begin) => begun(rules, before, after, job, next, action),
        (PushStage::Locating, PushEvent::Revived(Ok(l))) => placed(
            rules,
            before,
            after,
            job,
            next,
            l.model(),
            action,
        ),
        (PushStage::Locating, PushEvent::Revived(Err(e))) => after == before && next == over
            && action == PushAction::Return(Err(e)),
        (PushStage::MakingRoom(p), PushEvent::Sent(Ok(_))) => dispatched(
            rules,
            before,
            after,
            job,
            next,
            p,
            action,
        ),
        (PushStage::MakingRoom(_), PushEvent::Sent(Err(e))) => after == before && next == over
            && action == PushAction::Return(Err(e)),
        (PushStage::Sending(_), PushEvent::Sent(Ok(_))) => after == before && next == over
            && action == PushAction::Return(Ok(())),
        (PushStage::Sending(p), PushEvent::Sent(Err(e))) => if retriable(e) && job.retry_count
            < rules.max_retries && rules.revives {
            &&& after == before
            &&& next == (PushJob { stage: PushStage::Reviving(p, e), ..job })
            &&& action matches PushAction::Revive(epoch, Some(old), cause)
            &&& epoch == p.location.epoch
            &&& old.model() == p.location.model()
            &&& cause == failure_cause(e)
        } else {
            retried(rules, before, after, job, next, e, action)
        },
        (PushStage::Reviving(p, _), PushEvent::Revived(Ok(l))) => {
            &&& after == before
            &&& next == (PushJob { stage: PushStage::Resending, ..job })
            &&& action matches PushAction::Send(c)
            &&& c@ == (PushModel {
                shuffle_key: p.shuffle_key@,
                partition_unique_id: protocol::unique_id_text(l.id, l.epoch),
                location: l.model(),
                data: buffers::octets(p.body),
            })
        },
        (PushStage::Reviving(_, e), PushEvent::Revived(Err(_))) => retried(
            rules,
            before,
            after,
            job,
            next,
            e,
            action,
        ),
        (PushStage::Resending, PushEvent::Sent(Ok(_))) => after == before && next == over && action
            == PushAction::Return(Ok(())),
        (PushStage::Resending, PushEvent::Sent(Err(e))) => retried(
            rules,
            before,
            after,
            job,
            next,
            e,
            action,
        ),
        (PushStage::Flushing, PushEvent::Sent(r)) => after == before && next == over && action
            == PushAction::Return(r),
        _ => true,
    }
}

/// A push is retried at most as often as allowed, one retry at a time, and never changes
/// what it is a push of.
pub proof fn law_retries_are_bounded(
    rules: PushRules,
    before: World,
    after: World,
    job: PushJob,
    event: PushEvent,
    next: PushJob,
    action: PushAction,
)
    requires
        fits(job.stage, event),
        pushed_on(rules, before, after, job, event, next, action),
    ensures
        next.retry_count == job.retry_count || (next.retry_count == job.retry_count + 1
            && next.retry_count <= rules.max_retries),
        next == (PushJob { retry_count: next.retry_count, stage: next.stage, ..job }),
{
}

/// Data pusher for sending shuffle data to Celeborn workers.
pub struct DataPusher {
    /// Configuration
    pub config: CelebornConfig,
    /// Whether there is a revive manager for handling push failures
    pub revives: bool,
    /// Connection pool for push connections
    pub push_connection_pool: ConnectionPool,
    /// Pending push buffers (partition_id -> buffer)
    pub pending_buffers: PushBuffers,
    /// How many pushes may be in flight
    pub max_in_flight: usize,
    /// Maximum number of revive retries
    pub max_revive_retries: u32,
}

/// The buffers that a map holds by their keys.
pub uninterp spec fn buffers_by_key(m: DashMap<String, PushBuffer>) -> Map<Seq<char>, PushBuffer>;

/// `DashMap::new`: a map without entries.
#[verifier::external_body]
fn map_new() -> (r: DashMap<String, PushBuffer>)
    ensures
        buffers_by_key(r).dom() == Set::<Seq<char>>::empty(),
{
    DashMap::new()
}

/// `DashMap::insert`: sets the value of a key, in place of one that it had.
#[verifier::external_body]
fn map_insert(m: &mut DashMap<String, PushBuffer>, key: String, buffer: PushBuffer)
    ensures
        buffers_by_key(*final(m)) == buffers_by_key(*old(m)).insert(key@, buffer),
{
    m.insert(key, buffer);
}

/// `DashMap::remove`: takes the entry of a key out and gives its value, if there is one.
#[verifier::external_body]
fn map_remove(m: &mut DashMap<String, PushBuffer>, key: &str) -> (r: Option<PushBuffer>)
    ensures
        buffers_by_key(*final(m)) == buffers_by_key(*old(m)).remove(key@),
        match r {
            Some(b) => buffers_by_key(*old(m)).dom().contains(key@) && b == buffers_by_key(
                *old(m),
            )[key@],
            None => !buffers_by_key(*old(m)).dom().contains(key@),
        },
{
    m.remove(key).map(|(_, b)| b)
}

/// `DashMap::iter`: walks over the entries, each once, in an order that is not described;
/// here their keys.
#[verifier::external_body]
fn map_keys(m: &DashMap<String, PushBuffer>) -> (r: Vec<String>)
    ensures
        tables::texts(r@).no_duplicates(),
        tables::texts(r@).to_set() == buffers_by_key(*m).dom(),
{
    m.iter().map(|entry| entry.key().clone()).collect()
}

/// Buffers by their keys.
pub struct PushBuffers {
    pub map: DashMap<String, PushBuffer>,
}

impl View for PushBuffers {
    type V = Map<Seq<char>, PushBuffer>;

    open spec fn view(&self) -> Map<Seq<char>, PushBuffer> {
        buffers_by_key(self.map)
    }
}

impl PushBuffers {
    /// No buffer.
    pub fn new() -> (r: Self)
        ensures
            r@ == Map::<Seq<char>, PushBuffer>::empty(),
    {
        let r: PushBuffers = PushBuffers { map: map_new() };
        assert(r@ =~= Map::<Seq<char>, PushBuffer>::empty());
        r
    }

    /// Keeps a buffer under a key, in place of one that is kept there.
    pub fn insert(&mut self, key: String, buffer: PushBuffer)
        ensures
            final(self)@ == old(self)@.insert(key@, buffer),
    {
        map_insert(&mut self.map, key, buffer)
    }

    /// Takes the buffer of a key out.
    pub fn remove(&mut self, key: &str) -> (r: Option<PushBuffer>)
        ensures
            final(self)@ == old(self)@.remove(key@),
            match r {
                Some(b) => old(self)@.dom().contains(key@) && b == old(self)@[key@],
                None => !old(self)@.dom().contains(key@),
            },
    {
        map_remove(&mut self.map, key)
    }

    /// The keys of all buffers, in some order.
    pub fn keys(&self) -> (r: Vec<String>)
        ensures
            tables::texts(r@).no_duplicates(),
            tables::texts(r@).to_set() == self@.dom(),
    {
        map_keys(&self.map)
    }
}

/// What the buffers hold.
pub open spec fn pending_models(m: Map<Seq<char>, PushBuffer>) -> Map<Seq<char>, PushModel> {
    Map::new(|k: Seq<char>| m.dom().contains(k), |k: Seq<char>| m[k]@)
}

impl DataPusher {
    /// No buffer at rest is full.
    pub open spec fn wf(&self) -> bool {
        &&& 2 * self.config.push_buffer_size <= isize::MAX
        &&& forall|k: Seq<char>| #[trigger]
            self.pending_buffers@.dom().contains(k) ==> self.pending_buffers@[k].max_size
                == self.config.push_buffer_size && self.pending_buffers@[k]@.data.len()
                < self.config.push_buffer_size
    }

    /// The settings that pushes follow. The application is that of the manager.
    pub open spec fn rules(&self, manager: &LifecycleManager) -> PushRules {
        PushRules {
            app_id: manager.config.app_id@,
            codec: self.config.compression_codec,
            buffer_size: self.config.push_buffer_size,
            max_retries: self.max_revive_retries,
            revives: self.revives,
        }
    }

    /// What the buffers and the shuffles hold.
    pub open spec fn world(&self, manager: &LifecycleManager) -> World {
        World { pending: pending_models(self.pending_buffers@), shuffles: manager.model() }
    }

    /// Whether nothing but the buffers differs from `other`.
    pub open spec fn same_rest(&self, other: &DataPusher) -> bool {
        &&& self.config == other.config
        &&& self.revives == other.revives
        &&& self.push_connection_pool == other.push_connection_pool
        &&& self.max_in_flight == other.max_in_flight
        &&& self.max_revive_retries == other.max_revive_retries
    }

    /// Whether this is a pusher with nothing buffered.
    pub open spec fn starts_from(&self, config: CelebornConfig, revives: bool) -> bool {
        &&& self.wf()
        &&& self.config == config
        &&& self.revives == revives
        &&& self.push_connection_pool.pool_size == config.connection_pool_size
        &&& self.push_connection_pool.max_in_flight == config.max_in_flight_requests
        &&& self.push_connection_pool.entries() == Map::<Seq<char>, PoolEntry>::empty()
        &&& self.pending_buffers@ == Map::<Seq<char>, PushBuffer>::empty()
        &&& self.max_in_flight == config.max_in_flight_requests * 4
        &&& self.max_revive_retries == config.max_retries
    }

    /// Create a new data pusher.
    pub fn new(config: CelebornConfig) -> (r: Self)
        requires
            2 * config.push_buffer_size <= isize::MAX,
            4 * config.max_in_flight_requests <= usize::MAX,
        ensures
            r.starts_from(config, false),
    {
        Self::start(config, false)
    }

    /// Create a new data pusher with a revive manager.
    pub fn with_revive_manager(config: CelebornConfig) -> (r: Self)
        requires
            2 * config.push_buffer_size <= isize::MAX,
            4 * config.max_in_flight_requests <= usize::MAX,
        ensures
            r.starts_from(config, true),
    {
        Self::start(config, true)
    }

    /// A pusher with nothing buffered.
    fn start(config: CelebornConfig, revives: bool) -> (r: Self)
        requires
            2 * config.push_buffer_size <= isize::MAX,
            4 * config.max_in_flight_requests <= usize::MAX,
        ensures
            r.starts_from(config, revives),
    {
        let push_connection_pool: ConnectionPool = ConnectionPool::new(
            config.connection_pool_size,
            config.max_in_flight_requests,
        );
        let max_in_flight: usize = config.max_in_flight_requests * 4;
        let max_revive_retries: u32 = config.max_retries;
        DataPusher {
            config,
            revives,
            push_connection_pool,
            pending_buffers: PushBuffers::new(),
            max_in_flight,
            max_revive_retries,
        }
    }

    /// A push of data to a partition.
    pub fn push_data(
        shuffle_id: i32,
        map_id: i32,
        attempt_id: i32,
        partition_id: i32,
        data: Vec<u8>,
    ) -> (r: PushJob)
        ensures
            r == (PushJob {
                shuffle_id,
                map_id,
                attempt_id,
                partition_id,
                data,
                retry_count: 0,
                stage: PushStage::Start,
            }),
    {
        PushJob {
            shuffle_id,
            map_id,
            attempt_id,
            partition_id,
            data,
            retry_count: 0,
            stage: PushStage::Start,
        }
    }

    /// Push data with retry logic: what is to be done for a push after an event.
    pub fn push_data_with_retry(
        &mut self,
        manager: &mut LifecycleManager,
        job: PushJob,
        event: PushEvent,
    ) -> (r: (PushJob, PushAction))
        requires
            old(self).wf(),
            fits(job.stage, event),
            compression::can_compress(old(self).config.compression_codec, job.data@.len()),
        ensures
            final(self).wf(),
            final(self).same_rest(old(self)),
            final(manager).same_rest(old(manager)),
            pushed_on(
                old(self).rules(old(manager)),
                old(self).world(old(manager)),
                final(self).world(final(manager)),
                job,
                event,
                r.0,
                r.1,
            ),
    {
        let mut job: PushJob = job;
        let mut stage: PushStage = PushStage::Finished;
        std::mem::swap(&mut stage, &mut job.stage);
        match event {
            PushEvent::Begin => self.begin(manager, job),
            PushEvent::Revived(outcome) => match stage {
                PushStage::Reviving(p, e) => match outcome {
                    Ok(location) => {
                        job.stage = PushStage::Resending;
                        let partition_unique_id: String = location.unique_id();
                        let call: PushCall = PushCall {
                            shuffle_key: p.shuffle_key,
                            partition_unique_id,
                            location,
                            data: p.body,
                        };
                        (job, PushAction::Send(call))
                    },
                    Err(_) => self.retry(manager, job, e),
                },
                _ => match outcome {
                    Ok(location) => self.place(manager, job, location),
                    Err(e) => (job, PushAction::Return(Err(e))),
                },
            },
            PushEvent::Sent(outcome) => match stage {
                PushStage::MakingRoom(p) => match outcome {
                    Ok(_) => self.dispatch(manager, job, p),
                    Err(e) => (job, PushAction::Return(Err(e))),
                },
                PushStage::Sending(p) => match outcome {
                    Ok(_) => (job, PushAction::Return(Ok(()))),
                    Err(e) => {
                        if Self::should_retry_with_revive(&e) && job.retry_count
                            < self.max_revive_retries && self.revives {
                            let action: PushAction = PushAction::Revive(
                                p.location.epoch,
                                Some(p.location.clone()),
                                Self::revive_cause(&e),
                            );
                            job.stage = PushStage::Reviving(p, e);
                            (job, action)
                        } else {
                            self.retry(manager, job, e)
                        }
                    },
                },
                PushStage::Resending => match outcome {
                    Ok(_) => (job, PushAction::Return(Ok(()))),
                    Err(e) => self.retry(manager, job, e),
                },
                _ => (job, PushAction::Return(outcome)),
            },
        }
    }

    /// Begins a push.
    fn begin(&mut self, manager: &mut LifecycleManager, job: PushJob) -> (r: (PushJob, PushAction))
        requires
            old(self).wf(),
            compression::can_compress(old(self).config.compression_codec, job.data@.len()),
        ensures
            final(self).wf(),
            final(self).same_rest(old(self)),
            final(manager).same_rest(old(manager)),
            begun(
                old(self).rules(old(manager)),
                old(self).world(old(manager)),
                final(self).world(final(manager)),
                job,
                r.0,
                r.1,
            ),
    {
        let mut job: PushJob = job;
        match manager.get_partition_location(job.shuffle_id, job.partition_id) {
            Ok(found) => {
                if found.len() > 0 {
                    return self.place(manager, job, found[0].clone());
                }
            },
            Err(_) => {},
        }
        if self.revives {
            job.stage = PushStage::Locating;
            (job, PushAction::Revive(-1, None, StatusCode::PushDataFailNonCriticalCause))
        } else {
            let e: CelebornError = CelebornError::PartitionNotFound {
                shuffle_id: job.shuffle_id,
                partition_id: job.partition_id,
            };
            job.stage = PushStage::Finished;
            (job, PushAction::Return(Err(e)))
        }
    }

    /// Goes on with a location.
    fn place(
        &mut self,
        manager: &mut LifecycleManager,
        job: PushJob,
        location: PartitionLocation,
    ) -> (r: (PushJob, PushAction))
        requires
            old(self).wf(),
            compression::can_compress(old(self).config.compression_codec, job.data@.len()),
        ensures
            final(self).wf(),
            final(self).same_rest(old(self)),
            final(manager).same_rest(old(manager)),
            placed(
                old(self).rules(old(manager)),
                old(self).world(old(manager)),
                final(self).world(final(manager)),
                job,
                r.0,
                location.model(),
                r.1,
            ),
    {
        let ghost rules = self.rules(manager);
        let ghost before = self.world(manager);
        let ghost given = job;
        let ghost loc = location.model();
        let mut job: PushJob = job;
        let shuffle_key: String = manager.shuffle_key(job.shuffle_id);
        let partition_unique_id: String = location.unique_id();
        proof {
            reveal_strlit("-");
        }
        let mut buffer_key: String = text::join(shuffle_key.as_str(), "-");
        buffer_key.append(partition_unique_id.as_str());
        assert(buffer_key@ =~= shuffle_key@ + seq!['-'] + partition_unique_id@);
        let packed: Vec<u8> = match self.compress_data(job.data.as_slice()) {
            Ok(v) => v,
            Err(e) => {
                job.stage = PushStage::Finished;
                return (job, PushAction::Return(Err(e)));
            },
        };
        let batch_id: i32 = manager.next_batch_id(job.shuffle_id, job.partition_id);
        let body: Bytes = build_body(job.map_id, job.attempt_id, batch_id, packed.as_slice());
        let p: Prepared = Prepared { shuffle_key, partition_unique_id, buffer_key, location, body };
        proof {
            assert(compression::packs(rules.codec, unstarted(given).data@, packed@));
            assert(prepared_for(p, rules, unstarted(given), loc, batch_id));
        }
        let ghost m0 = self.pending_buffers@;
        let should_flush: bool = match self.pending_buffers.remove(p.buffer_key.as_str()) {
            Some(buffer) => {
                let crowded: bool = buffer.remaining_capacity() < buffers::bytes_len(&p.body);
                self.pending_buffers.insert(p.buffer_key.clone(), buffer);
                crowded
            },
            None => false,
        };
        assert(self.pending_buffers@ =~= m0);
        assert(should_flush == crowded(before.pending, p, rules));
        if should_flush {
            let key: String = p.buffer_key.clone();
            match self.flush_buffer(key.as_str()) {
                Some(call) => {
                    job.stage = PushStage::MakingRoom(p);
                    (job, PushAction::Send(call))
                },
                None => self.dispatch(manager, job, p),
            }
        } else {
            self.dispatch(manager, job, p)
        }
    }

    /// Sends or buffers a push that is ready.
    fn dispatch(&mut self, manager: &LifecycleManager, job: PushJob, p: Prepared) -> (r: (
        PushJob,
        PushAction,
    ))
        requires
            old(self).wf(),
        ensures
            final(self).wf(),
            final(self).same_rest(old(self)),
            dispatched(
                old(self).rules(manager),
                old(self).world(manager),
                final(self).world(manager),
                job,
                r.0,
                p,
                r.1,
            ),
    {
        let ghost before = self.world(manager);
        let mut job: PushJob = job;
        if buffers::bytes_len(&p.body) >= self.config.push_buffer_size {
            let call: PushCall = PushCall {
                shuffle_key: p.shuffle_key.clone(),
                partition_unique_id: p.partition_unique_id.clone(),
                location: p.location.clone(),
                data: buffers::bytes_clone(&p.body),
            };
            job.stage = PushStage::Sending(p);
            return (job, PushAction::Send(call));
        }
        let key: String = p.buffer_key.clone();
        let mut buffer: PushBuffer = match self.pending_buffers.remove(key.as_str()) {
            Some(b) => b,
            None => PushBuffer::new(
                p.shuffle_key.clone(),
                p.partition_unique_id.clone(),
                p.location.clone(),
                self.config.push_buffer_size,
            ),
        };
        let ghost held = buffer@;
        buffer.append(buffers::bytes_as_slice(&p.body));
        let ghost filled = stored(before.pending, p);
        proof {
            if !before.pending.dom().contains(key@) {
                assert(buffer@.data =~= buffers::octets(p.body));
            }
            assert(buffer@ == filled[key@]);
        }
        if buffer.is_full() {
            assert(pending_models(self.pending_buffers@) =~= filled.remove(key@));
            if buffer.is_empty() {
                job.stage = PushStage::Finished;
                return (job, PushAction::Return(Ok(())));
            }
            job.stage = PushStage::Flushing;
            let data: Bytes = buffer.take_data();
            let call: PushCall = PushCall {
                shuffle_key: buffer.shuffle_key,
                partition_unique_id: buffer.partition_unique_id,
                location: buffer.location,
                data,
            };
            return (job, PushAction::Send(call));
        }
        let ghost kept = buffer;
        let ghost m0 = self.pending_buffers@;
        self.pending_buffers.insert(key, buffer);
        proof {
            assert(self.pending_buffers@ == m0.insert(key@, kept));
            assert(pending_models(self.pending_buffers@) =~= filled);
        }
        job.stage = PushStage::Finished;
        (job, PushAction::Return(Ok(())))
    }

    /// Begins a failed push anew, or ends it.
    fn retry(&mut self, manager: &mut LifecycleManager, job: PushJob, e: CelebornError) -> (r: (
        PushJob,
        PushAction,
    ))
        requires
            old(self).wf(),
            compression::can_compress(old(self).config.compression_codec, job.data@.len()),
        ensures
            final(self).wf(),
            final(self).same_rest(old(self)),
            final(manager).same_rest(old(manager)),
            retried(
                old(self).rules(old(manager)),
                old(self).world(old(manager)),
                final(self).world(final(manager)),
                job,
                r.0,
                e,
                r.1,
            ),
    {
        let mut job: PushJob = job;
        if Self::should_retry_with_revive(&e) && job.retry_count < self.max_revive_retries {
            job.retry_count = job.retry_count + 1;
            self.begin(manager, job)
        } else {
            job.stage = PushStage::Finished;
            (job, PushAction::Return(Err(e)))
        }
    }

    /// Check if an error should trigger a revive retry.
    pub fn should_retry_with_revive(error: &CelebornError) -> (r: bool)
        ensures
            r == retriable(*error),
    {
        matches!(
            error,
            CelebornError::Connection(_) | CelebornError::Timeout(_)
                | CelebornError::WorkerUnavailable { .. } | CelebornError::PushFailed(_)
        )
    }

    /// The cause that a failure is reported with.
    pub fn revive_cause(error: &CelebornError) -> (r: StatusCode)
        ensures
            r == failure_cause(*error),
    {
        match error {
            CelebornError::Connection(_) => StatusCode::PushDataCreateConnectionFailPrimary,
            CelebornError::Timeout(_) => StatusCode::PushDataTimeoutPrimary,
            _ => StatusCode::PushDataWriteFailPrimary,
        }
    }

    /// The buffers that are to be flushed.
    pub fn flush(&self) -> (r: Vec<String>)
        requires
            self.wf(),
        ensures
            tables::texts(r@).no_duplicates(),
            tables::texts(r@).to_set() == self.pending_buffers@.dom(),
    {
        self.pending_buffers.keys()
    }

    /// Flush a specific buffer: takes it out, and gives what is to be sent.
    pub fn flush_buffer(&mut self, buffer_key: &str) -> (r: Option<PushCall>)
        requires
            old(self).wf(),
        ensures
            final(self).wf(),
            final(self).same_rest(old(self)),
            pending_models(final(self).pending_buffers@) == pending_models(
                old(self).pending_buffers@,
            ).remove(buffer_key@),
            match flushed(pending_models(old(self).pending_buffers@), buffer_key@) {
                Some(m) => r matches Some(c) && c@ == m,
                None => r is None,
            },
    {
        match self.pending_buffers.remove(buffer_key) {
            Some(buffer) => {
                assert(pending_models(self.pending_buffers@) =~= pending_models(
                    old(self).pending_buffers@,
                ).remove(buffer_key@));
                let mut buffer: PushBuffer = buffer;
                if buffer.is_empty() {
                    None
                } else {
                    let data: Bytes = buffer.take_data();
                    Some(
                        PushCall {
                            shuffle_key: buffer.shuffle_key,
                            partition_unique_id: buffer.partition_unique_id,
                            location: buffer.location,
                            data,
                        },
                    )
                }
            },
            None => {
                assert(pending_models(self.pending_buffers@) =~= pending_models(
                    old(self).pending_buffers@,
                ).remove(buffer_key@));
                None
            },
        }
    }

    /// What is noted of data that was pushed.
    pub open spec fn notes_push(
        manager: LifecycleManager,
        manager_after: LifecycleManager,
        shuffle_key: &str,
        partition_unique_id: &str,
        len: usize,
    ) -> bool {
        &&& manager_after.total_written == manager.total_written.wrapping_add(
            wire::signed64(len as nat),
        )
        &&& manager_after.model() == with_data(
            manager.model(),
            text::key_shuffle(shuffle_key@),
            partition_unique_id@,
        )
        &&& manager_after.config == manager.config
        &&& manager_after.file_count == manager.file_count
        &&& manager_after.running == manager.running
        &&& manager_after.excluded_workers == manager.excluded_workers
        &&& manager_after.ended_mappers == manager.ended_mappers
    }

    /// Records data that was sent: the bytes, and that the partition has data.
    pub fn data_pushed(
        manager: &mut LifecycleManager,
        shuffle_key: &str,
        partition_unique_id: &str,
        len: usize,
    )
        ensures
            Self::notes_push(
                *old(manager),
                *final(manager),
                shuffle_key,
                partition_unique_id,
                len,
            ),
    {
        manager.add_bytes_written(wire::to_signed64(len as u64));
        manager.add_partition_data_pushed(text::shuffle_of_key(shuffle_key), partition_unique_id);
    }

    /// Compress data using the configured codec.
    pub fn compress_data(&self, data: &[u8]) -> (r: Result<Vec<u8>>)
        requires
            compression::can_compress(self.config.compression_codec, data@.len()),
        ensures
            match r {
                Ok(v) => {
                    &&& compression::pack_fault(self.config.compression_codec, data@) is None
                    &&& compression::packs(self.config.compression_codec, data@, v@)
                },
                Err(e) => compression::is_pack_error(e, self.config.compression_codec, data@),
            },
    {
        compression::compress_data(self.config.compression_codec, data)
    }
}

/// The shuffles after a partition got data.
pub open spec fn with_data(m: Map<i32, ShuffleModel>, shuffle_id: i32, unique_id: Seq<char>) -> Map<
    i32,
    ShuffleModel,
> {
    if m.dom().contains(shuffle_id) {
        let s = m[shuffle_id];
        m.insert(shuffle_id, ShuffleModel { committed: s.committed.insert(unique_id), ..s })
    } else {
        m
    }
}

/// The data of one partition in a merged push.
pub struct MergedPart {
    pub location: PartitionLocation,
    pub data: Bytes,
}

/// Whether a part is compressed data for a location.
pub open spec fn part_of(part: MergedPart, loc: LocationModel, codec: CompressionCodec, data: Seq<u8>) -> bool {
    part.location.model() == loc && compression::packs(codec, data, buffers::octets(part.data))
}

/// Whether the parts are those of the items, in their order. An item without a location is
/// left out.
pub open spec fn parts_of(
    parts: Seq<MergedPart>,
    items: Seq<(i32, Vec<u8>)>,
    shuffles: Map<i32, ShuffleModel>,
    shuffle_id: i32,
    codec: CompressionCodec,
) -> bool
    decreases items.len(),
{
    if items.len() == 0 {
        parts.len() == 0
    } else {
        match lifecycle::lookup(shuffles, shuffle_id, items.last().0) {
            Ok(found) => if found.len() > 0 {
                &&& parts.len() > 0
                &&& part_of(parts.last(), found[0], codec, items.last().1@)
                &&& parts_of(parts.drop_last(), items.drop_last(), shuffles, shuffle_id, codec)
            } else {
                parts_of(parts, items.drop_last(), shuffles, shuffle_id, codec)
            },
            Err(_) => false,
        }
    }
}

/// Whether `e` is the error of the first item that cannot be merged: its partition is not
/// known, or its data cannot be compressed.
pub open spec fn merge_fails(
    e: CelebornError,
    items: Seq<(i32, Vec<u8>)>,
    shuffles: Map<i32, ShuffleModel>,
    shuffle_id: i32,
    codec: CompressionCodec,
) -> bool
    decreases items.len(),
{
    if items.len() == 0 {
        false
    } else {
        match lifecycle::lookup(shuffles, shuffle_id, items[0].0) {
            Ok(found) => if found.len() > 0 && compression::pack_fault(codec, items[0].1@) is Some {
                compression::is_pack_error(e, codec, items[0].1@)
            } else {
                merge_fails(e, items.drop_first(), shuffles, shuffle_id, codec)
            },
            Err(lifecycle::Missing::Shuffle) => e == CelebornError::ShuffleNotFound(shuffle_id),
            Err(lifecycle::Missing::Partition) => e == (CelebornError::PartitionNotFound {
                shuffle_id,
                partition_id: items[0].0,
            }),
        }
    }
}

/// Where a part is to be pushed.
pub open spec fn part_address(p: MergedPart) -> Seq<char> {
    text::address_text(p.location.host@, p.location.push_port as int)
}

/// The parts for an address, in their order.
pub open spec fn at_address(parts: Seq<MergedPart>, address: Seq<char>) -> Seq<MergedPart>
    decreases parts.len(),
{
    if parts.len() == 0 {
        Seq::<MergedPart>::empty()
    } else if part_address(parts.last()) == address {
        at_address(parts.drop_last(), address).push(parts.last())
    } else {
        at_address(parts.drop_last(), address)
    }
}

/// Whether the groups hold the parts of each address.
pub open spec fn grouped_by_address(
    groups: Map<Seq<char>, Vec<MergedPart>>,
    parts: Seq<MergedPart>,
) -> bool {
    forall|a: Seq<char>|
        #![trigger groups.dom().contains(a)]
        groups.dom().contains(a) == (at_address(parts, a).len() > 0) && (groups.dom().contains(a)
            ==> groups[a]@ == at_address(parts, a))
}

/// The data of the parts, one after the other.
pub open spec fn merged_data(parts: Seq<MergedPart>) -> Seq<u8>
    decreases parts.len(),
{
    if parts.len() == 0 {
        Seq::<u8>::empty()
    } else {
        merged_data(parts.drop_last()) + buffers::octets(parts.last().data)
    }
}

/// The shuffles after several partitions got data.
pub open spec fn with_all_data(m: Map<i32, ShuffleModel>, shuffle_id: i32, ids: Seq<String>) -> Map<
    i32,
    ShuffleModel,
>
    decreases ids.len(),
{
    if ids.len() == 0 {
        m
    } else {
        with_data(with_all_data(m, shuffle_id, ids.drop_last()), shuffle_id, ids.last()@)
    }
}

impl DataPusher {
    /// Compresses the data of several partitions for their locations.
    pub fn merged_parts(
        &self,
        manager: &LifecycleManager,
        shuffle_id: i32,
        partition_data: &Vec<(i32, Vec<u8>)>,
    ) -> (r: Result<Vec<MergedPart>>)
        requires
            forall|i: int|
                0 <= i < partition_data@.len() ==> compression::can_compress(
                    self.config.compression_codec,
                    (#[trigger] partition_data@[i]).1@.len(),
                ),
        ensures
            match r {
                Ok(parts) => parts_of(
                    parts@,
                    partition_data@,
                    manager.model(),
                    shuffle_id,
                    self.config.compression_codec,
                ),
                Err(e) => merge_fails(
                    e,
                    partition_data@,
                    manager.model(),
                    shuffle_id,
                    self.config.compression_codec,
                ),
            },
    {
        let ghost m = manager.model();
        let ghost items = partition_data@;
        let n: usize = partition_data.len();
        let mut parts: Vec<MergedPart> = Vec::new();
        let mut i: usize = 0;
        assert(items.take(0) =~= Seq::<(i32, Vec<u8>)>::empty());
        assert(items.skip(0) =~= items);
        while i < n
            invariant
                n == items.len(),
                items == partition_data@,
                m == manager.model(),
                i <= n,
                parts_of(
                    parts@,
                    items.take(i as int),
                    m,
                    shuffle_id,
                    self.config.compression_codec,
                ),
                forall|e: CelebornError| #[trigger]
                    merge_fails(e, items, m, shuffle_id, self.config.compression_codec)
                        == merge_fails(
                        e,
                        items.skip(i as int),
                        m,
                        shuffle_id,
                        self.config.compression_codec,
                    ),
                forall|k: int|
                    0 <= k < items.len() ==> compression::can_compress(
                        self.config.compression_codec,
                        (#[trigger] items[k]).1@.len(),
                    ),
            decreases n - i,
        {
            proof {
                let t = items.take(i + 1);
                assert(t.drop_last() =~= items.take(i as int));
                assert(t.last() == items[i as int]);
                assert(items.skip(i as int).drop_first() =~= items.skip(i + 1));
                assert(items.skip(i as int)[0] == items[i as int]);
            }
            let found: Vec<PartitionLocation> = match manager.get_partition_location(
                shuffle_id,
                partition_data[i].0,
            ) {
                Ok(v) => v,
                Err(e) => {
                    return Err(e);
                },
            };
            if found.len() > 0 {
                let packed: Vec<u8> = match self.compress_data(partition_data[i].1.as_slice()) {
                    Ok(v) => v,
                    Err(e) => {
                        return Err(e);
                    },
                };
                let ghost before = parts@;
                parts.push(
                    MergedPart {
                        location: found[0].clone(),
                        data: buffers::bytes_from_vec(packed),
                    },
                );
                assert(parts@.drop_last() =~= before);
            }
            i += 1;
        }
        assert(items.take(n as int) =~= items);
        Ok(parts)
    }

    /// Push merged data to multiple partitions: the parts that each worker is to be sent, by
    /// its address.
    pub fn push_merged_data(
        &self,
        manager: &LifecycleManager,
        shuffle_id: i32,
        partition_data: &Vec<(i32, Vec<u8>)>,
    ) -> (r: Result<StringMap<Vec<MergedPart>>>)
        requires
            forall|i: int|
                0 <= i < partition_data@.len() ==> compression::can_compress(
                    self.config.compression_codec,
                    (#[trigger] partition_data@[i]).1@.len(),
                ),
        ensures
            self.merges(r, manager, shuffle_id, partition_data@),
    {
        match self.merged_parts(manager, shuffle_id, partition_data) {
            Ok(parts) => {
                let ghost all = parts@;
                let groups: StringMap<Vec<MergedPart>> = Self::by_worker(parts);
                assert(parts_of(
                    all,
                    partition_data@,
                    manager.model(),
                    shuffle_id,
                    self.config.compression_codec,
                ) && grouped_by_address(groups@, all));
                Ok(groups)
            },
            Err(e) => Err(e),
        }
    }

    /// Whether `r` groups the parts of the items by address, or reports why it cannot: a
    /// partition that is not known, or data that could not be compressed.
    pub open spec fn merges(
        &self,
        r: Result<StringMap<Vec<MergedPart>>>,
        manager: &LifecycleManager,
        shuffle_id: i32,
        items: Seq<(i32, Vec<u8>)>,
    ) -> bool {
        match r {
            Ok(groups) => groups.wf() && exists|parts: Seq<MergedPart>|
                parts_of(
                    parts,
                    items,
                    manager.model(),
                    shuffle_id,
                    self.config.compression_codec,
                ) && #[trigger] grouped_by_address(groups@, parts),
            Err(e) => merge_fails(
                e,
                items,
                manager.model(),
                shuffle_id,
                self.config.compression_codec,
            ),
        }
    }

    /// Groups the parts by the worker that they go to.
    pub fn by_worker(parts: Vec<MergedPart>) -> (r: StringMap<Vec<MergedPart>>)
        ensures
            r.wf(),
            grouped_by_address(r@, parts@),
    {
        let ghost all = parts@;
        let mut rest: Vec<MergedPart> = parts;
        let n: usize = rest.len();
        let mut groups: StringMap<Vec<MergedPart>> = StringMap::new();
        let mut i: usize = 0;
        while i < n
            invariant
                n == all.len(),
                i <= n,
                rest@ == all.skip(i as int),
                groups.wf(),
                grouped_by_address(groups@, all.take(i as int)),
            decreases n - i,
        {
            let ghost groups0 = groups@;
            let ghost before = all.take(i as int);
            let ghost t = all.take(i + 1);
            let part: MergedPart = rest.remove(0);
            proof {
                assert(rest@ =~= all.skip(i + 1));
                assert(t.drop_last() =~= before);
                assert(t.last() == part);
            }
            let address: String = part.location.push_address();
            let ghost key = address@;
            assert(groups0.dom().contains(key) == (at_address(before, key).len() > 0));
            let mut list: Vec<MergedPart> = match groups.remove(address.as_str()) {
                Some(v) => v,
                None => Vec::new(),
            };
            assert(list@ =~= at_address(before, key));
            list.push(part);
            let ghost stored_list = list;
            groups.insert(address, list);
            proof {
                assert(groups@ =~= groups0.insert(key, stored_list));
                assert forall|a: Seq<char>|
                    #![trigger groups@.dom().contains(a)]
                    groups@.dom().contains(a) == (at_address(t, a).len() > 0) && (
                    groups@.dom().contains(a) ==> groups@[a]@ == at_address(t, a)) by {
                    assert(groups0.dom().contains(a) == (at_address(before, a).len() > 0));
                    if a == key {
                        assert(stored_list@ =~= at_address(t, a));
                    }
                }
            }
            i += 1;
        }
        assert(all.take(n as int) =~= all);
        groups
    }

    /// The message that pushes all parts together.
    pub open spec fn merges_into(
        request_id: i64,
        shuffle_key: &str,
        parts: &Vec<MergedPart>,
        r: PushMergedData,
    ) -> bool {
        &&& r.request_id == request_id
        &&& r.mode == protocol::mode_code(parts@[0].location.mode) as u8
        &&& r.shuffle_key@ == shuffle_key@
        &&& r.partition_unique_ids@.len() == parts@.len()
        &&& forall|k: int|
            0 <= k < parts@.len() ==> (#[trigger] r.partition_unique_ids@[k])@
                == protocol::unique_id_text(parts@[k].location.id, parts@[k].location.epoch)
        &&& r.batch_offsets@.len() == parts@.len() + 1
        &&& forall|k: int|
            0 <= k <= parts@.len() ==> #[trigger] r.batch_offsets@[k] == wire::signed32(
                merged_data(parts@.take(k)).len(),
            )
        &&& buffers::octets(r.body) == merged_data(parts@)
    }

    /// The message of a merged push. Offset `k` is where the data of part `k` begins; the
    /// last one is the length of all data.
    pub fn merged_message(request_id: i64, shuffle_key: &str, parts: &Vec<MergedPart>) -> (r:
        PushMergedData)
        requires
            parts@.len() > 0,
        ensures
            Self::merges_into(request_id, shuffle_key, parts, r),
    {
        let mode: u8 = parts[0].location.mode.code() as u8;
        let n: usize = parts.len();
        let mut partition_unique_ids: Vec<String> = Vec::new();
        let mut batch_offsets: Vec<i32> = Vec::new();
        let mut combined: Vec<u8> = Vec::new();
        batch_offsets.push(0);
        let mut i: usize = 0;
        assert(parts@.take(0) =~= Seq::<MergedPart>::empty());
        while i < n
            invariant
                n == parts@.len(),
                i <= n,
                partition_unique_ids@.len() == i,
                forall|k: int|
                    0 <= k < i ==> (#[trigger] partition_unique_ids@[k])@ == protocol::unique_id_text(
                        parts@[k].location.id,
                        parts@[k].location.epoch,
                    ),
                batch_offsets@.len() == i + 1,
                forall|k: int|
                    0 <= k <= i ==> #[trigger] batch_offsets@[k] == wire::signed32(
                        merged_data(parts@.take(k)).len(),
                    ),
                combined@ == merged_data(parts@.take(i as int)),
            decreases n - i,
        {
            proof {
                let t = parts@.take(i + 1);
                assert(t.drop_last() =~= parts@.take(i as int));
                assert(t.last() == parts@[i as int]);
            }
            partition_unique_ids.push(parts[i].location.unique_id());
            combined.extend_from_slice(buffers::bytes_as_slice(&parts[i].data));
            batch_offsets.push(wire::wire_len(combined.len()));
            i += 1;
        }
        assert(parts@.take(n as int) =~= parts@);
        PushMergedData {
            request_id,
            mode,
            shuffle_key: shuffle_key.to_owned(),
            partition_unique_ids,
            batch_offsets,
            body: buffers::bytes_from_vec(combined),
        }
    }

    /// The frame that carries a merged push: the encoded message, and the data once more as
    /// the body of the frame.
    pub fn merged_frame(message: &PushMergedData) -> (r: Frame)
        requires
            message.wire().len() <= isize::MAX,
        ensures
            r@ == (FrameModel {
                message_type: MessageType::PushMergedData,
                message: message.wire(),
                body: buffers::octets(message.body),
            }),
    {
        Frame::with_body(
            MessageType::PushMergedData,
            buffers::buffer_freeze(message.encode_to_bytes()),
            buffers::bytes_clone(&message.body),
        )
    }

    /// Records a merged push that was sent: the bytes, and that the partitions have data.
    pub fn merged_data_pushed(manager: &mut LifecycleManager, message: &PushMergedData)
        ensures
            final(manager).total_written == old(manager).total_written.wrapping_add(
                wire::signed64(buffers::octets(message.body).len()),
            ),
            final(manager).model() == with_all_data(
                old(manager).model(),
                text::key_shuffle(message.shuffle_key@),
                message.partition_unique_ids@,
            ),
            final(manager).config == old(manager).config,
            final(manager).file_count == old(manager).file_count,
            final(manager).running == old(manager).running,
            final(manager).excluded_workers == old(manager).excluded_workers,
            final(manager).ended_mappers == old(manager).ended_mappers,
    {
        manager.add_bytes_written(wire::to_signed64(buffers::bytes_len(&message.body) as u64));
        let ghost start = manager.model();
        let ghost written = manager.total_written;
        let shuffle_id: i32 = text::shuffle_of_key(message.shuffle_key.as_str());
        let ids: &Vec<String> = &message.partition_unique_ids;
        let n: usize = ids.len();
        let mut i: usize = 0;
        assert(ids@.take(0) =~= Seq::<String>::empty());
        assert(start =~= old(manager).model());
        while i < n
            invariant
                n == ids@.len(),
                i <= n,
                manager.total_written == written,
                manager.config == old(manager).config,
                manager.file_count == old(manager).file_count,
                manager.running == old(manager).running,
                manager.excluded_workers == old(manager).excluded_workers,
                manager.ended_mappers == old(manager).ended_mappers,
                manager.model() == with_all_data(start, shuffle_id, ids@.take(i as int)),
            decreases n - i,
        {
            proof {
                let t = ids@.take(i + 1);
                assert(t.drop_last() =~= ids@.take(i as int));
                assert(t.last() == ids@[i as int]);
            }
            manager.add_partition_data_pushed(shuffle_id, ids[i].as_str());
            i += 1;
        }
        assert(ids@.take(n as int) =~= ids@);
    }
}

} // verus!
