//! Pushing data: what a push sends, to whom, and what becomes of it.

use vstd::prelude::*;

use crate::buffers;
use crate::client::compression;
use crate::client::lifecycle;
use crate::client::lifecycle::{LifecycleManager, ShuffleModel};
use crate::client::push;
use crate::client::push::{
    DataPusher, MergedPart, Prepared, PushAction, PushCall, PushEvent, PushJob, PushModel, PushRules,
    PushStage, World,
};
use crate::config::{CelebornConfig, CompressionCodec};
use crate::error::{CelebornError, StatusCode};
use crate::laws::layout;
use crate::protocol::batch_header;
use crate::protocol::message::{PushData, PushMergedData};
use crate::protocol::{Encodable, LocationModel};
use crate::text;
use crate::wire;

verus! {

/// Whether bytes are the batch of a push: the mapper, the attempt, the number of the batch and
/// the size of what follows, each in four bytes with the lowest first, and then data that
/// unpacks to what was pushed.
pub open spec fn is_batch_of(
    body: Seq<u8>,
    job: PushJob,
    batch_id: i32,
    codec: CompressionCodec,
) -> bool {
    let packed = body.skip(16);
    &&& body.len() >= 16
    &&& layout::with_sign32(layout::little32(body, 0)) == job.map_id
    &&& layout::with_sign32(layout::little32(body, 4)) == job.attempt_id
    &&& layout::with_sign32(layout::little32(body, 8)) == batch_id
    &&& layout::little32(body, 12) == packed.len() % 0x1_0000_0000
    &&& batch_header::header_le(body).map_id == job.map_id
    &&& batch_header::header_le(body).attempt_id == job.attempt_id
    &&& batch_header::header_le(body).batch_id == batch_id
    &&& packed.len() <= i32::MAX ==> batch_header::header_le(body).compressed_size == packed.len()
    &&& (codec is Uncompressed ==> packed == job.data@)
    &&& (codec is Zstd ==> compression::zstd_packed(job.data@, 3) == Ok::<Seq<u8>, Seq<char>>(
        packed,
    ))
    &&& ((codec is Lz4 ==> job.data@.len() <= u32::MAX) ==> compression::unpacked(codec, packed)
        == Ok::<Seq<u8>, Seq<char>>(job.data@) && compression::batch_unpacked(codec, packed) == Ok::<
        Seq<u8>,
        Seq<char>,
    >(job.data@))
}

/// The name of a shuffle: that of the application and its number.
pub open spec fn shuffle_name(app_id: Seq<char>, shuffle_id: i32) -> Seq<char> {
    app_id + seq!['-'] + text::int_text(shuffle_id as int)
}

/// The name of a location: its partition and its epoch.
pub open spec fn location_name(l: LocationModel) -> Seq<char> {
    text::int_text(l.id as int) + seq!['-'] + text::int_text(l.epoch as int)
}

/// What waits under a name.
pub open spec fn waiting(pending: Map<Seq<char>, PushModel>, name: Seq<char>) -> Seq<u8> {
    if pending.dom().contains(name) {
        pending[name].data
    } else {
        Seq::empty()
    }
}

/// What is sent.
pub open spec fn goes_out(action: PushAction) -> Seq<u8> {
    match action {
        PushAction::Send(c) => buffers::octets(c.data),
        _ => Seq::empty(),
    }
}

/// How a push of a body goes on at a location, under the name of the buffer.
/// - A body that fills a buffer is sent by itself, to the location.
/// - Where it does not fit behind what waits, what waits is sent first, and the body is kept.
/// - Else it is put behind what waits, and all of it is sent once there is a buffer full.
pub open spec fn goes_on(
    rules: PushRules,
    before: World,
    after: World,
    job: PushJob,
    next: PushJob,
    loc: LocationModel,
    body: Seq<u8>,
    action: PushAction,
) -> bool {
    let key = shuffle_name(rules.app_id, job.shuffle_id);
    let name = key + seq!['-'] + location_name(loc);
    let old = waiting(before.pending, name);
    if old.len() > 0 && old.len() + body.len() > rules.buffer_size && (old.len()
        < rules.buffer_size || body.len() > 0) {
        &&& next.stage matches PushStage::MakingRoom(p)
        &&& buffers::octets(p.body) == body
        &&& p.shuffle_key@ == key
        &&& p.partition_unique_id@ == location_name(loc)
        &&& p.location.model() == loc
        &&& p.buffer_key@ == name
        &&& action is Send
        &&& goes_out(action) == old
        &&& waiting(after.pending, name) == Seq::<u8>::empty()
    } else if body.len() >= rules.buffer_size {
        &&& next.stage matches PushStage::Sending(p)
        &&& buffers::octets(p.body) == body
        &&& action matches PushAction::Send(c)
        &&& buffers::octets(c.data) == body
        &&& c.shuffle_key@ == key
        &&& c.partition_unique_id@ == location_name(loc)
        &&& c.location.host@ == loc.host
        &&& c.location.push_port == loc.push_port
        &&& c.location.model() == loc
        &&& waiting(after.pending, name) == old
    } else {
        &&& goes_out(action) + waiting(after.pending, name) == old + body
        &&& if old.len() + body.len() >= rules.buffer_size {
            action is Send && goes_out(action) == old + body && next.stage is Flushing
        } else {
            action == PushAction::Return(Ok(())) && next.stage is Finished
        }
    }
}

/// No buffer but that of the pushed partition changes.
pub open spec fn spares_others(before: World, after: World, name: Seq<char>) -> bool {
    forall|k: Seq<char>| k != name ==> #[trigger] waiting(after.pending, k) == waiting(before.pending, k)
}

/// The header of a batch, digit by digit, and what follows it.
proof fn lemma_header_of_body(map_id: i32, attempt_id: i32, batch_id: i32, packed: Seq<u8>)
    ensures
        ({
            let body = push::batch_body(map_id, attempt_id, batch_id, packed);
            let h = batch_header::header_le(body);
            &&& body.len() == 16 + packed.len()
            &&& body.skip(16) == packed
            &&& layout::with_sign32(layout::little32(body, 0)) == map_id
            &&& layout::with_sign32(layout::little32(body, 4)) == attempt_id
            &&& layout::with_sign32(layout::little32(body, 8)) == batch_id
            &&& layout::with_sign32(layout::little32(body, 12)) == wire::signed32(packed.len())
            &&& h.map_id == map_id
            &&& h.attempt_id == attempt_id
            &&& h.batch_id == batch_id
            &&& h.compressed_size == wire::signed32(packed.len())
        }),
{
    let body = push::batch_body(map_id, attempt_id, batch_id, packed);
    let written = batch_header::BatchHeader {
        map_id,
        attempt_id,
        batch_id,
        compressed_size: wire::signed32(packed.len()),
    };
    layout::law_batch_header_layout(written);
    batch_header::law_header_le_round_trip(written, packed);
    let w = batch_header::wire_le(written);
    assert(body == w + packed);
    assert(body.skip(16) =~= packed);
}

pub(crate) proof fn lemma_body_is_batch(
    job: PushJob,
    batch_id: i32,
    codec: CompressionCodec,
    packed: Seq<u8>,
)
    requires
        compression::packs(codec, job.data@, packed),
    ensures
        is_batch_of(
            push::batch_body(job.map_id, job.attempt_id, batch_id, packed),
            job,
            batch_id,
            codec,
        ),
{
    lemma_header_of_body(job.map_id, job.attempt_id, batch_id, packed);
    let body = push::batch_body(job.map_id, job.attempt_id, batch_id, packed);
    let x = layout::little32(body, 12);
    assert(0 <= x < 0x1_0000_0000);
    if codec is Lz4 ==> job.data@.len() <= u32::MAX {
        compression::law_packed_data_is_given_back(codec, job.data@, packed);
    }
}

/// Data that is pushed to a partition is the batch of its mapper and attempt, with the next
/// number of the partition, and goes to the first location of the partition: by itself, or
/// behind what waits for that location. Data that cannot be compressed ends the push, and
/// nothing is sent or kept of it.
pub proof fn law_push_sends_the_batch_of_its_job(
    rules: PushRules,
    before: World,
    after: World,
    job: PushJob,
    next: PushJob,
    action: PushAction,
)
    requires
        push::pushed_on(rules, before, after, job, PushEvent::Begin, next, action),
        job.stage is Start,
        lifecycle::lookup(before.shuffles, job.shuffle_id, job.partition_id) is Ok,
        lifecycle::lookup(before.shuffles, job.shuffle_id, job.partition_id)->Ok_0.len() > 0,
        forall|k: Seq<char>| #[trigger]
            before.pending.dom().contains(k) ==> before.pending[k].data.len() < rules.buffer_size,
        compression::pack_fault(rules.codec, job.data@) is None,
    ensures
        ({
            let loc = lifecycle::lookup(before.shuffles, job.shuffle_id, job.partition_id)->Ok_0[0];
            let n = lifecycle::batch_counter(before.shuffles, job.shuffle_id, job.partition_id);
            let name = shuffle_name(rules.app_id, job.shuffle_id) + seq!['-'] + location_name(loc);
            &&& exists|body: Seq<u8>| #[trigger]
                is_batch_of(body, job, n, rules.codec) && goes_on(
                    rules,
                    before,
                    after,
                    job,
                    next,
                    loc,
                    body,
                    action,
                )
            &&& spares_others(before, after, name)
            &&& n < i32::MAX ==> lifecycle::batch_counter(
                after.shuffles,
                job.shuffle_id,
                job.partition_id,
            ) == n + 1
        }),
{
    let loc = lifecycle::lookup(before.shuffles, job.shuffle_id, job.partition_id)->Ok_0[0];
    lemma_placed(rules, before, after, job, next, loc, action);
}

/// The same holds of data for a partition that had to be located first: it goes to the location
/// that was found.
pub proof fn law_located_push_sends_the_batch_of_its_job(
    rules: PushRules,
    before: World,
    after: World,
    job: PushJob,
    l: crate::protocol::PartitionLocation,
    next: PushJob,
    action: PushAction,
)
    requires
        push::pushed_on(rules, before, after, job, PushEvent::Revived(Ok(l)), next, action),
        job.stage is Locating,
        before.shuffles.dom().contains(job.shuffle_id),
        forall|k: Seq<char>| #[trigger]
            before.pending.dom().contains(k) ==> before.pending[k].data.len() < rules.buffer_size,
        compression::pack_fault(rules.codec, job.data@) is None,
    ensures
        ({
            let loc = l.model();
            let n = lifecycle::batch_counter(before.shuffles, job.shuffle_id, job.partition_id);
            &&& loc.host == l.host@
            &&& loc.push_port == l.push_port
            &&& exists|body: Seq<u8>| #[trigger]
                is_batch_of(body, job, n, rules.codec) && goes_on(
                    rules,
                    before,
                    after,
                    job,
                    next,
                    loc,
                    body,
                    action,
                )
        }),
{
    lemma_placed(rules, before, after, job, next, l.model(), action);
}

proof fn lemma_placed(
    rules: PushRules,
    before: World,
    after: World,
    job: PushJob,
    next: PushJob,
    loc: LocationModel,
    action: PushAction,
)
    requires
        push::placed(rules, before, after, job, next, loc, action),
        before.shuffles.dom().contains(job.shuffle_id),
        forall|k: Seq<char>| #[trigger]
            before.pending.dom().contains(k) ==> before.pending[k].data.len() < rules.buffer_size,
        compression::pack_fault(rules.codec, job.data@) is None,
    ensures
        ({
            let n = lifecycle::batch_counter(before.shuffles, job.shuffle_id, job.partition_id);
            let name = shuffle_name(rules.app_id, job.shuffle_id) + seq!['-'] + location_name(loc);
            &&& exists|body: Seq<u8>| #[trigger]
                is_batch_of(body, job, n, rules.codec) && goes_on(
                    rules,
                    before,
                    after,
                    job,
                    next,
                    loc,
                    body,
                    action,
                )
            &&& spares_others(before, after, name)
            &&& n < i32::MAX ==> lifecycle::batch_counter(
                after.shuffles,
                job.shuffle_id,
                job.partition_id,
            ) == n + 1
        }),
{
    let n = lifecycle::batch_counter(before.shuffles, job.shuffle_id, job.partition_id);
    let counted = lifecycle::counted(before.shuffles, job.shuffle_id, job.partition_id);
    lifecycle::law_batch_ids_count_up(before.shuffles, job.shuffle_id, job.partition_id);
    let p = choose|p: Prepared| #[trigger]
        push::prepared_for(p, rules, push::unstarted(job), loc, n) && if push::crowded(
            before.pending,
            p,
            rules,
        ) {
            let emptied = World {
                pending: before.pending.remove(p.buffer_key@),
                shuffles: counted,
            };
            match push::flushed(before.pending, p.buffer_key@) {
                Some(m) => {
                    &&& after == emptied
                    &&& next == (PushJob { stage: PushStage::MakingRoom(p), ..job })
                    &&& action matches PushAction::Send(c)
                    &&& c@ == m
                },
                None => push::dispatched(rules, emptied, after, job, next, p, action),
            }
        } else {
            push::dispatched(
                rules,
                World { shuffles: counted, ..before },
                after,
                job,
                next,
                p,
                action,
            )
        };
    lemma_goes_on(rules, before, after, job, next, loc, p, n, action);
    let body = buffers::octets(p.body);
    let packed = choose|packed: Seq<u8>| #[trigger]
        compression::packs(rules.codec, job.data@, packed) && body == push::batch_body(
            job.map_id,
            job.attempt_id,
            n,
            packed,
        );
    lemma_body_is_batch(job, n, rules.codec, packed);
    assert(is_batch_of(body, job, n, rules.codec));
}

#[verifier::rlimit(40)]
proof fn lemma_goes_on(
    rules: PushRules,
    before: World,
    after: World,
    job: PushJob,
    next: PushJob,
    loc: LocationModel,
    p: Prepared,
    n: i32,
    action: PushAction,
)
    requires
        push::prepared_for(p, rules, push::unstarted(job), loc, n),
        forall|k: Seq<char>| #[trigger]
            before.pending.dom().contains(k) ==> before.pending[k].data.len() < rules.buffer_size,
        ({
            let counted = lifecycle::counted(before.shuffles, job.shuffle_id, job.partition_id);
            let emptied = World {
                pending: before.pending.remove(p.buffer_key@),
                shuffles: counted,
            };
            if push::crowded(before.pending, p, rules) {
                match push::flushed(before.pending, p.buffer_key@) {
                    Some(m) => {
                        &&& after == emptied
                        &&& next == (PushJob { stage: PushStage::MakingRoom(p), ..job })
                        &&& action matches PushAction::Send(c)
                        &&& c@ == m
                    },
                    None => push::dispatched(rules, emptied, after, job, next, p, action),
                }
            } else {
                push::dispatched(
                    rules,
                    World { shuffles: counted, ..before },
                    after,
                    job,
                    next,
                    p,
                    action,
                )
            }
        }),
    ensures
        goes_on(rules, before, after, job, next, loc, buffers::octets(p.body), action),
        spares_others(
            before,
            after,
            shuffle_name(rules.app_id, job.shuffle_id) + seq!['-'] + location_name(loc),
        ),
        after.shuffles == lifecycle::counted(before.shuffles, job.shuffle_id, job.partition_id),
{
    let body = buffers::octets(p.body);
    let name = p.buffer_key@;
    let key = shuffle_name(rules.app_id, job.shuffle_id);
    assert(name =~= key + seq!['-'] + location_name(loc));
    let old = waiting(before.pending, name);
    if push::crowded(before.pending, p, rules) && old.len() > 0 {
        assert(goes_on(rules, before, after, job, next, loc, body, action));
    } else if body.len() >= rules.buffer_size {
        assert(action is Send);
        let c = action->Send_0;
        assert(c@ == push::prepared_call(p));
        assert(c@.data == buffers::octets(c.data));
        assert(c@.location == c.location.model());
        assert(c.location.host@ == loc.host);
        assert(waiting(after.pending, name) == old);
        assert(next.stage == PushStage::Sending(p));
        assert(goes_on(rules, before, after, job, next, loc, body, action));
    } else {
        assert(!(old.len() > 0 && old.len() + body.len() > rules.buffer_size));
        let filled = if push::crowded(before.pending, p, rules) {
            push::stored(before.pending.remove(name), p)
        } else {
            push::stored(before.pending, p)
        };
        assert(filled[name].data =~= old + body);
        assert(goes_out(action) + waiting(after.pending, name) =~= old + body);
        if old.len() + body.len() >= rules.buffer_size {
            assert(action is Send);
            assert(goes_out(action) == old + body);
            assert(next.stage is Flushing);
        } else {
            assert(action == PushAction::Return(Ok(())));
            assert(next.stage is Finished);
        }
        assert(goes_on(rules, before, after, job, next, loc, body, action));
    }
}

/// Once what waited has been sent, the body that was kept goes on as if nothing had waited.
pub proof fn law_kept_body_goes_on(
    rules: PushRules,
    before: World,
    after: World,
    job: PushJob,
    p: Prepared,
    next: PushJob,
    action: PushAction,
)
    requires
        push::pushed_on(rules, before, after, job, PushEvent::Sent(Ok(())), next, action),
        job.stage == PushStage::MakingRoom(p),
    ensures
        ({
            let body = buffers::octets(p.body);
            let name = p.buffer_key@;
            let old = waiting(before.pending, name);
            &&& after.shuffles == before.shuffles
            &&& spares_others(before, after, name)
            &&& if body.len() >= rules.buffer_size {
                &&& next.stage == PushStage::Sending(p)
                &&& action is Send
                &&& goes_out(action) == body
                &&& action->Send_0.location.model() == p.location.model()
                &&& action->Send_0.shuffle_key@ == p.shuffle_key@
                &&& action->Send_0.partition_unique_id@ == p.partition_unique_id@
                &&& waiting(after.pending, name) == old
            } else {
                &&& goes_out(action) + waiting(after.pending, name) == old + body
                &&& action is Send <==> old.len() + body.len() >= rules.buffer_size
                &&& !(action is Send) ==> action == PushAction::Return(Ok(()))
            }
        }),
{
    let body = buffers::octets(p.body);
    let name = p.buffer_key@;
    let old = waiting(before.pending, name);
    if body.len() < rules.buffer_size {
        let filled = push::stored(before.pending, p);
        assert(filled[name].data =~= old + body);
        assert(goes_out(action) + waiting(after.pending, name) =~= old + body);
    }
}

/// A push to a partition without a location asks for one, where pushes are revived: from
/// before the first epoch, without an old location. Else it fails, naming the partition.
pub proof fn law_push_without_location(
    rules: PushRules,
    before: World,
    after: World,
    job: PushJob,
    next: PushJob,
    action: PushAction,
)
    requires
        push::pushed_on(rules, before, after, job, PushEvent::Begin, next, action),
        job.stage is Start,
        !before.shuffles.dom().contains(job.shuffle_id)
            || !before.shuffles[job.shuffle_id].locations.dom().contains(job.partition_id)
            || before.shuffles[job.shuffle_id].locations[job.partition_id].len() == 0,
    ensures
        after == before,
        rules.revives ==> action == PushAction::Revive(
            -1i32,
            None,
            StatusCode::PushDataFailNonCriticalCause,
        ) && next.stage is Locating,
        !rules.revives ==> action == PushAction::Return(
            Err(
                CelebornError::PartitionNotFound {
                    shuffle_id: job.shuffle_id,
                    partition_id: job.partition_id,
                },
            ),
        ),
{
}

/// Whether a failure may pass when the push is tried again: a lost connection, a timeout, a
/// worker that is not there, or a push that the worker refused.
pub open spec fn may_pass(e: CelebornError) -> bool {
    match e {
        CelebornError::Connection(_) => true,
        CelebornError::Timeout(_) => true,
        CelebornError::WorkerUnavailable { .. } => true,
        CelebornError::PushFailed(_) => true,
        _ => false,
    }
}

/// A push that was sent and failed is given up with its error where the failure will not pass
/// or no retry is left. Else, where pushes are revived, a new location is asked for: in place of
/// the one that failed, for the cause that the failure has.
pub proof fn law_failed_push_is_revived_or_given_up(
    rules: PushRules,
    before: World,
    after: World,
    job: PushJob,
    p: Prepared,
    e: CelebornError,
    next: PushJob,
    action: PushAction,
)
    requires
        push::pushed_on(rules, before, after, job, PushEvent::Sent(Err(e)), next, action),
        job.stage == PushStage::Sending(p),
    ensures
        !may_pass(e) || job.retry_count >= rules.max_retries ==> action == PushAction::Return(Err(e))
            && next.stage is Finished && after == before,
        may_pass(e) && job.retry_count < rules.max_retries && rules.revives ==> {
            &&& after == before
            &&& next.stage == PushStage::Reviving(p, e)
            &&& next.retry_count == job.retry_count
            &&& action matches PushAction::Revive(epoch, Some(old), cause)
            &&& epoch == p.location.epoch
            &&& old.model() == p.location.model()
            &&& e is Connection ==> cause == StatusCode::PushDataCreateConnectionFailPrimary
            &&& e is Timeout ==> cause == StatusCode::PushDataTimeoutPrimary
            &&& !(e is Connection) && !(e is Timeout) ==> cause
                == StatusCode::PushDataWriteFailPrimary
        },
        may_pass(e) && job.retry_count < rules.max_retries && !rules.revives ==> next.retry_count
            == job.retry_count + 1,
{
}

/// A push that was revived sends the same bytes to the new location, under its name.
pub proof fn law_revived_push_sends_the_same_bytes(
    rules: PushRules,
    before: World,
    after: World,
    job: PushJob,
    p: Prepared,
    e: CelebornError,
    l: crate::protocol::PartitionLocation,
    next: PushJob,
    action: PushAction,
)
    requires
        push::pushed_on(rules, before, after, job, PushEvent::Revived(Ok(l)), next, action),
        job.stage == PushStage::Reviving(p, e),
    ensures
        after == before,
        action matches PushAction::Send(c) && buffers::octets(c.data) == buffers::octets(p.body)
            && c.location.model() == l.model() && c.shuffle_key@ == p.shuffle_key@
            && c.partition_unique_id@ == location_name(l.model()),
        next.stage is Resending,
        next.retry_count == job.retry_count,
{
}

/// A push that could not be revived, or failed once more, is begun anew, with one retry more,
/// or given up with the error of the push.
pub proof fn law_push_is_tried_again_or_given_up(
    rules: PushRules,
    before: World,
    after: World,
    job: PushJob,
    event: PushEvent,
    e: CelebornError,
    next: PushJob,
    action: PushAction,
)
    requires
        push::pushed_on(rules, before, after, job, event, next, action),
        (job.stage is Reviving && job.stage->Reviving_1 == e && event matches PushEvent::Revived(
            Err(_),
        )) || (job.stage is Resending && event == PushEvent::Sent(Err(e))),
    ensures
        !may_pass(e) || job.retry_count >= rules.max_retries ==> action == PushAction::Return(Err(e))
            && next.stage is Finished && after == before,
        may_pass(e) && job.retry_count < rules.max_retries ==> push::pushed_on(
            rules,
            before,
            after,
            PushJob {
                retry_count: (job.retry_count + 1) as u32,
                stage: PushStage::Start,
                ..job
            },
            PushEvent::Begin,
            next,
            action,
        ),
{
    if may_pass(e) && job.retry_count < rules.max_retries {
        let again = PushJob { retry_count: (job.retry_count + 1) as u32, ..job };
        let anew = PushJob { stage: PushStage::Start, ..again };
        assert(push::unstarted(again) == push::unstarted(anew));
        assert(push::begun(rules, before, after, again, next, action));
        match lifecycle::lookup(before.shuffles, job.shuffle_id, job.partition_id) {
            Ok(found) => {
                if found.len() > 0 {
                    lemma_stage_does_not_matter(rules, before, after, again, anew, next, found[0], action);
                }
            },
            Err(_) => {},
        }
    }
}

proof fn lemma_stage_does_not_matter(
    rules: PushRules,
    before: World,
    after: World,
    again: PushJob,
    anew: PushJob,
    next: PushJob,
    loc: LocationModel,
    action: PushAction,
)
    requires
        push::placed(rules, before, after, again, next, loc, action),
        anew == (PushJob { stage: PushStage::Start, ..again }),
    ensures
        push::placed(rules, before, after, anew, next, loc, action),
{
    let n = lifecycle::batch_counter(before.shuffles, again.shuffle_id, again.partition_id);
    let counted = lifecycle::counted(before.shuffles, again.shuffle_id, again.partition_id);
    assert(push::unstarted(again) == push::unstarted(anew));
    if compression::pack_fault(rules.codec, again.data@) is None {
        let p = choose|p: Prepared| #[trigger]
            push::prepared_for(p, rules, push::unstarted(again), loc, n) && if push::crowded(
                before.pending,
                p,
                rules,
            ) {
                let emptied = World {
                    pending: before.pending.remove(p.buffer_key@),
                    shuffles: counted,
                };
                match push::flushed(before.pending, p.buffer_key@) {
                    Some(m) => {
                        &&& after == emptied
                        &&& next == (PushJob { stage: PushStage::MakingRoom(p), ..again })
                        &&& action matches PushAction::Send(c)
                        &&& c@ == m
                    },
                    None => push::dispatched(rules, emptied, after, again, next, p, action),
                }
            } else {
                push::dispatched(
                    rules,
                    World { shuffles: counted, ..before },
                    after,
                    again,
                    next,
                    p,
                    action,
                )
            };
        assert(push::prepared_for(p, rules, push::unstarted(anew), loc, n));
    }
}

/// A push ends with success once its bytes have arrived, and with the error of a buffer that
/// could not be sent.
pub proof fn law_push_ends_as_its_bytes_did(
    rules: PushRules,
    before: World,
    after: World,
    job: PushJob,
    r: crate::error::Result<()>,
    next: PushJob,
    action: PushAction,
)
    requires
        push::pushed_on(rules, before, after, job, PushEvent::Sent(r), next, action),
        job.stage is Sending || job.stage is Resending || job.stage is Flushing
            || job.stage is MakingRoom,
    ensures
        r is Ok && !(job.stage is MakingRoom) ==> action is Return && action->Return_0 is Ok
            && next.stage is Finished && after == before,
        r is Err && (job.stage is Flushing || job.stage is MakingRoom) ==> action
            == PushAction::Return(r) && next.stage is Finished && after == before,
{
}

/// A pusher goes by its configuration: its codec, buffer size and retries. The application is
/// that of the manager.
pub proof fn law_pusher_goes_by_its_configuration(
    pusher: DataPusher,
    config: CelebornConfig,
    revives: bool,
    manager: &LifecycleManager,
)
    requires
        pusher.starts_from(config, revives),
    ensures
        pusher.rules(manager).app_id == manager.config.app_id@,
        pusher.rules(manager).codec == config.compression_codec,
        pusher.rules(manager).buffer_size == config.push_buffer_size,
        pusher.rules(manager).max_retries == config.max_retries,
        pusher.rules(manager).revives == revives,
        pusher.max_in_flight == config.max_in_flight_requests * 4,
        pusher.push_connection_pool.pool_size == config.connection_pool_size,
        pusher.push_connection_pool.max_in_flight == config.max_in_flight_requests,
        forall|k: Seq<char>| #[trigger]
            waiting(pusher.world(manager).pending, k) == Seq::<u8>::empty(),
        pusher.world(manager).shuffles == manager.model(),
{
}

/// Flushing a buffer gives all that waits under its name, and nothing waits there any more; an
/// empty buffer gives nothing.
pub proof fn law_flush_gives_what_waits(pending: Map<Seq<char>, PushModel>, name: Seq<char>)
    ensures
        waiting(pending, name).len() > 0 ==> push::flushed(pending, name) is Some
            && push::flushed(pending, name)->0 == pending[name] && (push::flushed(
            pending,
            name,
        )->0).data == waiting(pending, name),
        waiting(pending, name).len() == 0 ==> push::flushed(pending, name) is None,
        waiting(pending.remove(name), name) == Seq::<u8>::empty(),
{
}

/// What was pushed under the name of a shuffle and a location is noted with that shuffle, so
/// that the location is committed; nothing else of the shuffle changes, nor any other shuffle.
pub proof fn law_pushed_data_is_noted(
    m: Map<i32, ShuffleModel>,
    app_id: Seq<char>,
    shuffle_id: i32,
    unique_id: Seq<char>,
)
    requires
        m.dom().contains(shuffle_id),
        shuffle_id >= 0,
    ensures
        ({
            let after = push::with_data(
                m,
                text::key_shuffle(shuffle_name(app_id, shuffle_id)),
                unique_id,
            );
            &&& after.dom() == m.dom()
            &&& after[shuffle_id].committed == m[shuffle_id].committed.insert(unique_id)
            &&& after[shuffle_id].locations == m[shuffle_id].locations
            &&& after[shuffle_id].counters == m[shuffle_id].counters
            &&& after[shuffle_id].num_mappers == m[shuffle_id].num_mappers
            &&& forall|other: i32|
                other != shuffle_id && m.dom().contains(other) ==> #[trigger] after[other]
                    == m[other]
        }),
{
    text::law_key_names_its_shuffle(app_id, shuffle_id);
    assert(shuffle_name(app_id, shuffle_id) == text::key_text(app_id, shuffle_id));
    let after = push::with_data(
        m,
        text::key_shuffle(shuffle_name(app_id, shuffle_id)),
        unique_id,
    );
    assert(after.dom() =~= m.dom());
}

/// The parts of a merged push are the items that have a location, in their order: each at the
/// first location of its partition, and packed so that it unpacks to its data. Where every item
/// has a location there is one part for each.
pub proof fn law_parts_are_the_items(
    parts: Seq<MergedPart>,
    items: Seq<(i32, Vec<u8>)>,
    shuffles: Map<i32, ShuffleModel>,
    shuffle_id: i32,
    codec: CompressionCodec,
)
    requires
        push::parts_of(parts, items, shuffles, shuffle_id, codec),
        forall|i: int|
            0 <= i < items.len() ==> locates(shuffles, shuffle_id, (#[trigger] items[i]).0),
    ensures
        parts.len() == items.len(),
        forall|i: int|
            #![trigger parts[i]]
            #![trigger items[i]]
            0 <= i < items.len() ==> {
                let loc = shuffles[shuffle_id].locations[items[i].0][0];
                &&& parts[i].location.model() == loc
                &&& parts[i].location.host@ == loc.host
                &&& parts[i].location.push_port == loc.push_port
                &&& codec is Uncompressed ==> buffers::octets(parts[i].data) == items[i].1@
                &&& (codec is Lz4 ==> items[i].1@.len() <= u32::MAX) ==> compression::unpacked(
                    codec,
                    buffers::octets(parts[i].data),
                ) == Ok::<Seq<u8>, Seq<char>>(items[i].1@)
            },
    decreases items.len(),
{
    if items.len() > 0 {
        assert(locates(shuffles, shuffle_id, items[items.len() - 1].0));
        let before = items.drop_last();
        assert forall|i: int| 0 <= i < before.len() implies locates(
            shuffles,
            shuffle_id,
            (#[trigger] before[i]).0,
        ) by {
            assert(before[i] == items[i]);
        }
        law_parts_are_the_items(parts.drop_last(), before, shuffles, shuffle_id, codec);
        assert forall|i: int| 0 <= i < before.len() implies #[trigger] parts[i]
            == parts.drop_last()[i] && items[i] == before[i] by {}
    }
}

/// Whether a partition of a shuffle has a location.
pub open spec fn locates(shuffles: Map<i32, ShuffleModel>, shuffle_id: i32, id: i32) -> bool {
    &&& shuffles.dom().contains(shuffle_id)
    &&& shuffles[shuffle_id].locations.dom().contains(id)
    &&& shuffles[shuffle_id].locations[id].len() > 0
}

/// Parts are grouped by the address that their worker takes pushes at; each is in the group of
/// its address, and a group has just its parts, in their order and each once.
pub proof fn law_parts_are_grouped_by_address(
    groups: Map<Seq<char>, Vec<MergedPart>>,
    parts: Seq<MergedPart>,
    k: int,
)
    requires
        push::grouped_by_address(groups, parts),
        0 <= k < parts.len(),
    ensures
        ({
            let address = parts[k].location.host@ + seq![':'] + text::int_text(
                parts[k].location.push_port as int,
            );
            &&& groups.dom().contains(address)
            &&& groups[address]@ == parts.filter(
                |p: MergedPart|
                    p.location.host@ + seq![':'] + text::int_text(p.location.push_port as int)
                        == address,
            )
            &&& groups[address]@.contains(parts[k])
        }),
{
    let address = parts[k].location.host@ + seq![':'] + text::int_text(
        parts[k].location.push_port as int,
    );
    let f = |p: MergedPart|
        p.location.host@ + seq![':'] + text::int_text(p.location.push_port as int) == address;
    lemma_at_address(parts, address);
    assert(f(parts[k]));
    parts.lemma_filter_contains(f, k);
    assert(parts.filter(f).contains(parts[k]));
    assert(parts.filter(f).len() > 0);
    assert(groups.dom().contains(address) == (push::at_address(parts, address).len() > 0));
}

proof fn lemma_at_address(parts: Seq<MergedPart>, address: Seq<char>)
    ensures
        push::at_address(parts, address) == parts.filter(
            |p: MergedPart|
                p.location.host@ + seq![':'] + text::int_text(p.location.push_port as int)
                    == address,
        ),
    decreases parts.len(),
{
    reveal(Seq::filter);
    if parts.len() > 0 {
        lemma_at_address(parts.drop_last(), address);
    }
}

/// The data of a merged push is that of its parts, one behind the other: from the offset of a
/// part up to the next one stands the part.
pub proof fn law_part_stands_at_its_offset(parts: Seq<MergedPart>, k: int)
    requires
        0 <= k < parts.len(),
    ensures
        ({
            let from = push::merged_data(parts.take(k)).len() as int;
            let to = push::merged_data(parts.take(k + 1)).len() as int;
            &&& to - from == buffers::octets(parts[k].data).len()
            &&& to <= push::merged_data(parts).len()
            &&& push::merged_data(parts).subrange(from, to) == buffers::octets(parts[k].data)
            &&& push::merged_data(parts.take(0)).len() == 0
        }),
    decreases parts.len(),
{
    let all = push::merged_data(parts);
    let before = parts.drop_last();
    let from = push::merged_data(parts.take(k)).len() as int;
    let to = push::merged_data(parts.take(k + 1)).len() as int;
    assert(parts.take(k + 1).drop_last() =~= parts.take(k));
    assert(parts.take(0) =~= Seq::<MergedPart>::empty());
    if k == parts.len() - 1 {
        assert(parts.take(k + 1) =~= parts);
        assert(before =~= parts.take(k));
        assert(all.subrange(from, to) =~= buffers::octets(parts[k].data));
    } else {
        law_part_stands_at_its_offset(before, k);
        assert(before.take(k) =~= parts.take(k));
        assert(before.take(k + 1) =~= parts.take(k + 1));
        assert(all.subrange(from, to) =~= push::merged_data(before).subrange(from, to));
    }
}

/// A push goes over the wire as a push of data: with the number of the request, the mode of the
/// location, the names of the shuffle and of the partition, and the data.
pub proof fn law_push_is_a_push_message(request_id: i64, c: PushCall, m: PushData)
    requires
        m.request_id == request_id,
        m.mode == (if c.location.mode is Replica {
            1int
        } else {
            0int
        }),
        m.shuffle_key@ == c.shuffle_key@,
        m.partition_unique_id@ == c.partition_unique_id@,
        buffers::octets(m.body) == buffers::octets(c.data),
    ensures
        push::push_message(request_id, c@) == m.wire(),
{
}

/// Whether an item of a merged push cannot be pushed: its partition is not known, or its data
/// cannot be packed.
pub open spec fn is_bad_item(
    item: (i32, Vec<u8>),
    shuffles: Map<i32, ShuffleModel>,
    shuffle_id: i32,
    codec: CompressionCodec,
) -> bool {
    ||| !shuffles.dom().contains(shuffle_id)
    ||| !shuffles[shuffle_id].locations.dom().contains(item.0)
    ||| shuffles[shuffle_id].locations[item.0].len() > 0 && codec is Zstd
        && compression::zstd_packed(item.1@, 3) is Err
}

/// A merged push fails by the first of its items that cannot be pushed, and says which it is.
pub proof fn law_merged_push_fails_by_its_first_bad_item(
    e: CelebornError,
    items: Seq<(i32, Vec<u8>)>,
    shuffles: Map<i32, ShuffleModel>,
    shuffle_id: i32,
    codec: CompressionCodec,
    k: int,
)
    requires
        push::merge_fails(e, items, shuffles, shuffle_id, codec),
        0 <= k < items.len(),
        is_bad_item(items[k], shuffles, shuffle_id, codec),
        forall|j: int|
            0 <= j < k ==> !is_bad_item(#[trigger] items[j], shuffles, shuffle_id, codec),
    ensures
        !shuffles.dom().contains(shuffle_id) ==> e == CelebornError::ShuffleNotFound(shuffle_id),
        shuffles.dom().contains(shuffle_id) && !shuffles[shuffle_id].locations.dom().contains(
            items[k].0,
        ) ==> e == (CelebornError::PartitionNotFound { shuffle_id, partition_id: items[k].0 }),
        shuffles.dom().contains(shuffle_id) && shuffles[shuffle_id].locations.dom().contains(
            items[k].0,
        ) ==> e is Compression,
    decreases items.len(),
{
    if k > 0 {
        assert(!is_bad_item(items[0], shuffles, shuffle_id, codec));
        let rest = items.drop_first();
        assert(rest[k - 1] == items[k]);
        assert forall|j: int| 0 <= j < k - 1 implies !is_bad_item(
            #[trigger] rest[j],
            shuffles,
            shuffle_id,
            codec,
        ) by {
            assert(rest[j] == items[j + 1]);
        }
        law_merged_push_fails_by_its_first_bad_item(e, rest, shuffles, shuffle_id, codec, k - 1);
    }
}

/// A merged push notes all of its partitions for its shuffle, and nothing else.
pub proof fn law_merged_data_is_noted(
    m: Map<i32, ShuffleModel>,
    shuffle_id: i32,
    ids: Seq<String>,
)
    ensures
        ({
            let after = push::with_all_data(m, shuffle_id, ids);
            &&& after.dom() == m.dom()
            &&& forall|s: i32| s != shuffle_id && #[trigger] m.dom().contains(s) ==> after[s] == m[s]
            &&& m.dom().contains(shuffle_id) ==> {
                &&& after[shuffle_id] == (ShuffleModel {
                    committed: after[shuffle_id].committed,
                    ..m[shuffle_id]
                })
                &&& forall|id: Seq<char>| #[trigger]
                    after[shuffle_id].committed.contains(id) <==> m[shuffle_id].committed.contains(
                        id,
                    ) || exists|k: int| 0 <= k < ids.len() && (#[trigger] ids[k])@ == id
            }
        }),
    decreases ids.len(),
{
    if ids.len() > 0 {
        let init = ids.drop_last();
        law_merged_data_is_noted(m, shuffle_id, init);
        let early = push::with_all_data(m, shuffle_id, init);
        let after = push::with_all_data(m, shuffle_id, ids);
        assert(after.dom() =~= m.dom());
        assert(ids.last() == ids[ids.len() - 1]);
        if m.dom().contains(shuffle_id) {
            assert forall|id: Seq<char>| #[trigger]
                after[shuffle_id].committed.contains(id) <==> m[shuffle_id].committed.contains(id)
                    || exists|k: int| 0 <= k < ids.len() && (#[trigger] ids[k])@ == id by {
                assert(early[shuffle_id].committed.contains(id) <==> m[shuffle_id].committed.contains(
                    id,
                ) || exists|k: int| 0 <= k < init.len() && (#[trigger] init[k])@ == id);
                if exists|k: int| 0 <= k < init.len() && (#[trigger] init[k])@ == id {
                    let k = choose|k: int| 0 <= k < init.len() && (#[trigger] init[k])@ == id;
                    assert(ids[k]@ == id);
                }
                if exists|k: int| 0 <= k < ids.len() && (#[trigger] ids[k])@ == id {
                    let k = choose|k: int| 0 <= k < ids.len() && (#[trigger] ids[k])@ == id;
                    if k < init.len() {
                        assert(init[k]@ == id);
                    }
                }
            }
        }
    }
}

/// What is packed is packed by the codec: as it is, by Zstd at its usual level, or so that LZ4
/// gives it back; it fails only where Zstd does.
pub proof fn law_packing_fails_with_zstd_alone(codec: CompressionCodec, data: Seq<u8>)
    ensures
        compression::pack_fault(codec, data) is Some <==> codec is Zstd && compression::zstd_packed(
            data,
            3,
        ) is Err,
        compression::can_compress(codec, data.len()) <==> (codec is Lz4 ==> data.len() * 110
            <= usize::MAX && 24 + data.len() as int * 110 / 100 <= isize::MAX),
        forall|packed: Seq<u8>| #[trigger]
            compression::packs(codec, data, packed) ==> (codec is Uncompressed ==> packed == data)
                && (codec is Zstd ==> compression::zstd_packed(data, 3) == Ok::<
                Seq<u8>,
                Seq<char>,
            >(packed)),
{
}

/// Pushed bytes are added to what was written, and the partition is noted for the shuffle that
/// the name ends with.
pub proof fn law_pushed_bytes_are_counted(
    manager: LifecycleManager,
    after: LifecycleManager,
    shuffle_key: &str,
    unique_id: &str,
    len: usize,
    app_id: Seq<char>,
    shuffle_id: i32,
)
    requires
        DataPusher::notes_push(manager, after, shuffle_key, unique_id, len),
        shuffle_key@ == shuffle_name(app_id, shuffle_id),
        shuffle_id >= 0,
    ensures
        len <= i64::MAX && 0 <= manager.total_written <= i64::MAX - len ==> after.total_written
            == manager.total_written + len,
        manager.model().dom().contains(shuffle_id) ==> after.model()[shuffle_id].committed
            == manager.model()[shuffle_id].committed.insert(unique_id@),
        forall|s: i32|
            s != shuffle_id && #[trigger] manager.model().dom().contains(s) ==> after.model()[s]
                == manager.model()[s],
        after.config == manager.config,
{
    text::law_key_names_its_shuffle(app_id, shuffle_id);
}

/// A merged push names its parts in their order, and each stands at its offset in the data.
pub proof fn law_merged_message_holds_its_parts(
    request_id: i64,
    shuffle_key: &str,
    parts: Vec<MergedPart>,
    r: PushMergedData,
    k: int,
)
    requires
        DataPusher::merges_into(request_id, shuffle_key, &parts, r),
        0 <= k < parts@.len(),
        push::merged_data(parts@).len() <= i32::MAX,
    ensures
        r.request_id == request_id,
        r.shuffle_key@ == shuffle_key@,
        r.mode == (if parts@[0].location.mode is Replica {
            1int
        } else {
            0int
        }),
        r.partition_unique_ids@.len() == parts@.len(),
        r.partition_unique_ids@[k]@ == location_name(parts@[k].location.model()),
        r.batch_offsets@.len() == parts@.len() + 1,
        r.batch_offsets@[0] == 0,
        r.batch_offsets@[k + 1] - r.batch_offsets@[k] == buffers::octets(parts@[k].data).len(),
        buffers::octets(r.body).subrange(
            r.batch_offsets@[k] as int,
            r.batch_offsets@[k + 1] as int,
        ) == buffers::octets(parts@[k].data),
{
    let ps = parts@;
    lemma_merged_prefix(ps, k);
    lemma_merged_prefix(ps, k + 1);
    assert(ps.take(0) =~= Seq::<MergedPart>::empty());
    assert(ps.take(k + 1).drop_last() =~= ps.take(k));
    let whole = push::merged_data(ps);
    let upto = push::merged_data(ps.take(k + 1));
    let before = push::merged_data(ps.take(k));
    let part = buffers::octets(ps[k].data);
    assert(ps.take(k + 1).last() == ps[k]);
    assert(upto == before + part);
    assert(r.batch_offsets@[0] == wire::signed32(push::merged_data(ps.take(0)).len()));
    assert(r.batch_offsets@[k] == wire::signed32(before.len()));
    assert(r.batch_offsets@[k + 1] == wire::signed32(upto.len()));
    assert(whole.subrange(before.len() as int, upto.len() as int) =~= whole.take(
        upto.len() as int,
    ).skip(before.len() as int));
    assert(upto.skip(before.len() as int) =~= part);
    assert(r.partition_unique_ids@[k]@ == crate::protocol::unique_id_text(
        ps[k].location.id,
        ps[k].location.epoch,
    ));
}

proof fn lemma_merged_prefix(ps: Seq<MergedPart>, k: int)
    requires
        0 <= k <= ps.len(),
    ensures
        push::merged_data(ps.take(k)).len() <= push::merged_data(ps).len(),
        push::merged_data(ps).take(push::merged_data(ps.take(k)).len() as int)
            == push::merged_data(ps.take(k)),
    decreases ps.len(),
{
    let whole = push::merged_data(ps);
    let part = push::merged_data(ps.take(k));
    if k == ps.len() {
        assert(ps.take(k) =~= ps);
        assert(whole.take(whole.len() as int) =~= whole);
    } else {
        let init = ps.drop_last();
        lemma_merged_prefix(init, k);
        assert(init.take(k) =~= ps.take(k));
        assert(whole.take(part.len() as int) =~= push::merged_data(init).take(part.len() as int));
    }
}

} // verus!
