//! The client of an executor: what it takes from the lifecycle manager, what it asks of it, and
//! how its pushes end.

use vstd::prelude::*;

use crate::client::compression;
use crate::client::executor_shuffle_client;
use crate::client::executor_shuffle_client::{
    ExecutorRegisterTurn, ExecutorReviveManager, ExecutorShuffleClient, ReadTurn,
};
use crate::client::input_stream::CelebornInputStream;
use crate::client::lifecycle;
use crate::client::lifecycle_client;
use crate::client::lifecycle_client::{
    NettyLifecycleManagerClient, ReducerFileGroupResponse, RegisterShuffleResponse,
    RevivePartitionInfo, ReviveResponse,
};
use crate::client::locations;
use crate::client::push::{PushCall, PushJob};
use crate::config::CompressionCodec;
use crate::error;
use crate::error::{CelebornError, Result};
use crate::laws::pushing;
use crate::network::codec::FrameModel;
use crate::protocol::transport::{
    PbChangeLocationPartitionInfo, PbChangeLocationResponse, PbFileGroup,
    PbGetReducerFileGroupResponse, PbMapperEnd, PbPartitionLocation, PbRegisterShuffleResponse,
    PbRevive, PbRevivePartitionInfo,
};
use crate::protocol::{LocationModel, PartitionLocation};

verus! {

/// Whether a location is the one that a message describes, told without where it is stored.
pub open spec fn plainly_stands_for(l: LocationModel, pb: PbPartitionLocation) -> bool {
    &&& l.id == pb.id
    &&& l.epoch == pb.epoch
    &&& l.host == pb.host@
    &&& l.rpc_port == pb.rpc_port
    &&& l.push_port == pb.push_port
    &&& l.fetch_port == pb.fetch_port
    &&& l.replicate_port == pb.replicate_port
    &&& (l.mode is Primary) == (pb.mode == 0)
    &&& (l.peer is Some) == (pb.peer is Some)
    &&& l.storage_info is None
    &&& pb.peer matches Some(p) ==> {
        let q = *(l.peer->0);
        &&& q.id == p.id
        &&& q.epoch == p.epoch
        &&& q.host == p.host@
        &&& q.rpc_port == p.rpc_port
        &&& q.push_port == p.push_port
        &&& q.fetch_port == p.fetch_port
        &&& q.replicate_port == p.replicate_port
        &&& (q.mode is Primary) == (p.mode == 0)
        &&& q.storage_info is None
    }
}

/// A location that the manager sends has each field that the message names, and so has its peer;
/// where the data is stored is not taken over.
pub proof fn law_sent_location_has_the_named_fields(pb: PbPartitionLocation, l: PartitionLocation)
    requires
        l.model() == lifecycle_client::plainly_located(pb.model()),
    ensures
        plainly_stands_for(l.model(), pb),
        l.id == pb.id,
        l.epoch == pb.epoch,
        l.host@ == pb.host@,
        l.rpc_port == pb.rpc_port,
        l.push_port == pb.push_port,
        l.fetch_port == pb.fetch_port,
        l.replicate_port == pb.replicate_port,
        (l.mode is Primary) == (pb.mode == 0),
        l.storage_info is None,
        pb.peer matches Some(p) ==> l.peer is Some && l.peer->0.host@ == p.host@
            && l.peer->0.push_port == p.push_port && l.peer->0.fetch_port == p.fetch_port,
    decreases pb,
{
    if pb.peer is Some {
        law_sent_location_has_the_named_fields(*(pb.peer->0), *(l.peer->0));
    }
}

/// A location that the manager is told of is described by each of its fields, and so is its
/// peer; where the data is stored is not told.
pub proof fn law_told_location_names_the_fields(l: PartitionLocation, pb: PbPartitionLocation)
    requires
        pb.model() == lifecycle_client::plainly_described(l.model()),
    ensures
        pb.id == l.id,
        pb.epoch == l.epoch,
        pb.host@ == l.host@,
        pb.rpc_port == l.rpc_port,
        pb.push_port == l.push_port,
        pb.fetch_port == l.fetch_port,
        pb.replicate_port == l.replicate_port,
        pb.mode == (if l.mode is Replica {
            1int
        } else {
            0int
        }),
        pb.storage_info is None,
        pb.map_id_bitmap@.len() == 0,
        (pb.peer is Some) == (l.peer is Some),
        l.peer matches Some(p) ==> pb.peer->0.id == p.id && pb.peer->0.epoch == p.epoch
            && pb.peer->0.host@ == p.host@ && pb.peer->0.rpc_port == p.rpc_port
            && pb.peer->0.push_port == p.push_port && pb.peer->0.fetch_port == p.fetch_port
            && pb.peer->0.replicate_port == p.replicate_port,
    decreases l,
{
    if l.peer is Some {
        law_told_location_names_the_fields(*(l.peer->0), *(pb.peer->0));
    }
}

/// The locations of a partition are those that were sent with its number, in the order in which
/// they were sent.
pub proof fn law_sent_locations_are_kept_by_partition(s: Seq<PbPartitionLocation>, id: i32)
    ensures
        ({
            let m = lifecycle_client::plainly_grouped(s);
            let own = s.filter(|pb: PbPartitionLocation| pb.id == id);
            &&& m.dom().contains(id) <==> own.len() > 0
            &&& locations::held(m, id).len() == own.len()
            &&& forall|i: int|
                0 <= i < own.len() ==> plainly_stands_for(
                    #[trigger] locations::held(m, id)[i],
                    own[i],
                )
        }),
    decreases s.len(),
{
    reveal(Seq::filter);
    let p = |pb: PbPartitionLocation| pb.id == id;
    if s.len() > 0 {
        law_sent_locations_are_kept_by_partition(s.drop_last(), id);
        lemma_plainly(s.last());
        let m = lifecycle_client::plainly_grouped(s);
        let before = lifecycle_client::plainly_grouped(s.drop_last());
        let own = s.filter(p);
        let early = s.drop_last().filter(p);
        assert forall|i: int| 0 <= i < own.len() implies plainly_stands_for(
            #[trigger] locations::held(m, id)[i],
            own[i],
        ) by {
            if i < early.len() {
                assert(plainly_stands_for(locations::held(before, id)[i], early[i]));
            }
        }
    }
}

proof fn lemma_plainly(pb: PbPartitionLocation)
    ensures
        plainly_stands_for(lifecycle_client::plainly_located(pb.model()), pb),
{
    if pb.peer is Some {
        assert(lifecycle_client::plainly_located(pb.peer->0.model()).id == pb.peer->0.id);
    }
}

/// The file groups that are sent are kept by partition: the last group of a partition counts,
/// with all of its locations in their order.
pub proof fn law_sent_file_groups_are_kept(s: Seq<(i32, PbFileGroup)>, k: int)
    requires
        0 <= k < s.len(),
        forall|j: int| k < j < s.len() ==> (#[trigger] s[j]).0 != s[k].0,
    ensures
        ({
            let m = lifecycle_client::plain_file_groups(s);
            let group = s[k].1.locations@;
            &&& m.dom().contains(s[k].0)
            &&& m[s[k].0].len() == group.len()
            &&& forall|i: int|
                0 <= i < group.len() ==> plainly_stands_for(
                    #[trigger] m[s[k].0][i],
                    group[i],
                )
        }),
    decreases s.len(),
{
    let m = lifecycle_client::plain_file_groups(s);
    let group = s[k].1.locations@;
    if k == s.len() - 1 {
        assert forall|i: int| 0 <= i < group.len() implies plainly_stands_for(
            #[trigger] m[s[k].0][i],
            group[i],
        ) by {
            lemma_plainly(group[i]);
        }
    } else {
        assert(s.last() == s[s.len() - 1]);
        law_sent_file_groups_are_kept(s.drop_last(), k);
    }
}

/// A partition of which no group is sent has none.
pub proof fn law_no_other_sent_file_groups(s: Seq<(i32, PbFileGroup)>, id: i32)
    requires
        forall|j: int| 0 <= j < s.len() ==> (#[trigger] s[j]).0 != id,
    ensures
        !lifecycle_client::plain_file_groups(s).dom().contains(id),
    decreases s.len(),
{
    if s.len() > 0 {
        assert(s.last() == s[s.len() - 1]);
        law_no_other_sent_file_groups(s.drop_last(), id);
    }
}

/// Whether a note of a change names a new location.
pub open spec fn names_one(note: PbChangeLocationPartitionInfo) -> bool {
    note.partition is Some
}

/// The new locations of a revival are those that its answer names, each once and in order.
pub proof fn law_new_locations_are_the_named(s: Seq<PbChangeLocationPartitionInfo>)
    ensures
        ({
            let own = s.filter(|n: PbChangeLocationPartitionInfo| names_one(n));
            let found = lifecycle_client::new_locations(s);
            &&& found.len() == own.len()
            &&& forall|i: int|
                0 <= i < own.len() ==> plainly_stands_for(
                    #[trigger] found[i],
                    own[i].partition->0,
                )
        }),
    decreases s.len(),
{
    reveal(Seq::filter);
    let p = |n: PbChangeLocationPartitionInfo| names_one(n);
    if s.len() > 0 {
        law_new_locations_are_the_named(s.drop_last());
        if s.last().partition is Some {
            lemma_plainly(s.last().partition->0);
        }
        let own = s.filter(p);
        let early = s.drop_last().filter(p);
        let found = lifecycle_client::new_locations(s);
        let before = lifecycle_client::new_locations(s.drop_last());
        assert forall|i: int| 0 <= i < own.len() implies plainly_stands_for(
            #[trigger] found[i],
            own[i].partition->0,
        ) by {
            if i < early.len() {
                assert(plainly_stands_for(before[i], early[i].partition->0));
            }
        }
    }
}

/// A revival asks for the partition and the epoch that it is told of, says why by the number of
/// the cause, and describes the location that is replaced, if there is one.
pub proof fn law_revival_asks_for_its_partition(
    pb: PbRevivePartitionInfo,
    info: RevivePartitionInfo,
)
    requires
        lifecycle_client::asks_for(pb, info),
    ensures
        pb.partition_id == info.partition_id,
        pb.epoch == info.epoch,
        error::status_of(pb.status) == info.status,
        (pb.partition is Some) == (info.old_partition is Some),
        info.old_partition matches Some(l) ==> pb.partition->0.id == l.id
            && pb.partition->0.epoch == l.epoch && pb.partition->0.host@ == l.host@
            && pb.partition->0.push_port == l.push_port && pb.partition->0.fetch_port
            == l.fetch_port && pb.partition->0.rpc_port == l.rpc_port,
{
    error::law_status_round_trip(info.status);
    if info.old_partition is Some {
        law_told_location_names_the_fields(info.old_partition->0, pb.partition->0);
    }
}

/// A push of an executor goes to the location under the names of its shuffle and of the
/// location, with the batch that its mapper pushed in its attempt.
pub proof fn law_executor_push_sends_the_batch_of_its_mapper(
    c: PushCall,
    app_id: Seq<char>,
    loc: LocationModel,
    job: PushJob,
    batch_id: i32,
    codec: CompressionCodec,
    packed: Seq<u8>,
)
    requires
        compression::packs(codec, job.data@, packed),
        executor_shuffle_client::push_of(
            c,
            app_id,
            job.shuffle_id,
            loc,
            job.map_id,
            job.attempt_id,
            batch_id,
            packed,
        ),
    ensures
        c.shuffle_key@ == pushing::shuffle_name(app_id, job.shuffle_id),
        c.partition_unique_id@ == pushing::location_name(loc),
        c.location.host@ == loc.host,
        c.location.push_port == loc.push_port,
        c.location.model() == loc,
        pushing::is_batch_of(crate::buffers::octets(c.data), job, batch_id, codec),
{
    pushing::lemma_body_is_batch(job, batch_id, codec, packed);
}

/// The status of a push is the first byte of the body of its answer; without a body it is the
/// thirteenth byte of the message, behind the number of the request and the length; and without
/// that the push succeeded.
pub proof fn law_status_of_a_push(f: FrameModel)
    ensures
        f.body.len() > 0 ==> executor_shuffle_client::push_status(f) == error::status_of(
            f.body[0] as i32,
        ),
        f.body.len() == 0 && f.message.len() > 12 ==> executor_shuffle_client::push_status(f)
            == error::status_of(f.message[12] as i32),
        f.body.len() == 0 && f.message.len() <= 12 ==> executor_shuffle_client::push_status(f)
            is Success,
{
}

/// A push succeeds with the numbers of a success, of a partition that is to be split later or
/// whose mapper ended, and of congestion; with every other it fails with that status.
pub proof fn law_push_ends_by_its_status(r: Result<()>, value: i32, unique_id: Seq<char>)
    requires
        executor_shuffle_client::push_ends(r, error::status_of(value), unique_id),
    ensures
        r is Ok <==> value == 0 || value == 15 || value == 22 || value == 30 || value == 31,
        r is Err ==> r->Err_0 is ServerError && r->Err_0->ServerError_status == error::status_of(
            value,
        ),
        value == 21 ==> r is Err && r->Err_0->ServerError_message@ == "HARD_SPLIT for partition "@
            + unique_id + ", need to revive and retry"@,
{
}

/// A registration is accepted with full or partial success, and where the shuffle is registered
/// already.
pub proof fn law_accepted_registrations(value: i32)
    ensures
        executor_shuffle_client::registration_accepted(error::status_of(value)) <==> value == 0
            || value == 1 || value == 3,
{
}

/// Whether a call can be made to the manager.
pub open spec fn is_ready(client: ExecutorShuffleClient) -> bool {
    client.initialized && client.lifecycle_client is Some
}

/// A shuffle that is known is registered; for another the manager is asked, if it can be.
pub proof fn law_known_shuffle_is_not_asked_for(
    client: ExecutorShuffleClient,
    shuffle_id: i32,
    r: Result<ExecutorRegisterTurn>,
)
    requires
        client.registers(shuffle_id, r),
    ensures
        client.shuffles@.dom().contains(shuffle_id) ==> r is Ok
            && r->Ok_0 == ExecutorRegisterTurn::Registered(shuffle_id),
        !client.shuffles@.dom().contains(shuffle_id) && is_ready(client) ==> r is Ok
            && r->Ok_0 is Ask,
        !client.shuffles@.dom().contains(shuffle_id) && !is_ready(client) ==> r is Err
            && r->Err_0 is Internal,
{
    assert(client.model().dom().contains(shuffle_id) == client.shuffles@.dom().contains(
        shuffle_id,
    ));
}

/// A shuffle is known once its registration was accepted: with the locations that were sent, no
/// batch counted yet, and its numbers of mappers and partitions. One that was not accepted is not
/// known by it. No other shuffle is touched.
pub proof fn law_accepted_shuffle_is_known(
    client: ExecutorShuffleClient,
    after: ExecutorShuffleClient,
    shuffle_id: i32,
    num_mappers: i32,
    num_partitions: i32,
    response: RegisterShuffleResponse,
    r: Result<i32>,
)
    requires
        client.registered_as(&after, shuffle_id, num_mappers, num_partitions, response, r),
    ensures
        r is Ok <==> response.status is Success || response.status is PartialSuccess
            || response.status is ShuffleAlreadyRegistered,
        r is Ok ==> r->Ok_0 == shuffle_id && after.model().dom().contains(shuffle_id) && {
            let s = after.model()[shuffle_id];
            &&& s.num_mappers == num_mappers
            &&& s.num_partitions == num_partitions
            &&& s.registered
            &&& s.locations == locations::table(response.partition_locations@)
            &&& s.counters.dom() == Set::<i32>::empty()
        },
        r is Err ==> after.model() == client.model() && r->Err_0 is ServerError
            && r->Err_0->ServerError_status == response.status,
        forall|other: i32|
            other != shuffle_id ==> #[trigger] after.model().dom().contains(other)
                == client.model().dom().contains(other) && (client.model().dom().contains(other)
                ==> after.model()[other] == client.model()[other]),
{
}

/// A push goes to the first location of its partition, with the next number of a batch, and
/// counts it; without such a location it fails and counts nothing.
pub proof fn law_executor_push_goes_to_the_first_location(
    client: ExecutorShuffleClient,
    after: ExecutorShuffleClient,
    job: PushJob,
    data: &[u8],
    r: Result<PushCall>,
)
    requires
        job.data@ == data@,
        client.pushes(
            &after,
            job.shuffle_id,
            job.map_id,
            job.attempt_id,
            job.partition_id,
            data,
            r,
        ),
    ensures
        ({
            let m = client.model();
            let known = m.dom().contains(job.shuffle_id) && m[job.shuffle_id].locations.dom().contains(
                job.partition_id,
            ) && m[job.shuffle_id].locations[job.partition_id].len() > 0;
            let loc = m[job.shuffle_id].locations[job.partition_id][0];
            let counters = m[job.shuffle_id].counters;
            let n = if counters.dom().contains(job.partition_id) {
                counters[job.partition_id]
            } else {
                0
            };
            &&& !client.initialized || !known ==> r is Err && after.model() == m
            &&& client.initialized && !m.dom().contains(job.shuffle_id) ==> r->Err_0
                is ShuffleNotFound
            &&& client.initialized && m.dom().contains(job.shuffle_id) && !known ==> r->Err_0
                is PartitionNotFound
            &&& client.initialized && known && !(client.config.compression_codec is Zstd) ==> r
                is Ok
            &&& r matches Ok(c) ==> {
                &&& c.location.host@ == loc.host
                &&& c.location.push_port == loc.push_port
                &&& c.shuffle_key@ == pushing::shuffle_name(
                    client.app_unique_id@,
                    job.shuffle_id,
                )
                &&& c.partition_unique_id@ == pushing::location_name(loc)
                &&& pushing::is_batch_of(
                    crate::buffers::octets(c.data),
                    job,
                    n,
                    client.config.compression_codec,
                )
                &&& after.model()[job.shuffle_id].counters.dom().contains(job.partition_id)
                &&& n < i32::MAX ==> after.model()[job.shuffle_id].counters[job.partition_id] == n
                    + 1
                &&& after.model()[job.shuffle_id].locations == m[job.shuffle_id].locations
            }
        }),
{
    if r is Ok {
        let m = client.model();
        let loc = m[job.shuffle_id].locations[job.partition_id][0];
        let n = lifecycle::batch_counter(m, job.shuffle_id, job.partition_id);
        let packed = choose|packed: Seq<u8>| #[trigger]
            compression::packs(client.config.compression_codec, data@, packed)
                && executor_shuffle_client::push_of(
                r->Ok_0,
                client.app_unique_id@,
                job.shuffle_id,
                loc,
                job.map_id,
                job.attempt_id,
                n,
                packed,
            );
        law_executor_push_sends_the_batch_of_its_mapper(
            r->Ok_0,
            client.app_unique_id@,
            loc,
            job,
            n,
            client.config.compression_codec,
            packed,
        );
    }
}

/// The manager is told which mapper of which shuffle ended in which attempt, and of how many.
pub proof fn law_manager_is_told_of_an_ended_mapper(
    client: ExecutorShuffleClient,
    shuffle_id: i32,
    map_id: i32,
    attempt_id: i32,
    num_mappers: i32,
    r: Result<PbMapperEnd>,
)
    requires
        client.ends_mapper(shuffle_id, map_id, attempt_id, num_mappers, r),
    ensures
        r is Ok <==> is_ready(client),
        r matches Ok(q) ==> q.shuffle_id == shuffle_id && q.map_id == map_id && q.attempt_id
            == attempt_id && q.num_mappers == num_mappers && q.partition_id == -1,
{
}

/// The file groups of a shuffle are asked for once; from then on they are at hand.
pub proof fn law_file_groups_are_asked_for_once(
    client: ExecutorShuffleClient,
    between: ExecutorShuffleClient,
    shuffle_id: i32,
    response: ReducerFileGroupResponse,
    noted: Result<()>,
    again: Result<ReadTurn>,
)
    requires
        is_ready(client),
        client.keeps_groups(&between, shuffle_id, response, noted),
        between.reads(shuffle_id, again),
    ensures
        noted is Ok <==> response.status is Success || response.status is PartialSuccess,
        noted is Ok ==> again is Ok && again->Ok_0 is Cached
            && between.reducer_file_groups@[shuffle_id] == response,
        noted is Err ==> noted->Err_0 is ServerError && noted->Err_0->ServerError_status
            == response.status,
        noted is Err && !client.reducer_file_groups@.dom().contains(shuffle_id) ==> again is Ok
            && again->Ok_0 is Ask,
        between.shuffles == client.shuffles,
{
}

/// What is at hand of a partition are its own locations, in their order, with the attempts of
/// all mappers; of one that is not listed there are none.
pub proof fn law_cached_partition_has_its_locations(
    client: ExecutorShuffleClient,
    shuffle_id: i32,
    partition_id: i32,
    r: (Vec<PartitionLocation>, Vec<i32>),
)
    requires
        client.has_cached(shuffle_id, partition_id, r),
    ensures
        ({
            let g = client.reducer_file_groups@[shuffle_id];
            &&& r.1@ == g.attempts@
            &&& !g.file_groups@.dom().contains(partition_id) ==> r.0@.len() == 0
            &&& g.file_groups@.dom().contains(partition_id) ==> r.0@.len()
                == g.file_groups@[partition_id]@.len() && forall|i: int|
                0 <= i < r.0@.len() ==> (#[trigger] r.0@[i]).model()
                    == g.file_groups@[partition_id]@[i].model()
        }),
{
    let g = client.reducer_file_groups@[shuffle_id];
    let found = locations::models(r.0@);
    assert(found.len() == r.0@.len());
    if g.file_groups@.dom().contains(partition_id) {
        let held = locations::models(g.file_groups@[partition_id]@);
        assert(locations::table(g.file_groups@)[partition_id] == held);
        assert(found == held);
        assert forall|i: int| 0 <= i < r.0@.len() implies (#[trigger] r.0@[i]).model()
            == g.file_groups@[partition_id]@[i].model() by {
            assert(found[i] == r.0@[i].model());
            assert(held[i] == g.file_groups@[partition_id]@[i].model());
        }
    }
}

/// A stream reads the locations that it is opened for, of the mappers that it is opened for, in
/// the attempts that count, by the configuration of the client.
pub proof fn law_stream_is_opened_for_its_partition(
    client: ExecutorShuffleClient,
    shuffle_id: i32,
    locs: Vec<PartitionLocation>,
    attempts: Vec<i32>,
    attempt_number: i32,
    start: i32,
    end: i32,
    r: Result<CelebornInputStream>,
)
    requires
        client.opens(shuffle_id, locs, attempts, attempt_number, start, end, r),
    ensures
        r is Ok,
        locs@.len() == 0 ==> r->Ok_0.state.closed && r->Ok_0.locations@.len() == 0,
        locs@.len() > 0 ==> {
            let s = r->Ok_0;
            &&& s.locations@.to_multiset() == locs@.to_multiset()
            &&& s.attempts@ == attempts@
            &&& s.attempt_number == attempt_number
            &&& s.start_map_index == start
            &&& s.end_map_index == end
            &&& s.shuffle_key@ == pushing::shuffle_name(client.app_unique_id@, shuffle_id)
            &&& s.config.compression_codec == client.config.compression_codec
            &&& !s.state.closed
            &&& s.state.file_index == 0
            &&& s.fetch_chunk_max_retry == (if client.config.push_replicate_enabled {
                2 * client.config.max_fetch_retries
            } else {
                client.config.max_fetch_retries as int
            })
        },
{
}

/// A shuffle that is cleaned up is not known any more, nor are its file groups; the others are.
pub proof fn law_cleaned_up_shuffle_is_forgotten(
    client: ExecutorShuffleClient,
    after: ExecutorShuffleClient,
    shuffle_id: i32,
    r: bool,
)
    requires
        client.forgets(&after, shuffle_id, r),
    ensures
        r,
        !after.model().dom().contains(shuffle_id),
        !after.reducer_file_groups@.dom().contains(shuffle_id),
        forall|other: i32|
            other != shuffle_id ==> #[trigger] after.model().dom().contains(other)
                == client.model().dom().contains(other),
        after.initialized == client.initialized,
{
}

/// A revived partition has the first location that was sent; a revival that failed, or sent none,
/// is an error.
pub proof fn law_revived_partition_has_the_first_location(
    shuffle_id: i32,
    partition_id: i32,
    response: ReviveResponse,
    r: Result<PartitionLocation>,
)
    requires
        ExecutorReviveManager::revived_one(shuffle_id, partition_id, response, r),
    ensures
        r is Ok <==> (response.status is Success || response.status is PartialSuccess)
            && response.partition_locations@.len() > 0,
        r matches Ok(l) ==> l == response.partition_locations@[0],
        response.status is Success && response.partition_locations@.len() == 0 ==> r->Err_0
            == (CelebornError::PartitionNotFound { shuffle_id, partition_id }),
        r is Err && !(response.status is Success || response.status is PartialSuccess)
            ==> r->Err_0 is ServerError && r->Err_0->ServerError_status == response.status,
{
}

/// A revival asks for all partitions that it is told of, each in its place, for its shuffle and
/// its mappers.
pub proof fn law_revival_asks_for_all_its_partitions(
    client: NettyLifecycleManagerClient,
    shuffle_id: i32,
    map_ids: Vec<i32>,
    infos: Vec<RevivePartitionInfo>,
    r: PbRevive,
    i: int,
)
    requires
        client.asks_to_revive(shuffle_id, map_ids, &infos, r),
        0 <= i < infos@.len(),
    ensures
        r.shuffle_id == shuffle_id,
        r.map_id@ == map_ids@,
        r.partition_info@.len() == infos@.len(),
        r.partition_info@[i].partition_id == infos@[i].partition_id,
        r.partition_info@[i].epoch == infos@[i].epoch,
        error::status_of(r.partition_info@[i].status) == infos@[i].status,
{
    law_revival_asks_for_its_partition(r.partition_info@[i], infos@[i]);
}

/// A revival succeeded if anything was sent, and its locations are those that were named.
pub proof fn law_revival_is_read(
    client: NettyLifecycleManagerClient,
    response: PbChangeLocationResponse,
    r: ReviveResponse,
)
    requires
        client.reads_revival(&response, r),
    ensures
        r.status is Success <==> response.partition_info@.len() > 0,
        r.status is ReviveFailed <==> response.partition_info@.len() == 0,
        r.partition_locations@.len() == response.partition_info@.filter(
            |n: PbChangeLocationPartitionInfo| names_one(n),
        ).len(),
{
    law_new_locations_are_the_named(response.partition_info@);
    assert(locations::models(r.partition_locations@).len() == r.partition_locations@.len());
}

/// A split gives the location that stands first in its answer, or there is none.
pub proof fn law_split_is_read(
    client: NettyLifecycleManagerClient,
    shuffle_id: i32,
    partition_id: i32,
    response: PbChangeLocationResponse,
    r: Result<PartitionLocation>,
)
    requires
        client.reads_split(shuffle_id, partition_id, &response, r),
    ensures
        r is Ok <==> response.partition_info@.len() > 0 && response.partition_info@[0].partition
            is Some,
        r matches Ok(l) ==> plainly_stands_for(
            l.model(),
            response.partition_info@[0].partition->0,
        ),
        r is Err ==> r->Err_0 == (CelebornError::PartitionNotFound { shuffle_id, partition_id }),
{
    if r is Ok {
        lemma_plainly(response.partition_info@[0].partition->0);
    }
}

/// The file groups of an answer come with its status and its attempts.
pub proof fn law_file_groups_are_read(
    client: NettyLifecycleManagerClient,
    response: PbGetReducerFileGroupResponse,
    r: ReducerFileGroupResponse,
    id: i32,
)
    requires
        client.reads_groups(&response, r),
    ensures
        r.status == error::status_of(response.status),
        r.attempts@ == response.attempts@,
        r.partition_ids@.contains(id) <==> response.partition_ids@.contains(id),
        locations::table(r.file_groups@) == lifecycle_client::plain_file_groups(
            response.file_groups@,
        ),
{
}

/// The locations of a registered shuffle come with the status of the answer.
pub proof fn law_registration_is_read(
    client: NettyLifecycleManagerClient,
    response: PbRegisterShuffleResponse,
    r: RegisterShuffleResponse,
    id: i32,
)
    requires
        client.reads_registration(&response, r),
    ensures
        r.status == error::status_of(response.status),
        r.partition_locations@.dom().contains(id) <==> response.partition_locations@.filter(
            |pb: PbPartitionLocation| pb.id == id,
        ).len() > 0,
{
    law_sent_locations_are_kept_by_partition(response.partition_locations@, id);
    assert(locations::table(r.partition_locations@).dom().contains(id)
        == r.partition_locations@.dom().contains(id));
}

} // verus!
