//! Registering a shuffle: what the master allocates is what is known and what is reserved.

use std::collections::HashMap;

use vstd::prelude::*;

use crate::client::lifecycle;
use crate::client::lifecycle::{
    FileGroupTurn, LifecycleManager, Missing, RegisterTurn, Reservation, ReserveReply,
    ShuffleModel, Slot, SlotPlan,
};
use crate::client::locations;
use crate::error;
use crate::error::{CelebornError, Result};
use crate::protocol::transport::{
    PbChangeLocationPartitionInfo, PbChangeLocationResponse, PbFileGroup,
    PbGetReducerFileGroupResponse, PbHeartbeatFromApplication, PbPartitionLocation,
    PbRequestSlots, PbRequestSlotsResponse, PbRevive, PbWorkerResource,
};
use crate::protocol::{LocationModel, PartitionLocation};

verus! {

/// Whether a location is the one that a message describes: the same partition, on the same
/// host, with each port where the message has it. Whether it has a peer and where it is stored
/// are told alike.
pub open spec fn stands_for(l: LocationModel, pb: PbPartitionLocation) -> bool {
    &&& l.id == pb.id
    &&& l.epoch == pb.epoch
    &&& l.host == pb.host@
    &&& l.rpc_port == pb.rpc_port
    &&& l.push_port == pb.push_port
    &&& l.fetch_port == pb.fetch_port
    &&& l.replicate_port == pb.replicate_port
    &&& (l.mode is Replica) == (pb.mode == 1)
    &&& (l.peer is Some) == (pb.peer is Some)
    &&& l.storage_info is Some == pb.storage_info is Some
    &&& pb.storage_info matches Some(s) ==> {
        let t = l.storage_info->0;
        &&& t.storage_type == s.storage_type
        &&& t.mount_point == s.mount_point@
        &&& t.final_result == s.final_result
        &&& t.file_path == s.file_path@
        &&& t.available_storage_types == s.available_storage_types
        &&& t.file_size == s.file_size
        &&& t.chunk_offsets == s.chunk_offsets@
    }
}

/// A location that is made from a message has each field that the message names, and its peer
/// those of the peer.
pub proof fn law_location_has_the_named_fields(pb: PbPartitionLocation, l: PartitionLocation)
    requires
        l.model() == locations::located(pb.model()),
    ensures
        l.id == pb.id,
        l.epoch == pb.epoch,
        l.host@ == pb.host@,
        l.rpc_port == pb.rpc_port,
        l.push_port == pb.push_port,
        l.fetch_port == pb.fetch_port,
        l.replicate_port == pb.replicate_port,
        (l.mode is Replica) == (pb.mode == 1),
        (l.peer is Some) == (pb.peer is Some),
        pb.peer matches Some(p) ==> l.peer->0.push_port == p.push_port && l.peer->0.fetch_port
            == p.fetch_port && l.peer->0.rpc_port == p.rpc_port && l.peer->0.host@ == p.host@
            && l.peer->0.id == p.id && l.peer->0.epoch == p.epoch,
        stands_for(l.model(), pb),
    decreases pb,
{
    if pb.peer is Some {
        law_location_has_the_named_fields(*(pb.peer->0), *(l.peer->0));
    }
}

/// A message that describes a location names each field that the location has, and those of
/// its peer.
pub proof fn law_described_location_names_the_fields(l: PartitionLocation, pb: PbPartitionLocation)
    requires
        pb.model() == locations::described(l.model()),
    ensures
        pb.id == l.id,
        pb.epoch == l.epoch,
        pb.host@ == l.host@,
        pb.rpc_port == l.rpc_port,
        pb.push_port == l.push_port,
        pb.fetch_port == l.fetch_port,
        pb.replicate_port == l.replicate_port,
        pb.mode == (if l.mode is Replica {
            1int
        } else {
            0int
        }),
        (pb.peer is Some) == (l.peer is Some),
        l.peer matches Some(p) ==> pb.peer->0.push_port == p.push_port && pb.peer->0.fetch_port
            == p.fetch_port && pb.peer->0.rpc_port == p.rpc_port && pb.peer->0.host@ == p.host@
            && pb.peer->0.id == p.id && pb.peer->0.epoch == p.epoch,
        pb.map_id_bitmap@.len() == 0,
        stands_for(l.model(), pb),
    decreases l,
{
    if l.peer is Some {
        law_described_location_names_the_fields(*(l.peer->0), *(pb.peer->0));
    }
}

/// The slots of an answer are the partitions of its workers: every primary and every replica
/// that a worker got is a slot, and there are no others.
pub proof fn law_slots_are_what_workers_got(ws: Seq<(String, PbWorkerResource)>)
    ensures
        forall|i: int, j: int|
            #![trigger ws[i].1.primary_partitions@[j]]
            0 <= i < ws.len() && 0 <= j < ws[i].1.primary_partitions@.len() ==> has_slot(
                lifecycle::slots(ws),
                ws[i].1.primary_partitions@[j],
                true,
            ),
        forall|i: int, j: int|
            #![trigger ws[i].1.replica_partitions@[j]]
            0 <= i < ws.len() && 0 <= j < ws[i].1.replica_partitions@.len() ==> has_slot(
                lifecycle::slots(ws),
                ws[i].1.replica_partitions@[j],
                false,
            ),
        lifecycle::slots(ws).len() == allocated(ws),
        forall|k: int|
            0 <= k < lifecycle::slots(ws).len() ==> is_allocated(
                ws,
                #[trigger] lifecycle::slots(ws)[k],
            ),
    decreases ws.len(),
{
    if ws.len() > 0 {
        let before = ws.drop_last();
        law_slots_are_what_workers_got(before);
        let w = ws.last().1;
        let early = lifecycle::slots(before);
        let ps = lifecycle::slots_of(w.primary_partitions@, true);
        let rs = lifecycle::slots_of(w.replica_partitions@, false);
        let all = lifecycle::slots(ws);
        assert(all == early + ps + rs);
        assert forall|i: int, j: int|
            #![trigger ws[i].1.primary_partitions@[j]]
            0 <= i < ws.len() && 0 <= j < ws[i].1.primary_partitions@.len() implies has_slot(
            all,
            ws[i].1.primary_partitions@[j],
            true,
        ) by {
            let pb = ws[i].1.primary_partitions@[j];
            if i < before.len() {
                assert(before[i].1.primary_partitions@[j] == pb);
                let k = choose|k: int|
                    0 <= k < early.len() && is_slot(#[trigger] early[k], pb, true);
                assert(is_slot(all[k], pb, true));
            } else {
                assert(all[early.len() + j] == ps[j]);
                assert(is_slot(all[early.len() + j], pb, true));
            }
        }
        assert forall|i: int, j: int|
            #![trigger ws[i].1.replica_partitions@[j]]
            0 <= i < ws.len() && 0 <= j < ws[i].1.replica_partitions@.len() implies has_slot(
            all,
            ws[i].1.replica_partitions@[j],
            false,
        ) by {
            let pb = ws[i].1.replica_partitions@[j];
            if i < before.len() {
                assert(before[i].1.replica_partitions@[j] == pb);
                let k = choose|k: int|
                    0 <= k < early.len() && is_slot(#[trigger] early[k], pb, false);
                assert(is_slot(all[k], pb, false));
            } else {
                let at = early.len() + ps.len() + j;
                assert(all[at] == rs[j]);
                assert(is_slot(all[at], pb, false));
            }
        }
        assert forall|k: int| 0 <= k < all.len() implies is_allocated(ws, #[trigger] all[k]) by {
            if k < early.len() {
                assert(all[k] == early[k]);
                assert(is_allocated(before, early[k]));
                if early[k].primary {
                    let (i, j) = choose|i: int, j: int|
                        #![trigger before[i].1.primary_partitions@[j]]
                        0 <= i < before.len() && 0 <= j < before[i].1.primary_partitions@.len()
                            && is_slot(early[k], before[i].1.primary_partitions@[j], true);
                    assert(ws[i].1.primary_partitions@[j] == before[i].1.primary_partitions@[j]);
                } else {
                    let (i, j) = choose|i: int, j: int|
                        #![trigger before[i].1.replica_partitions@[j]]
                        0 <= i < before.len() && 0 <= j < before[i].1.replica_partitions@.len()
                            && is_slot(early[k], before[i].1.replica_partitions@[j], false);
                    assert(ws[i].1.replica_partitions@[j] == before[i].1.replica_partitions@[j]);
                }
            } else if k < early.len() + ps.len() {
                let j = k - early.len();
                assert(all[k] == ps[j]);
                assert(is_slot(all[k], ws[ws.len() - 1].1.primary_partitions@[j], true));
            } else {
                let j = k - early.len() - ps.len();
                assert(all[k] == rs[j]);
                assert(is_slot(all[k], ws[ws.len() - 1].1.replica_partitions@[j], false));
            }
        }
    }
}

/// Whether a slot is the one that a message describes.
pub open spec fn is_slot(s: Slot, pb: PbPartitionLocation, primary: bool) -> bool {
    &&& s.primary == primary
    &&& s.location == pb.model()
    &&& s.location.id == pb.id
    &&& s.location.host == pb.host@
    &&& s.location.rpc_port == pb.rpc_port
    &&& s.location.push_port == pb.push_port
    &&& s.location.fetch_port == pb.fetch_port
}

/// Whether one of the slots is the one that a message describes.
pub open spec fn has_slot(s: Seq<Slot>, pb: PbPartitionLocation, primary: bool) -> bool {
    exists|k: int| 0 <= k < s.len() && is_slot(#[trigger] s[k], pb, primary)
}

/// Whether a slot is among the partitions that workers got.
pub open spec fn is_allocated(ws: Seq<(String, PbWorkerResource)>, s: Slot) -> bool {
    if s.primary {
        exists|i: int, j: int|
            #![trigger ws[i].1.primary_partitions@[j]]
            0 <= i < ws.len() && 0 <= j < ws[i].1.primary_partitions@.len() && is_slot(
                s,
                ws[i].1.primary_partitions@[j],
                true,
            )
    } else {
        exists|i: int, j: int|
            #![trigger ws[i].1.replica_partitions@[j]]
            0 <= i < ws.len() && 0 <= j < ws[i].1.replica_partitions@.len() && is_slot(
                s,
                ws[i].1.replica_partitions@[j],
                false,
            )
    }
}

/// How many partitions workers got.
pub open spec fn allocated(ws: Seq<(String, PbWorkerResource)>) -> nat
    decreases ws.len(),
{
    if ws.len() == 0 {
        0
    } else {
        allocated(ws.drop_last()) + ws.last().1.primary_partitions@.len()
            + ws.last().1.replica_partitions@.len()
    }
}

/// The locations of a partition are those of its slots, in their order and each once.
pub proof fn law_partition_has_the_locations_of_its_slots(s: Seq<Slot>, id: i32)
    ensures
        locations::held(lifecycle::by_partition(s), id) == s.filter(
            |x: Slot| x.location.id == id,
        ).map_values(|x: Slot| locations::located(x.location)),
        lifecycle::by_partition(s).dom().contains(id) <==> exists|k: int|
            0 <= k < s.len() && (#[trigger] s[k]).location.id == id,
    decreases s.len(),
{
    reveal(Seq::filter);
    let p = |x: Slot| x.location.id == id;
    let f = |x: Slot| locations::located(x.location);
    if s.len() > 0 {
        let before = s.drop_last();
        law_partition_has_the_locations_of_its_slots(before, id);
        if p(s.last()) {
            assert(s.filter(p).map_values(f) =~= before.filter(p).map_values(f).push(f(s.last())));
            assert(s[s.len() - 1].location.id == id);
        }
        if lifecycle::by_partition(before).dom().contains(id) {
            let k = choose|k: int| 0 <= k < before.len() && (#[trigger] before[k]).location.id == id;
            assert(s[k] == before[k]);
        }
        assert forall|k: int| 0 <= k < s.len() && (#[trigger] s[k]).location.id
            == id implies lifecycle::by_partition(s).dom().contains(id) by {
            if k < before.len() {
                assert(before[k].location.id == id);
            }
        }
    }
    assert(locations::held(lifecycle::by_partition(s), id) =~= s.filter(p).map_values(f));
}

/// Once a shuffle is registered, each slot is found among the locations of its partition, at
/// the host and with the ports that the master gave it.
pub proof fn law_allocated_slot_is_found(
    m: Map<i32, ShuffleModel>,
    shuffle_id: i32,
    state: ShuffleModel,
    ws: Seq<(String, PbWorkerResource)>,
    i: int,
    j: int,
)
    requires
        state.locations == lifecycle::by_partition(lifecycle::slots(ws)),
        0 <= i < ws.len(),
        0 <= j < ws[i].1.primary_partitions@.len(),
    ensures
        ({
            let pb = ws[i].1.primary_partitions@[j];
            let found = lifecycle::lookup(
                lifecycle::registered(m, shuffle_id, state),
                shuffle_id,
                pb.id,
            );
            &&& found is Ok
            &&& exists|k: int| 0 <= k < found->Ok_0.len() && stands_for(#[trigger] found->Ok_0[k], pb)
        }),
{
    let pb = ws[i].1.primary_partitions@[j];
    let s = lifecycle::slots(ws);
    law_slots_are_what_workers_got(ws);
    let at = choose|k: int| 0 <= k < s.len() && is_slot(#[trigger] s[k], pb, true);
    law_partition_has_the_locations_of_its_slots(s, pb.id);
    let p = |x: Slot| x.location.id == pb.id;
    let f = |x: Slot| locations::located(x.location);
    assert(s.filter(p).contains(s[at])) by {
        assert(p(s[at]));
        s.lemma_filter_contains(p, at);
    }
    let k = choose|k: int| 0 <= k < s.filter(p).len() && s.filter(p)[k] == s[at];
    let found = s.filter(p).map_values(f);
    assert(found[k] == locations::located(pb.model()));
    assert(stands_for(found[k], pb));
    assert(lifecycle::lookup(
        lifecycle::registered(m, shuffle_id, state),
        shuffle_id,
        pb.id,
    )->Ok_0 == found);
}

/// The slots at a worker are those on its host and port, primaries and replicas apart, in their
/// order and each once.
pub proof fn law_worker_has_its_slots(s: Seq<Slot>, host: Seq<char>, port: i32, primary: bool)
    ensures
        lifecycle::at_worker(s, host, port, primary) == s.filter(
            |x: Slot| x.location.host == host && x.location.rpc_port == port && x.primary == primary,
        ).map_values(|x: Slot| x.location),
        lifecycle::uses_worker(s, host, port) <==> exists|k: int|
            0 <= k < s.len() && (#[trigger] s[k]).location.host == host && s[k].location.rpc_port
                == port,
    decreases s.len(),
{
    reveal(Seq::filter);
    let p = |x: Slot|
        x.location.host == host && x.location.rpc_port == port && x.primary == primary;
    let f = |x: Slot| x.location;
    if s.len() > 0 {
        let before = s.drop_last();
        law_worker_has_its_slots(before, host, port, primary);
        if p(s.last()) {
            assert(s.filter(p).map_values(f) =~= before.filter(p).map_values(f).push(f(s.last())));
        }
        if lifecycle::uses_worker(before, host, port) {
            let k = choose|k: int|
                0 <= k < before.len() && (#[trigger] before[k]).location.host == host
                    && before[k].location.rpc_port == port;
            assert(s[k] == before[k]);
        }
        assert(s[s.len() - 1] == s.last());
        assert forall|k: int|
            0 <= k < s.len() && (#[trigger] s[k]).location.host == host && s[k].location.rpc_port
                == port implies lifecycle::uses_worker(s, host, port) by {
            if k < before.len() {
                assert(before[k].location.host == host);
            }
        }
    }
    assert(lifecycle::at_worker(s, host, port, primary) =~= s.filter(p).map_values(f));
}

/// Every slot is reserved at its own worker, in the list of primaries or of replicas that it
/// belongs to, and by one request only.
pub proof fn law_slot_is_reserved_at_its_worker(
    rs: Seq<Reservation>,
    s: Seq<Slot>,
    app_id: Seq<char>,
    shuffle_id: i32,
    push_timeout: i64,
    k: int,
)
    requires
        lifecycle::reserves_all(rs, s, app_id, shuffle_id, push_timeout),
        0 <= k < s.len(),
    ensures
        exists|i: int|
            0 <= i < rs.len() && (#[trigger] rs[i]).host@ == s[k].location.host && rs[i].rpc_port
                == s[k].location.rpc_port && locations::pb_models(
                if s[k].primary {
                    rs[i].request.primary_locations@
                } else {
                    rs[i].request.replica_locations@
                },
            ).contains(s[k].location),
        forall|i: int, j: int|
            #![trigger rs[i], rs[j]]
            0 <= i < j < rs.len() ==> rs[i].host@ != rs[j].host@ || rs[i].rpc_port != rs[j].rpc_port,
{
    let host = s[k].location.host;
    let port = s[k].location.rpc_port;
    let primary = s[k].primary;
    law_worker_has_its_slots(s, host, port, primary);
    assert(lifecycle::uses_worker(s, host, port));
    let i = choose|i: int|
        0 <= i < rs.len() && (#[trigger] rs[i]).host@ == host && rs[i].rpc_port == port;
    assert(lifecycle::reserves(rs[i], s, app_id, shuffle_id, push_timeout));
    let p = |x: Slot|
        x.location.host == host && x.location.rpc_port == port && x.primary == primary;
    let f = |x: Slot| x.location;
    assert(p(s[k]));
    s.lemma_filter_contains(p, k);
    assert(s.filter(p).contains(s[k]));
    let q = s.filter(p);
    let at = choose|n: int| 0 <= n < q.len() && q[n] == s[k];
    assert(q.map_values(f)[at] == s[k].location);
}

/// What is reserved at a worker are slots on that worker, and the request says for which
/// application and shuffle, and how the partitions are to be split.
pub proof fn law_reservation_says_what_it_is_for(
    rs: Seq<Reservation>,
    s: Seq<Slot>,
    app_id: Seq<char>,
    shuffle_id: i32,
    push_timeout: i64,
    i: int,
)
    requires
        lifecycle::reserves_all(rs, s, app_id, shuffle_id, push_timeout),
        0 <= i < rs.len(),
    ensures
        rs[i].request.application_id@ == app_id,
        rs[i].request.shuffle_id == shuffle_id,
        rs[i].request.push_data_timeout == push_timeout,
        rs[i].request.split_threshold == 268_435_456,
        rs[i].request.split_mode == 0,
        rs[i].request.partition_type == 0,
        !rs[i].request.range_read_filter,
        rs[i].request.partition_split_enabled,
        rs[i].request.available_storage_types == 2,
        rs[i].request.user_identifier matches Some(u) && u.tenant_id@ == "default"@ && u.name@
            == "default"@,
        forall|j: int|
            0 <= j < rs[i].request.primary_locations@.len() ==> (
            #[trigger] rs[i].request.primary_locations@[j]).host@ == rs[i].host@
                && rs[i].request.primary_locations@[j].rpc_port == rs[i].rpc_port,
        forall|j: int|
            0 <= j < rs[i].request.replica_locations@.len() ==> (
            #[trigger] rs[i].request.replica_locations@[j]).host@ == rs[i].host@
                && rs[i].request.replica_locations@[j].rpc_port == rs[i].rpc_port,
        rs[i].request.primary_locations@.len() + rs[i].request.replica_locations@.len() > 0,
{
    let r = rs[i];
    assert(lifecycle::reserves(r, s, app_id, shuffle_id, push_timeout));
    lemma_items_are_at_worker(s, r.host@, r.rpc_port, true);
    lemma_items_are_at_worker(s, r.host@, r.rpc_port, false);
    let ps = locations::pb_models(r.request.primary_locations@);
    let qs = locations::pb_models(r.request.replica_locations@);
    assert forall|j: int| 0 <= j < r.request.primary_locations@.len() implies (
    #[trigger] r.request.primary_locations@[j]).host@ == r.host@
        && r.request.primary_locations@[j].rpc_port == r.rpc_port by {
        assert(ps[j].host == r.host@);
    }
    assert forall|j: int| 0 <= j < r.request.replica_locations@.len() implies (
    #[trigger] r.request.replica_locations@[j]).host@ == r.host@
        && r.request.replica_locations@[j].rpc_port == r.rpc_port by {
        assert(qs[j].host == r.host@);
    }
    law_worker_has_its_slots(s, r.host@, r.rpc_port, true);
    let k = choose|k: int|
        0 <= k < s.len() && (#[trigger] s[k]).location.host == r.host@ && s[k].location.rpc_port
            == r.rpc_port;
    law_slot_is_reserved_at_its_worker(rs, s, app_id, shuffle_id, push_timeout, k);
    let n = choose|n: int|
        0 <= n < rs.len() && (#[trigger] rs[n]).host@ == s[k].location.host && rs[n].rpc_port
            == s[k].location.rpc_port && locations::pb_models(
            if s[k].primary {
                rs[n].request.primary_locations@
            } else {
                rs[n].request.replica_locations@
            },
        ).contains(s[k].location);
    assert(n == i) by {
        if n < i {
            assert(rs[n].host@ != rs[i].host@ || rs[n].rpc_port != rs[i].rpc_port);
        } else if i < n {
            assert(rs[i].host@ != rs[n].host@ || rs[i].rpc_port != rs[n].rpc_port);
        }
    }
}

proof fn lemma_items_are_at_worker(s: Seq<Slot>, host: Seq<char>, port: i32, primary: bool)
    ensures
        forall|j: int|
            0 <= j < lifecycle::at_worker(s, host, port, primary).len() ==> (
            #[trigger] lifecycle::at_worker(s, host, port, primary)[j]).host == host
                && lifecycle::at_worker(s, host, port, primary)[j].rpc_port == port,
    decreases s.len(),
{
    if s.len() > 0 {
        lemma_items_are_at_worker(s.drop_last(), host, port, primary);
    }
}

/// Failures to reserve are reported for just the workers that gave no answer or one without
/// success, in the order of the replies.
pub proof fn law_reported_are_the_failed_reservations(replies: Seq<ReserveReply>)
    ensures
        lifecycle::reserve_failures(replies) == replies.filter(
            |r: ReserveReply| refused(r),
        ).map_values(|r: ReserveReply| (r.host@, r.rpc_port, refusal(r))),
    decreases replies.len(),
{
    reveal(Seq::filter);
    let p = |r: ReserveReply| refused(r);
    let f = |r: ReserveReply| (r.host@, r.rpc_port, refusal(r));
    if replies.len() > 0 {
        let before = replies.drop_last();
        law_reported_are_the_failed_reservations(before);
        if p(replies.last()) {
            assert(replies.filter(p).map_values(f) =~= before.filter(p).map_values(f).push(
                f(replies.last()),
            ));
        }
    }
    assert(lifecycle::reserve_failures(replies) =~= replies.filter(p).map_values(f));
}

/// Whether a worker did not reserve what it was asked to.
pub open spec fn refused(r: ReserveReply) -> bool {
    match r.outcome {
        Ok(response) => response.status != 0 && response.status != 1,
        Err(_) => true,
    }
}

/// Why a worker did not reserve what it was asked to.
pub open spec fn refusal(r: ReserveReply) -> Seq<char> {
    match r.outcome {
        Ok(response) => response.reason@,
        Err(e) => error::error_text(e),
    }
}

/// What is asked of the master: each partition of the shuffle once, in order, for this
/// application.
pub proof fn law_slots_are_asked_for_each_partition(
    q: PbRequestSlots,
    app_id: Seq<char>,
    replicate: bool,
    shuffle_id: i32,
    num_partitions: i32,
)
    requires
        lifecycle::asks_for_slots(q, app_id, replicate, shuffle_id, num_partitions),
    ensures
        q.application_id@ == app_id,
        q.shuffle_id == shuffle_id,
        q.should_replicate == replicate,
        num_partitions >= 0 ==> q.partition_id_list@.len() == num_partitions,
        num_partitions < 0 ==> q.partition_id_list@.len() == 0,
        forall|i: int|
            0 <= i < q.partition_id_list@.len() ==> #[trigger] q.partition_id_list@[i] == i,
        q.storage_type == 0,
        q.max_workers == 0,
        q.available_storage_types == 2,
        !q.should_rack_aware,
        q.user_identifier matches Some(u) && u.tenant_id@ == "default"@ && u.name@ == "default"@,
{
}

/// A lookup fails for just the shuffles that are not known, and in a known one for just the
/// partitions that have no locations; else it gives the locations of the partition.
pub proof fn law_lookup_finds_what_is_known(m: Map<i32, ShuffleModel>, shuffle_id: i32, id: i32)
    ensures
        lifecycle::lookup(m, shuffle_id, id) == Err::<Seq<LocationModel>, Missing>(
            Missing::Shuffle,
        ) <==> !m.dom().contains(shuffle_id),
        m.dom().contains(shuffle_id) && !m[shuffle_id].locations.dom().contains(id) ==>
            lifecycle::lookup(m, shuffle_id, id) == Err::<Seq<LocationModel>, Missing>(
            Missing::Partition,
        ),
        m.dom().contains(shuffle_id) && m[shuffle_id].locations.dom().contains(id) ==>
            lifecycle::lookup(m, shuffle_id, id) == Ok::<Seq<LocationModel>, Missing>(
            m[shuffle_id].locations[id],
        ),
{
}

/// A registration makes its shuffle known, as registered and with its mappers, partitions and
/// locations, and leaves the others alone.
pub proof fn law_registration_touches_its_shuffle(
    m: Map<i32, ShuffleModel>,
    shuffle_id: i32,
    state: ShuffleModel,
)
    ensures
        ({
            let after = lifecycle::registered(m, shuffle_id, state);
            &&& after.dom() == m.dom().insert(shuffle_id)
            &&& after[shuffle_id].registered
            &&& after[shuffle_id].num_mappers == state.num_mappers
            &&& after[shuffle_id].num_partitions == state.num_partitions
            &&& after[shuffle_id].locations == state.locations
            &&& forall|other: i32|
                other != shuffle_id && m.dom().contains(other) ==> #[trigger] after[other]
                    == m[other]
        }),
{
}

/// A new shuffle has nothing yet: no locations, nothing committed, and batches that are counted
/// from zero in each partition.
pub proof fn law_new_shuffle_has_nothing(
    m: Map<i32, ShuffleModel>,
    shuffle_id: i32,
    num_mappers: i32,
    num_partitions: i32,
    id: i32,
)
    ensures
        ({
            let s = lifecycle::fresh_shuffle(num_mappers, num_partitions);
            &&& s.num_mappers == num_mappers
            &&& s.num_partitions == num_partitions
            &&& !s.registered
            &&& s.locations.dom() == Set::<i32>::empty()
            &&& s.committed == Set::<Seq<char>>::empty()
            &&& lifecycle::batch_counter(m.insert(shuffle_id, s), shuffle_id, id) == 0
        }),
{
}

/// Each batch of a partition gets the number behind the last, up to the largest, behind which
/// the smallest follows; another partition's numbers are not used up.
pub proof fn law_batch_numbers_go_up_by_one(m: Map<i32, ShuffleModel>, shuffle_id: i32, id: i32)
    requires
        m.dom().contains(shuffle_id),
    ensures
        ({
            let n = lifecycle::batch_counter(m, shuffle_id, id);
            let next = lifecycle::batch_counter(
                lifecycle::counted(m, shuffle_id, id),
                shuffle_id,
                id,
            );
            &&& n < i32::MAX ==> next == n + 1
            &&& n == i32::MAX ==> next == i32::MIN
        }),
        forall|s: i32, p: i32|
            s != shuffle_id || p != id ==> #[trigger] lifecycle::batch_counter(
                lifecycle::counted(m, shuffle_id, id),
                s,
                p,
            ) == lifecycle::batch_counter(m, s, p),
{
}

/// Whether a note is about a partition and has a location for it.
pub open spec fn relocates(note: PbChangeLocationPartitionInfo, id: i32) -> bool {
    note.partition_id == id && note.partition is Some
}

/// What a master says of a partition that changed is the first of its notes that is about the
/// partition and has a location.
pub proof fn law_changed_partition_is_the_first_named(
    notes: Seq<PbChangeLocationPartitionInfo>,
    id: i32,
)
    ensures
        lifecycle::changed(notes, id) is None <==> forall|k: int|
            0 <= k < notes.len() ==> !relocates(#[trigger] notes[k], id),
        lifecycle::changed(notes, id) is Some ==> exists|k: int|
            0 <= k < notes.len() && relocates(#[trigger] notes[k], id)
                && notes[k].partition->0.model() == lifecycle::changed(notes, id)->0
                && notes[k].partition->0.push_port == (lifecycle::changed(notes, id)->0).push_port
                && forall|j: int| 0 <= j < k ==> !relocates(#[trigger] notes[j], id),
    decreases notes.len(),
{
    if notes.len() > 0 {
        let later = notes.drop_first();
        law_changed_partition_is_the_first_named(later, id);
        if relocates(notes[0], id) {
            assert(notes[0].partition->0.model() == lifecycle::changed(notes, id)->0);
        } else if lifecycle::changed(later, id) is Some {
            let k = choose|k: int|
                0 <= k < later.len() && relocates(#[trigger] later[k], id)
                    && later[k].partition->0.model() == lifecycle::changed(later, id)->0
                    && later[k].partition->0.push_port == (lifecycle::changed(
                    later,
                    id,
                )->0).push_port && forall|j: int|
                    0 <= j < k ==> !relocates(#[trigger] later[j], id);
            assert(notes[k + 1] == later[k]);
            assert forall|j: int| 0 <= j < k + 1 implies !relocates(#[trigger] notes[j], id) by {
                if j > 0 {
                    assert(notes[j] == later[j - 1]);
                }
            }
        } else {
            assert forall|j: int| 0 <= j < notes.len() implies !relocates(
                #[trigger] notes[j],
                id,
            ) by {
                if j > 0 {
                    assert(notes[j] == later[j - 1]);
                }
            }
        }
    }
}

/// The file groups of an answer are kept by partition; where a partition has several, the last
/// one counts. Each of its locations stands for the one in the message.
pub proof fn law_file_groups_are_kept_by_partition(s: Seq<(i32, PbFileGroup)>, k: int)
    requires
        0 <= k < s.len(),
        forall|j: int| k < j < s.len() ==> (#[trigger] s[j]).0 != s[k].0,
    ensures
        lifecycle::file_groups(s).dom().contains(s[k].0),
        lifecycle::file_groups(s)[s[k].0].len() == s[k].1.locations@.len(),
        forall|i: int|
            0 <= i < s[k].1.locations@.len() ==> stands_for(
                #[trigger] lifecycle::file_groups(s)[s[k].0][i],
                s[k].1.locations@[i],
            ),
    decreases s.len(),
{
    let before = s.drop_last();
    if k < s.len() - 1 {
        assert(before[k] == s[k]);
        assert forall|j: int| k < j < before.len() implies (#[trigger] before[j]).0
            != before[k].0 by {
            assert(before[j] == s[j]);
        }
        law_file_groups_are_kept_by_partition(before, k);
        assert(s[s.len() - 1].0 != s[k].0);
    }
}

/// A partition without a file group is not among those kept.
pub proof fn law_no_other_file_groups(s: Seq<(i32, PbFileGroup)>, id: i32)
    requires
        forall|j: int| 0 <= j < s.len() ==> (#[trigger] s[j]).0 != id,
    ensures
        !lifecycle::file_groups(s).dom().contains(id),
    decreases s.len(),
{
    if s.len() > 0 {
        let before = s.drop_last();
        assert forall|j: int| 0 <= j < before.len() implies (#[trigger] before[j]).0 != id by {
            assert(before[j] == s[j]);
        }
        law_no_other_file_groups(before, id);
        assert(s[s.len() - 1].0 != id);
    }
}

/// A table of locations is modelled by what it holds: each partition with its locations in their
/// order, and each of them with its own host, ports, partition and epoch.
pub proof fn law_table_holds_its_locations(m: Map<i32, Vec<PartitionLocation>>, id: i32, i: int)
    ensures
        locations::table(m).dom() == m.dom(),
        m.dom().contains(id) ==> locations::held(locations::table(m), id).len() == m[id]@.len(),
        !m.dom().contains(id) ==> locations::held(locations::table(m), id).len() == 0,
        m.dom().contains(id) && 0 <= i < m[id]@.len() ==> {
            let l = locations::held(locations::table(m), id)[i];
            &&& l.id == m[id]@[i].id
            &&& l.epoch == m[id]@[i].epoch
            &&& l.host == m[id]@[i].host@
            &&& l.rpc_port == m[id]@[i].rpc_port
            &&& l.push_port == m[id]@[i].push_port
            &&& l.fetch_port == m[id]@[i].fetch_port
            &&& l.replicate_port == m[id]@[i].replicate_port
            &&& l.mode == m[id]@[i].mode
        },
{
    assert(locations::table(m).dom() =~= m.dom());
}

/// What the manager knows of a shuffle is what it holds of it.
pub proof fn law_manager_knows_what_it_holds(manager: LifecycleManager, shuffle_id: i32)
    ensures
        manager.model().dom().contains(shuffle_id) <==> manager.shuffles@.dom().contains(
            shuffle_id,
        ),
        manager.shuffles@.dom().contains(shuffle_id) ==> {
            let s = manager.model()[shuffle_id];
            let t = manager.shuffles@[shuffle_id];
            &&& s.num_mappers == t.num_mappers
            &&& s.num_partitions == t.num_partitions
            &&& s.registered == t.registered
            &&& s.committed == t.committed_ids@
            &&& s.counters == t.batch_id_counters@
            &&& s.locations.dom() == t.partition_locations@.dom()
        },
{
    if manager.shuffles@.dom().contains(shuffle_id) {
        law_table_holds_its_locations(
            manager.shuffles@[shuffle_id].partition_locations@,
            0,
            0,
        );
    }
}

/// A shuffle that is known is not registered again; for another, slots are asked for.
pub proof fn law_known_shuffle_needs_no_slots(
    manager: LifecycleManager,
    shuffle_id: i32,
    num_partitions: i32,
    hostname: String,
    request_id: String,
    r: RegisterTurn,
)
    requires
        manager.registers(shuffle_id, num_partitions, hostname, request_id, r),
    ensures
        manager.shuffles@.dom().contains(shuffle_id) ==> r == RegisterTurn::Registered(shuffle_id),
        !manager.shuffles@.dom().contains(shuffle_id) ==> r is RequestSlots && {
            let q = r->RequestSlots_0;
            &&& q.shuffle_id == shuffle_id
            &&& q.application_id@ == manager.config.app_id@
            &&& q.should_replicate == manager.config.push_replicate_enabled
            &&& q.hostname@ == hostname@
            &&& q.request_id@ == request_id@
            &&& num_partitions >= 0 ==> q.partition_id_list@.len() == num_partitions
        },
{
    law_manager_knows_what_it_holds(manager, shuffle_id);
}

/// Slots that were granted come to the locations of the shuffle, and to reservations of each slot
/// at its worker; slots that were refused come to an error with the status.
pub proof fn law_granted_slots_are_planned(
    manager: LifecycleManager,
    shuffle_id: i32,
    num_mappers: i32,
    num_partitions: i32,
    response: PbRequestSlotsResponse,
    r: Result<SlotPlan>,
)
    requires
        manager.plans(shuffle_id, num_mappers, num_partitions, &response, r),
    ensures
        r is Ok <==> response.status == 0 || response.status == 1,
        r matches Ok(plan) ==> {
            let s = plan.state.model();
            &&& s.num_mappers == num_mappers
            &&& s.num_partitions == num_partitions
            &&& s.committed == Set::<Seq<char>>::empty()
            &&& s.counters.dom() == Set::<i32>::empty()
            &&& s.locations == lifecycle::by_partition(lifecycle::slots(response.worker_resource@))
            &&& forall|i: int|
                0 <= i < plan.reservations@.len() ==> (
                #[trigger] plan.reservations@[i]).request.shuffle_id == shuffle_id
                    && plan.reservations@[i].request.application_id@ == manager.config.app_id@
        },
        r is Err ==> r->Err_0 is ServerError && r->Err_0->ServerError_status == error::status_of(
            response.status,
        ),
{
}

/// A mapper has ended once it was noted, of its shuffle alone; the note says whether it was new.
pub proof fn law_ended_mapper_is_noted(
    manager: LifecycleManager,
    after: LifecycleManager,
    shuffle_id: i32,
    map_id: i32,
    attempt_id: i32,
    num_mappers: i32,
    r: Result<bool>,
)
    requires
        manager.notes_end(&after, shuffle_id, map_id, attempt_id, num_mappers, r),
    ensures
        after.ended_mappers@.dom().contains(shuffle_id),
        after.ended_mappers@[shuffle_id]@.contains(map_id),
        r is Ok,
        r->Ok_0 <==> !(manager.ended_mappers@.dom().contains(shuffle_id)
            && manager.ended_mappers@[shuffle_id]@.contains(map_id)),
        forall|s: i32, m: i32|
            s != shuffle_id || m != map_id ==> #[trigger] after.has_ended(s, m)
                == manager.has_ended(s, m),
        after.shuffles == manager.shuffles,
{
    assert(after.has_ended(shuffle_id, map_id));
}

/// Pushed data is noted for its shuffle if that is known, under the name that it was pushed with.
pub proof fn law_noted_data_is_that_of_its_shuffle(
    manager: LifecycleManager,
    after: LifecycleManager,
    shuffle_id: i32,
    unique_id: &str,
)
    requires
        manager.notes_data(&after, shuffle_id, unique_id),
    ensures
        after.model().dom() == manager.model().dom(),
        manager.model().dom().contains(shuffle_id) ==> after.model()[shuffle_id].committed
            == manager.model()[shuffle_id].committed.insert(unique_id@)
            && after.model()[shuffle_id].locations == manager.model()[shuffle_id].locations
            && after.model()[shuffle_id].counters == manager.model()[shuffle_id].counters,
        forall|s: i32|
            s != shuffle_id && #[trigger] manager.model().dom().contains(s) ==> after.model()[s]
                == manager.model()[s],
{
    assert(after.model().dom() =~= manager.model().dom());
}

/// The file groups of a shuffle that is known are its locations; for another, its manager is
/// asked.
pub proof fn law_file_groups_of_a_known_shuffle(
    manager: LifecycleManager,
    shuffle_id: i32,
    r: FileGroupTurn,
)
    requires
        manager.finds_groups(shuffle_id, r),
    ensures
        r is Local <==> manager.shuffles@.dom().contains(shuffle_id),
        r matches FileGroupTurn::Local(m) ==> locations::table(m@)
            == manager.model()[shuffle_id].locations,
        r matches FileGroupTurn::Ask(q) ==> q.shuffle_id == shuffle_id,
{
    law_manager_knows_what_it_holds(manager, shuffle_id);
}

/// File groups are taken over from an answer that succeeded, and from no other.
pub proof fn law_file_groups_are_taken_over(
    shuffle_id: i32,
    response: PbGetReducerFileGroupResponse,
    r: Result<HashMap<i32, Vec<PartitionLocation>>>,
)
    requires
        LifecycleManager::groups_received(shuffle_id, &response, r),
    ensures
        r is Ok <==> response.status == 0 || response.status == 1,
        r matches Ok(m) ==> locations::table(m@) == lifecycle::file_groups(response.file_groups@),
        r is Err ==> r->Err_0 is ServerError && r->Err_0->ServerError_status == error::status_of(
            response.status,
        ),
{
}

/// A shuffle that is unregistered is not known any more, and no mapper of it has ended; the
/// others are as they were.
pub proof fn law_unregistered_shuffle_is_forgotten(
    manager: LifecycleManager,
    after: LifecycleManager,
    shuffle_id: i32,
)
    requires
        manager.forgets(&after, shuffle_id),
    ensures
        !after.shuffles@.dom().contains(shuffle_id),
        forall|m: i32| !(#[trigger] after.has_ended(shuffle_id, m)),
        forall|s: i32|
            s != shuffle_id && #[trigger] manager.model().dom().contains(s)
                ==> after.model().dom().contains(s) && after.model()[s] == manager.model()[s],
        forall|s: i32, m: i32|
            s != shuffle_id ==> #[trigger] after.has_ended(s, m) == manager.has_ended(s, m),
{
    law_manager_knows_what_it_holds(after, shuffle_id);
}

/// A revival asks for the partition and the epoch that it is for, and describes the location that
/// is replaced.
pub proof fn law_revival_is_asked_for(
    shuffle_id: i32,
    partition_id: i32,
    epoch: i32,
    old_location: Option<&PartitionLocation>,
    r: PbRevive,
)
    requires
        LifecycleManager::asks_to_revive(shuffle_id, partition_id, epoch, old_location, r),
    ensures
        r.shuffle_id == shuffle_id,
        r.partition_info@.len() == 1,
        r.partition_info@[0].partition_id == partition_id,
        r.partition_info@[0].epoch == epoch,
        r.partition_info@[0].status == 0,
        old_location is Some == r.partition_info@[0].partition is Some,
        old_location matches Some(l) ==> stands_for(
            l.model(),
            r.partition_info@[0].partition->0,
        ),
{
    if old_location is Some {
        law_described_location_names_the_fields(
            *(old_location->0),
            r.partition_info@[0].partition->0,
        );
    }
}

/// A revived partition has its new location behind those that it had: the first that the answer
/// names for it. Where the answer names none, nothing changes.
pub proof fn law_revived_partition_has_its_new_location(
    manager: LifecycleManager,
    after: LifecycleManager,
    shuffle_id: i32,
    partition_id: i32,
    response: PbChangeLocationResponse,
    r: Result<PartitionLocation>,
)
    requires
        manager.notes_revival(&after, shuffle_id, partition_id, &response, r),
    ensures
        ({
            let m = manager.model();
            let n = after.model();
            let was = locations::held(m[shuffle_id].locations, partition_id);
            &&& r is Err ==> n == m && r->Err_0 == (CelebornError::PartitionNotFound {
                shuffle_id,
                partition_id,
            })
            &&& r is Ok && m.dom().contains(shuffle_id)
                ==> n[shuffle_id].locations[partition_id] == was.push(r->Ok_0.model())
            &&& n.dom() == m.dom()
            &&& forall|s: i32| s != shuffle_id && #[trigger] m.dom().contains(s) ==> n[s] == m[s]
            &&& (exists|k: int|
                0 <= k < response.partition_info@.len() && relocates(
                    #[trigger] response.partition_info@[k],
                    partition_id,
                )) ==> r is Ok
        }),
{
    assert(after.model().dom() =~= manager.model().dom());
    if exists|k: int|
        0 <= k < response.partition_info@.len() && relocates(
            #[trigger] response.partition_info@[k],
            partition_id,
        ) {
        let k = choose|k: int|
            0 <= k < response.partition_info@.len() && relocates(
                #[trigger] response.partition_info@[k],
                partition_id,
            );
        lemma_change_is_found(response.partition_info@, partition_id, k);
    }
}

proof fn lemma_change_is_found(s: Seq<PbChangeLocationPartitionInfo>, id: i32, k: int)
    requires
        0 <= k < s.len(),
        relocates(s[k], id),
    ensures
        lifecycle::changed(s, id) is Some,
    decreases s.len(),
{
    if k > 0 && !(s[0].partition_id == id && s[0].partition is Some) {
        assert(s.drop_first()[k - 1] == s[k]);
        lemma_change_is_found(s.drop_first(), id, k - 1);
    }
}

/// The master is told how much the application wrote.
pub proof fn law_heartbeat_says_what_was_written(
    manager: LifecycleManager,
    total_written: i64,
    file_count: i64,
    request_id: String,
    r: PbHeartbeatFromApplication,
)
    requires
        manager.beats(total_written, file_count, request_id, r),
    ensures
        r.app_id@ == manager.config.app_id@,
        r.total_written == total_written,
        r.file_count == file_count,
        r.request_id@ == request_id@,
{
}

} // verus!
