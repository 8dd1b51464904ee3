//! Partitions that are split: which location counts, who is asked for a new one, and who is told.

use std::collections::HashMap;

use vstd::prelude::*;

use crate::client::partition_split;
use crate::client::partition_split::{
    Allocation, ChangePartitionRequest, ChangeReply, EntryModel, ManagerModel,
    PartitionLocationManager, PartitionLocationWithSplit, PendingBatch, SplitModel, SplitStatus,
    SplitTurn,
};
use crate::error;
use crate::error::{CelebornError, Result};
use crate::text;

verus! {

/// The epochs of an entry that are known.
pub open spec fn known(m: ManagerModel, shuffle_id: i32, partition_id: i32, epoch: i32) -> bool {
    &&& m.locations.dom().contains(shuffle_id)
    &&& m.locations[shuffle_id].dom().contains(partition_id)
    &&& m.locations[shuffle_id][partition_id].locations.dom().contains(epoch)
}

/// A location is found under its own epoch, and no other epoch, partition or shuffle is changed
/// by noting it. It counts from then on unless a later epoch is known.
pub proof fn law_noted_location_is_found(m: ManagerModel, shuffle_id: i32, loc: SplitModel)
    ensures
        ({
            let after = partition_split::with_split_location(m, shuffle_id, loc);
            let id = loc.location.id;
            let e = partition_split::entry_of(m, shuffle_id, id);
            let f = partition_split::entry_of(after, shuffle_id, id);
            &&& known(after, shuffle_id, id, loc.location.epoch)
            &&& after.locations[shuffle_id][id].locations[loc.location.epoch] == loc
            &&& partition_split::at_epoch(f, loc.location.epoch) == Some(loc)
            &&& f.current_epoch >= loc.location.epoch
            &&& f.current_epoch >= e.current_epoch
            &&& f.current_epoch == loc.location.epoch || f.current_epoch == e.current_epoch
            &&& loc.location.epoch >= e.current_epoch ==> partition_split::latest(
                after,
                shuffle_id,
                id,
            ) == Some(loc)
            &&& loc.location.epoch < e.current_epoch ==> partition_split::latest(
                after,
                shuffle_id,
                id,
            ) == partition_split::latest(m, shuffle_id, id)
            &&& forall|s: i32, p: i32, n: i32|
                #![trigger known(after, s, p, n)]
                !(s == shuffle_id && p == id && n == loc.location.epoch) ==> known(after, s, p, n)
                    == known(m, s, p, n) && (known(m, s, p, n)
                    ==> after.locations[s][p].locations[n] == m.locations[s][p].locations[n])
            &&& after.pending == m.pending
            &&& after.in_batch == m.in_batch
        }),
{
}

/// A partition of which nothing is known has no location at any epoch.
pub proof fn law_unknown_partition_has_no_location(
    m: ManagerModel,
    shuffle_id: i32,
    partition_id: i32,
    epoch: i32,
)
    requires
        !m.locations.dom().contains(shuffle_id) || !m.locations[shuffle_id].dom().contains(
            partition_id,
        ),
    ensures
        partition_split::latest(m, shuffle_id, partition_id) is None,
        partition_split::at_epoch(
            partition_split::entry_of(m, shuffle_id, partition_id),
            epoch,
        ) is None,
        !partition_split::is_newer(m, shuffle_id, partition_id, epoch),
{
}

/// A location counts as newer than an epoch just if a later epoch was noted for its partition.
pub proof fn law_newer_is_a_later_epoch(
    m: ManagerModel,
    shuffle_id: i32,
    loc: SplitModel,
    epoch: i32,
)
    ensures
        ({
            let after = partition_split::with_split_location(m, shuffle_id, loc);
            let id = loc.location.id;
            &&& loc.location.epoch > epoch ==> partition_split::is_newer(after, shuffle_id, id, epoch)
            &&& loc.location.epoch <= epoch && epoch >= 0 ==> partition_split::is_newer(
                after,
                shuffle_id,
                id,
                epoch,
            ) == partition_split::is_newer(m, shuffle_id, id, epoch)
        }),
{
}

/// Where a later location is known, a hard split is answered with it at once and a soft one
/// with none needed; else a new location is asked for, and only a hard split waits for it. A
/// number that is no split is an error.
pub proof fn law_split_is_answered_or_asked_for(
    r: Result<SplitTurn>,
    m: ManagerModel,
    request: ChangePartitionRequest,
    response_status: u8,
)
    requires
        partition_split::answers_push(r, m, request, response_status),
    ensures
        ({
            let newer = m.locations.dom().contains(request.shuffle_id)
                && m.locations[request.shuffle_id].dom().contains(request.partition_id)
                && m.locations[request.shuffle_id][request.partition_id].current_epoch
                > request.epoch;
            &&& response_status != 21 && response_status != 22 ==> r is Err && r->Err_0 is Protocol
            &&& response_status == 21 && !newer ==> r == Ok::<SplitTurn, CelebornError>(
                SplitTurn::RequestAndWait(request),
            )
            &&& response_status == 22 && !newer ==> r == Ok::<SplitTurn, CelebornError>(
                SplitTurn::Request(request),
            )
            &&& response_status == 21 && newer ==> r is Ok && r->Ok_0 is Known
                && partition_split::optional(r->Ok_0->Known_0) == partition_split::latest(
                m,
                request.shuffle_id,
                request.partition_id,
            )
            &&& response_status == 22 && newer ==> r == Ok::<SplitTurn, CelebornError>(
                SplitTurn::Known(None),
            )
        }),
{
}

/// The latest location of a partition is the one of its current epoch.
pub proof fn law_latest_is_of_the_current_epoch(
    m: ManagerModel,
    shuffle_id: i32,
    partition_id: i32,
)
    requires
        m.locations.dom().contains(shuffle_id),
        m.locations[shuffle_id].dom().contains(partition_id),
    ensures
        ({
            let e = m.locations[shuffle_id][partition_id];
            &&& e.locations.dom().contains(e.current_epoch) ==> partition_split::latest(
                m,
                shuffle_id,
                partition_id,
            ) == Some(e.locations[e.current_epoch])
            &&& !e.locations.dom().contains(e.current_epoch) ==> partition_split::latest(
                m,
                shuffle_id,
                partition_id,
            ) is None
        }),
{
}

/// A shuffle that is registered is known with nothing in it; one that was known already keeps
/// what it has, and so do the others.
pub proof fn law_registered_shuffle_starts_empty(m: ManagerModel, shuffle_id: i32)
    ensures
        ({
            let after = partition_split::with_shuffle(m, shuffle_id);
            &&& after.locations.dom() == m.locations.dom().insert(shuffle_id)
            &&& after.pending.dom() == m.pending.dom().insert(shuffle_id)
            &&& after.in_batch.dom() == m.in_batch.dom().insert(shuffle_id)
            &&& !m.locations.dom().contains(shuffle_id) ==> after.locations[shuffle_id]
                == Map::<i32, EntryModel>::empty()
            &&& !m.pending.dom().contains(shuffle_id) ==> after.pending[shuffle_id].dom()
                == Set::<Seq<char>>::empty()
            &&& !m.in_batch.dom().contains(shuffle_id) ==> after.in_batch[shuffle_id]
                == Set::<Seq<char>>::empty()
            &&& forall|s: i32| #[trigger]
                m.locations.dom().contains(s) ==> after.locations[s] == m.locations[s]
            &&& forall|s: i32| #[trigger]
                m.pending.dom().contains(s) ==> after.pending[s] == m.pending[s]
            &&& forall|s: i32| #[trigger]
                m.in_batch.dom().contains(s) ==> after.in_batch[s] == m.in_batch[s]
        }),
{
}

/// A request waits behind those of its range: the range of the location that it replaces, or
/// else the partition alone. No other range is touched.
pub proof fn law_request_waits_in_its_range(
    m: ManagerModel,
    r: ChangePartitionRequest,
    list: Vec<ChangePartitionRequest>,
)
    ensures
        ({
            let after = partition_split::request_added(m, r, list);
            let range = match r.old_partition {
                Some(p) => text::int_text(p.location.id as int) + seq!['_'] + text::int_text(
                    p.split_start as int,
                ) + seq!['_'] + text::int_text(p.split_end as int),
                None => text::int_text(r.partition_id as int),
            };
            &&& after.pending.dom().contains(r.shuffle_id)
            &&& after.pending[r.shuffle_id].dom().contains(range)
            &&& after.pending[r.shuffle_id][range] == list
            &&& partition_split::request_range(r) == range
            &&& partition_split::pending_of(after, r.shuffle_id)[range] == list
            &&& forall|k: Seq<char>|
                k != range ==> #[trigger] partition_split::pending_of(
                    after,
                    r.shuffle_id,
                ).dom().contains(k) == partition_split::pending_of(m, r.shuffle_id).dom().contains(k)
            &&& after.locations == m.locations
            &&& after.in_batch == m.in_batch
        }),
{
}

/// The ranges that are handled next are those that wait and are not being handled; they wait no
/// more and are being handled from then on, while those that were being handled still wait.
pub proof fn law_waiting_ranges_are_taken(m: ManagerModel, shuffle_id: i32, range: Seq<char>)
    ensures
        ({
            let after = partition_split::batches_taken(m, shuffle_id);
            let waits = m.pending.dom().contains(shuffle_id)
                && m.pending[shuffle_id].dom().contains(range);
            let handled = m.in_batch.dom().contains(shuffle_id)
                && m.in_batch[shuffle_id].contains(range);
            &&& partition_split::ready(m, shuffle_id).contains(range) <==> waits && !handled
            &&& waits && !handled ==> after.in_batch[shuffle_id].contains(range)
                && !after.pending[shuffle_id].dom().contains(range)
            &&& waits && handled ==> after.pending[shuffle_id].dom().contains(range)
                && after.pending[shuffle_id][range] == m.pending[shuffle_id][range]
                && after.in_batch[shuffle_id].contains(range)
            &&& after.locations == m.locations
        }),
{
}

/// Whether a batch is what waits in its range.
pub open spec fn is_waiting(m: ManagerModel, shuffle_id: i32, b: PendingBatch) -> bool {
    &&& m.pending.dom().contains(shuffle_id)
    &&& m.pending[shuffle_id].dom().contains(b.split_range@)
    &&& b.requests == m.pending[shuffle_id][b.split_range@]
}

/// Each range that is ready is handed out once, with all the requests that wait in it.
pub proof fn law_ready_ranges_are_handed_out(
    batches: Seq<PendingBatch>,
    m: ManagerModel,
    shuffle_id: i32,
    range: Seq<char>,
)
    requires
        partition_split::batches_of(
            batches,
            partition_split::pending_of(m, shuffle_id),
            partition_split::ready(m, shuffle_id),
        ),
    ensures
        forall|i: int|
            0 <= i < batches.len() ==> is_waiting(m, shuffle_id, #[trigger] batches[i]),
        m.pending.dom().contains(shuffle_id) && m.pending[shuffle_id].dom().contains(range) && !(
        m.in_batch.dom().contains(shuffle_id) && m.in_batch[shuffle_id].contains(range))
            ==> exists|i: int|
            0 <= i < batches.len() && (#[trigger] batches[i]).split_range@ == range,
        forall|i: int, j: int|
            #![trigger batches[i], batches[j]]
            0 <= i < batches.len() && 0 <= j < batches.len() && i != j ==> batches[i].split_range@
                != batches[j].split_range@,
{
    assert forall|i: int| 0 <= i < batches.len() implies is_waiting(
        m,
        shuffle_id,
        #[trigger] batches[i],
    ) by {
        law_waiting_ranges_are_taken(m, shuffle_id, batches[i].split_range@);
    }
    law_waiting_ranges_are_taken(m, shuffle_id, range);
    if m.pending.dom().contains(shuffle_id) && m.pending[shuffle_id].dom().contains(range) && !(
    m.in_batch.dom().contains(shuffle_id) && m.in_batch[shuffle_id].contains(range)) {
        assert(partition_split::ready(m, shuffle_id).contains(range));
    }
}

/// A range that was handled is not being handled any more; every other is as it was.
pub proof fn law_finished_range_is_free(m: ManagerModel, shuffle_id: i32, range: Seq<char>)
    ensures
        ({
            let after = partition_split::batch_finished(m, shuffle_id, range);
            &&& !partition_split::in_batch_of(after, shuffle_id).contains(range)
            &&& forall|k: Seq<char>|
                k != range ==> #[trigger] partition_split::in_batch_of(after, shuffle_id).contains(k)
                    == partition_split::in_batch_of(m, shuffle_id).contains(k)
            &&& after.locations == m.locations
            &&& after.pending == m.pending
        }),
{
}

/// The newest of the requests of a range speaks for them: none has a later epoch, and none
/// behind it has the same.
pub proof fn law_newest_request_speaks_for_its_range(s: Seq<ChangePartitionRequest>)
    requires
        s.len() > 0,
    ensures
        ({
            let k = partition_split::newest(s);
            &&& 0 <= k < s.len()
            &&& forall|j: int| 0 <= j < s.len() ==> (#[trigger] s[j]).epoch <= s[k].epoch
            &&& forall|j: int| k < j < s.len() ==> (#[trigger] s[j]).epoch < s[k].epoch
        }),
    decreases s.len(),
{
    if s.len() > 1 {
        let t = s.drop_last();
        law_newest_request_speaks_for_its_range(t);
        let i = partition_split::newest(t);
        let k = partition_split::newest(s);
        assert(t[i] == s[i]);
        assert forall|j: int| 0 <= j < s.len() implies (#[trigger] s[j]).epoch <= s[k].epoch by {
            if j < t.len() {
                assert(t[j].epoch <= t[i].epoch);
            }
        }
        assert forall|j: int| k < j < s.len() implies (#[trigger] s[j]).epoch < s[k].epoch by {
            if j < t.len() {
                assert(t[j].epoch < t[i].epoch);
            }
        }
    }
}

/// Each that asked is told: the new location, or why there is none.
pub proof fn law_each_request_is_told(
    reply: ChangeReply,
    request: ChangePartitionRequest,
    outcome: Result<PartitionLocationWithSplit>,
)
    requires
        partition_split::tells(reply, request, outcome),
    ensures
        reply.reply_to == request.reply_to,
        reply.outcome is Ok <==> outcome is Ok,
        outcome matches Ok(loc) ==> reply.outcome->Ok_0.location.host@ == loc.location.host@
            && reply.outcome->Ok_0.location.push_port == loc.location.push_port
            && reply.outcome->Ok_0.location.epoch == loc.location.epoch
            && reply.outcome->Ok_0.location.id == loc.location.id
            && reply.outcome->Ok_0.split_start == loc.split_start
            && reply.outcome->Ok_0.split_end == loc.split_end,
        outcome matches Err(e) ==> reply.outcome->Err_0 is Internal
            && reply.outcome->Err_0->Internal_0@ == "Failed to allocate new partition location: "@
            + error::error_text(e),
{
}

/// What a manager is modelled by is what it holds: each epoch of each partition with its
/// location and its range, and each current epoch.
pub proof fn law_manager_holds_what_its_model_says(
    manager: PartitionLocationManager,
    shuffle_id: i32,
    partition_id: i32,
    epoch: i32,
)
    ensures
        ({
            let m = manager.model();
            let held = manager.partition_locations@.dom().contains(shuffle_id)
                && manager.partition_locations@[shuffle_id]@.dom().contains(partition_id);
            let e = manager.partition_locations@[shuffle_id]@[partition_id];
            &&& held ==> m.locations[shuffle_id][partition_id].current_epoch == e.current_epoch
            &&& known(m, shuffle_id, partition_id, epoch) <==> held
                && e.locations@.dom().contains(epoch)
            &&& known(m, shuffle_id, partition_id, epoch) ==> {
                let l = m.locations[shuffle_id][partition_id].locations[epoch];
                &&& l.split_start == e.locations@[epoch].split_start
                &&& l.split_end == e.locations@[epoch].split_end
                &&& l.location.id == e.locations@[epoch].location.id
                &&& l.location.epoch == e.locations@[epoch].location.epoch
                &&& l.location.host == e.locations@[epoch].location.host@
                &&& l.location.push_port == e.locations@[epoch].location.push_port
                &&& l.location.fetch_port == e.locations@[epoch].location.fetch_port
            }
        }),
{
}

/// A split is answered by the later location where one is known; else one is asked for, with
/// what the split was told with, and only a hard split waits for it.
pub proof fn law_split_is_handled(
    manager: PartitionLocationManager,
    shuffle_id: i32,
    partition_id: i32,
    epoch: i32,
    old_location: Option<PartitionLocationWithSplit>,
    status: SplitStatus,
    reply_to: u64,
    r: SplitTurn,
)
    requires
        manager.handles(shuffle_id, partition_id, epoch, old_location, status, reply_to, r),
    ensures
        ({
            let m = manager.model();
            let newer = m.locations.dom().contains(shuffle_id)
                && m.locations[shuffle_id].dom().contains(partition_id)
                && m.locations[shuffle_id][partition_id].current_epoch > epoch;
            let asked = match r {
                SplitTurn::Request(q) => q,
                SplitTurn::RequestAndWait(q) => q,
                SplitTurn::Known(_) => arbitrary(),
            };
            &&& r is Known <==> newer
            &&& newer ==> partition_split::optional(r->Known_0) == partition_split::latest(
                m,
                shuffle_id,
                partition_id,
            )
            &&& !newer ==> (r is RequestAndWait <==> status is HardSplit)
            &&& !newer ==> asked.shuffle_id == shuffle_id && asked.partition_id == partition_id
                && asked.epoch == epoch && asked.old_partition == old_location && asked.cause
                == Some(status) && asked.reply_to == reply_to
        }),
{
}

/// What is allocated for a range is what its newest request asks for.
pub proof fn law_newest_request_is_allocated(batch: PendingBatch, r: Option<Allocation>)
    requires
        PartitionLocationManager::allocates(&batch, r),
    ensures
        r is None <==> batch.requests@.len() == 0,
        r matches Some(a) ==> exists|k: int|
            0 <= k < batch.requests@.len() && (#[trigger] batch.requests@[k]).epoch == a.epoch
                && batch.requests@[k].shuffle_id == a.shuffle_id && batch.requests@[k].partition_id
                == a.partition_id && forall|j: int|
                0 <= j < batch.requests@.len() ==> (#[trigger] batch.requests@[j]).epoch <= a.epoch,
{
    if batch.requests@.len() > 0 {
        law_newest_request_speaks_for_its_range(batch.requests@);
        let k = partition_split::newest(batch.requests@);
        assert(batch.requests@[k].epoch == r->0.epoch);
    }
}

/// A new location is noted, its range is free again, and each request of it is told in its order;
/// without a location nothing is noted, but all of them are told, too.
pub proof fn law_allocation_is_settled(
    manager: PartitionLocationManager,
    after: PartitionLocationManager,
    shuffle_id: i32,
    batch: PendingBatch,
    outcome: Result<PartitionLocationWithSplit>,
    replies: Vec<ChangeReply>,
)
    requires
        manager.settles(&after, shuffle_id, &batch, outcome, replies),
    ensures
        replies@.len() == batch.requests@.len(),
        forall|i: int|
            0 <= i < replies@.len() ==> (#[trigger] replies@[i]).reply_to
                == batch.requests@[i].reply_to && (replies@[i].outcome is Ok) == (outcome is Ok),
        !partition_split::in_batch_of(after.model(), shuffle_id).contains(batch.split_range@),
        outcome is Err ==> after.model().locations == manager.model().locations,
        outcome matches Ok(loc) ==> partition_split::at_epoch(
            partition_split::entry_of(after.model(), shuffle_id, loc.location.id),
            loc.location.epoch,
        ) == Some(loc.model()),
        after.model().pending == manager.model().pending,
{
    let m = match outcome {
        Ok(loc) => partition_split::with_split_location(manager.model(), shuffle_id, loc.model()),
        Err(e) => manager.model(),
    };
    law_finished_range_is_free(m, shuffle_id, batch.split_range@);
    if outcome is Ok {
        law_noted_location_is_found(manager.model(), shuffle_id, outcome->Ok_0.model());
    }
}

/// A request that waits is the last of those of its range, and the others stay.
pub proof fn law_request_is_queued(
    manager: PartitionLocationManager,
    after: PartitionLocationManager,
    request: ChangePartitionRequest,
)
    requires
        manager.queues(&after, request),
    ensures
        ({
            let range = match request.old_partition {
                Some(p) => text::int_text(p.location.id as int) + seq!['_'] + text::int_text(
                    p.split_start as int,
                ) + seq!['_'] + text::int_text(p.split_end as int),
                None => text::int_text(request.partition_id as int),
            };
            let was = partition_split::pending_of(manager.model(), request.shuffle_id);
            let is = partition_split::pending_of(after.model(), request.shuffle_id);
            &&& is.dom().contains(range)
            &&& is[range]@.last() == request
            &&& was.dom().contains(range) ==> is[range]@.drop_last() == was[range]@
            &&& !was.dom().contains(range) ==> is[range]@.len() == 1
            &&& after.model().locations == manager.model().locations
        }),
{
    let was = partition_split::pending_of(manager.model(), request.shuffle_id);
    let list = choose|list: Vec<ChangePartitionRequest>|
        #![trigger partition_split::request_added(manager.model(), request, list)]
        {
            let pending = partition_split::pending_of(manager.model(), request.shuffle_id);
            &&& after.model() == partition_split::request_added(manager.model(), request, list)
            &&& list@ == (if pending.dom().contains(partition_split::request_range(request)) {
                pending[partition_split::request_range(request)]@
            } else {
                Seq::<ChangePartitionRequest>::empty()
            }).push(request)
        };
    law_request_waits_in_its_range(manager.model(), request, list);
    if was.dom().contains(partition_split::request_range(request)) {
        assert(list@.drop_last() =~= was[partition_split::request_range(request)]@);
    }
}

/// All locations of a shuffle are the latest ones of its partitions.
pub proof fn law_latest_locations_are_listed(
    manager: PartitionLocationManager,
    shuffle_id: i32,
    r: HashMap<i32, PartitionLocationWithSplit>,
    id: i32,
)
    requires
        manager.lists(shuffle_id, r),
    ensures
        r@.dom().contains(id) <==> partition_split::latest(manager.model(), shuffle_id, id) is Some,
        r@.dom().contains(id) ==> partition_split::latest(manager.model(), shuffle_id, id) == Some(
            r@[id].model(),
        ),
{
    let m = partition_split::epoch_models(r@);
    assert(m.dom().contains(id) == r@.dom().contains(id));
    if r@.dom().contains(id) {
        assert(m[id] == r@[id].model());
        let latest = Map::new(
            |k: i32| partition_split::latest(manager.model(), shuffle_id, k) is Some,
            |k: i32| partition_split::latest(manager.model(), shuffle_id, k)->0,
        );
        assert(m =~= latest);
        assert(latest[id] == partition_split::latest(manager.model(), shuffle_id, id)->0);
    }
}

} // verus!
