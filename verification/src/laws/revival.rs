//! Reviving partitions whose push failed.

use vstd::prelude::*;

use crate::client::revive;
use crate::client::revive::{ReviveManager, ReviveRequest, ShuffleRequests};
use crate::error;
use crate::error::{CelebornError, Result, StatusCode};
use crate::protocol::PartitionLocation;
use crate::text;

verus! {

/// A request of a batch ends with success where it was settled otherwise, because a newer
/// partition exists or its mapper has ended, or where it has an old location to go on with; it
/// ends with a failed revive where it has neither. Nothing else of it changes.
pub proof fn law_batch_settles_each_request(
    before: Seq<ReviveRequest>,
    after: Seq<ReviveRequest>,
    settled: Seq<bool>,
    i: int,
)
    requires
        revive::batch_settled(before, after, settled),
        0 <= i < before.len(),
    ensures
        after.len() == before.len(),
        settled[i] ==> error::status_of(after[i].revive_status) == StatusCode::Success,
        before[i].old_location is Some ==> error::status_of(after[i].revive_status)
            == StatusCode::Success,
        !settled[i] && before[i].old_location is None ==> error::status_of(after[i].revive_status)
            == StatusCode::ReviveFailed,
        settled[i] || before[i].old_location is Some ==> after[i].revive_status == 0,
        !settled[i] && before[i].old_location is None ==> after[i].revive_status == 12,
        after[i].shuffle_id == before[i].shuffle_id,
        after[i].map_id == before[i].map_id,
        after[i].attempt_id == before[i].attempt_id,
        after[i].partition_id == before[i].partition_id,
        after[i].epoch == before[i].epoch,
        after[i].old_location == before[i].old_location,
        after[i].cause == before[i].cause,
{
    assert(after[i] == revive::with_status(
        before[i],
        revive::batch_status(before[i], settled[i]),
    ));
}

/// The requests of a batch are settled each for itself: what becomes of one does not depend on
/// the others.
pub proof fn law_requests_are_settled_apart(
    before: Seq<ReviveRequest>,
    after: Seq<ReviveRequest>,
    settled: Seq<bool>,
    other_before: Seq<ReviveRequest>,
    other_after: Seq<ReviveRequest>,
    other_settled: Seq<bool>,
    i: int,
    j: int,
)
    requires
        revive::batch_settled(before, after, settled),
        revive::batch_settled(other_before, other_after, other_settled),
        0 <= i < before.len(),
        0 <= j < other_before.len(),
        before[i] == other_before[j],
        settled[i] == other_settled[j],
    ensures
        after[i] == other_after[j],
{
    law_batch_settles_each_request(before, after, settled, i);
    law_batch_settles_each_request(other_before, other_after, other_settled, j);
    assert(after[i] == revive::with_status(
        before[i],
        revive::batch_status(before[i], settled[i]),
    ));
    assert(other_after[j] == revive::with_status(
        other_before[j],
        revive::batch_status(other_before[j], other_settled[j]),
    ));
}

/// Requests are grouped by their shuffle: a group has just the requests of its shuffle, in
/// their order and each once, every request has a group, and no shuffle has two.
pub proof fn law_groups_are_by_shuffle(
    groups: Seq<ShuffleRequests>,
    s: Seq<ReviveRequest>,
    i: int,
    k: int,
)
    requires
        revive::grouped(groups, s),
        0 <= i < groups.len(),
        0 <= k < s.len(),
    ensures
        groups[i].requests@ == s.filter(|r: ReviveRequest| r.shuffle_id == groups[i].shuffle_id),
        exists|g: int|
            0 <= g < groups.len() && (#[trigger] groups[g]).shuffle_id == s[k].shuffle_id
                && groups[g].requests@.contains(s[k]),
        forall|g: int, h: int|
            #![trigger groups[g], groups[h]]
            0 <= g < h < groups.len() ==> groups[g].shuffle_id != groups[h].shuffle_id,
{
    lemma_of_shuffle(s, groups[i].shuffle_id);
    assert(revive::has_group(groups, s[k].shuffle_id));
    let g = choose|g: int|
        0 <= g < groups.len() && (#[trigger] groups[g]).shuffle_id == s[k].shuffle_id;
    lemma_of_shuffle(s, groups[g].shuffle_id);
    let p = |r: ReviveRequest| r.shuffle_id == groups[g].shuffle_id;
    assert(p(s[k]));
    s.lemma_filter_contains(p, k);
    assert(s.filter(p).contains(s[k]));
    assert(groups[g].requests@ == s.filter(p));
}

proof fn lemma_of_shuffle(s: Seq<ReviveRequest>, shuffle_id: i32)
    ensures
        revive::of_shuffle(s, shuffle_id) == s.filter(
            |r: ReviveRequest| r.shuffle_id == shuffle_id,
        ),
    decreases s.len(),
{
    reveal(Seq::filter);
    if s.len() > 0 {
        lemma_of_shuffle(s.drop_last(), shuffle_id);
    }
}

/// A worker is excluded, at the host and port that data is pushed to, for just the failures
/// that are the worker's: 17 to 19 and 38 to 43 among the numbers of statuses. No other worker
/// is excluded or let back in.
pub proof fn law_failing_worker_is_excluded(
    m: Map<Seq<char>, u64>,
    cause: StatusCode,
    location: PartitionLocation,
    now: u64,
    host: Seq<char>,
    port: i32,
)
    ensures
        ({
            let after = revive::excluded_after(m, cause, location, now);
            let n = error::status_code(cause);
            let at = location.host@ + seq![':'] + text::int_text(location.push_port as int);
            &&& 17 <= n <= 19 || 38 <= n <= 43 ==> after.dom().contains(at) && after[at] == now
            &&& !(17 <= n <= 19 || 38 <= n <= 43) ==> after == m
            &&& forall|w: Seq<char>|
                w != at ==> #[trigger] after.dom().contains(w) == m.dom().contains(w)
        }),
{
}

/// A partition that has a location goes on with it, and its worker is excluded if the cause is one
/// of the worker; one without a location is not found.
pub proof fn law_partition_goes_on_with_its_location(
    manager: ReviveManager,
    after: ReviveManager,
    shuffle_id: i32,
    partition_id: i32,
    old_location: Option<&PartitionLocation>,
    cause: StatusCode,
    now: u64,
    r: Result<PartitionLocation>,
)
    requires
        manager.revives_to(&after, shuffle_id, partition_id, old_location, cause, now, r),
    ensures
        r is Ok <==> old_location is Some,
        r matches Ok(l) ==> {
            let o = *(old_location->0);
            &&& l.host@ == o.host@
            &&& l.push_port == o.push_port
            &&& l.fetch_port == o.fetch_port
            &&& l.id == o.id
            &&& l.epoch == o.epoch
        },
        r is Err ==> r->Err_0 == (CelebornError::PartitionNotFound { shuffle_id, partition_id })
            && after.excluded_workers@ == manager.excluded_workers@,
        cause is PushDataTimeoutPrimary && old_location is Some
            ==> after.excluded_workers@.dom().contains(
            old_location->0.host@ + seq![':'] + text::int_text(old_location->0.push_port as int),
        ),
        cause is HardSplit ==> after.excluded_workers@ == manager.excluded_workers@,
{
}

/// A request excludes the worker of its old location if its cause is one of the worker, and no
/// other.
pub proof fn law_request_excludes_the_worker_of_its_location(
    manager: ReviveManager,
    after: ReviveManager,
    request: ReviveRequest,
    now: u64,
)
    requires
        manager.notes_request(&after, &request, now),
    ensures
        request.old_location is None ==> after.excluded_workers@ == manager.excluded_workers@,
        request.old_location matches Some(l) ==> {
            let name = l.host@ + seq![':'] + text::int_text(l.push_port as int);
            &&& revive::excludes(request.cause) ==> after.excluded_workers@.dom().contains(name)
                && after.excluded_workers@[name] == now
            &&& !revive::excludes(request.cause) ==> after.excluded_workers@
                == manager.excluded_workers@
            &&& forall|w: Seq<char>|
                w != name ==> #[trigger] after.excluded_workers@.dom().contains(w)
                    == manager.excluded_workers@.dom().contains(w)
        },
{
}

} // verus!
