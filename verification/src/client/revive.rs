//! Revive handling: new locations for partitions whose push failed.
//!
//! When a push operation fails (e.g., worker is down), the ReviveManager batches revive
//! requests. The queue and the clock are left to the caller.

use std::collections::{HashMap, HashSet};
use std::time::Duration;

use vstd::prelude::*;
use vstd::string::*;

use crate::error;
use crate::error::{CelebornError, Result, StatusCode};
use crate::protocol::PartitionLocation;
use crate::tables::WorkerTimes;
use crate::text;

verus! {

/// A request to revive a partition.
pub struct ReviveRequest {
    /// Shuffle ID
    pub shuffle_id: i32,
    /// Map ID
    pub map_id: i32,
    /// Attempt ID
    pub attempt_id: i32,
    /// Partition ID
    pub partition_id: i32,
    /// Current epoch
    pub epoch: i32,
    /// Old partition location (if available)
    pub old_location: Option<PartitionLocation>,
    /// Cause of the revive request
    pub cause: StatusCode,
    /// Revive status (set after revive completes)
    pub revive_status: i32,
}

impl ReviveRequest {
    /// Create a new revive request.
    pub fn new(
        shuffle_id: i32,
        map_id: i32,
        attempt_id: i32,
        partition_id: i32,
        epoch: i32,
        old_location: Option<PartitionLocation>,
        cause: StatusCode,
    ) -> (r: Self)
        ensures
            r == (ReviveRequest {
                shuffle_id,
                map_id,
                attempt_id,
                partition_id,
                epoch,
                old_location,
                cause,
                revive_status: error::status_code(StatusCode::Unknown) as i32,
            }),
            error::status_of(r.revive_status) == StatusCode::Unknown,
    {
        ReviveRequest {
            shuffle_id,
            map_id,
            attempt_id,
            partition_id,
            epoch,
            old_location,
            cause,
            revive_status: StatusCode::Unknown.code(),
        }
    }

    /// Get the revive status.
    pub fn get_status(&self) -> (r: StatusCode)
        ensures
            r == error::status_of(self.revive_status),
    {
        StatusCode::from(self.revive_status)
    }

    /// Set the revive status.
    pub fn set_status(&mut self, status: StatusCode)
        ensures
            *final(self) == with_status(*old(self), status),
    {
        self.revive_status = status.code();
    }
}

/// A request with another status.
pub open spec fn with_status(r: ReviveRequest, status: StatusCode) -> ReviveRequest {
    ReviveRequest { revive_status: error::status_code(status) as i32, ..r }
}

/// The status that was set is the one that is read.
pub proof fn law_status_is_read_back(r: ReviveRequest, status: StatusCode)
    ensures
        error::status_of(with_status(r, status).revive_status) == status,
{
    error::law_status_round_trip(status);
}

/// Result of a batch revive operation.
pub struct ReviveResult {
    /// Partition ID to new location mapping
    pub new_locations: HashMap<i32, PartitionLocation>,
    /// Partition ID to status code mapping
    pub status_codes: HashMap<i32, StatusCode>,
    /// Map IDs that have ended
    pub ended_map_ids: HashSet<i32>,
}

/// Whether a failure of this kind excludes the worker.
pub open spec fn excludes(cause: StatusCode) -> bool {
    ||| cause is PushDataFailNonCriticalCause
    ||| cause is PushDataWriteFailPrimary
    ||| cause is PushDataWriteFailReplica
    ||| cause is PushDataCreateConnectionFailPrimary
    ||| cause is PushDataCreateConnectionFailReplica
    ||| cause is PushDataConnectionExceptionPrimary
    ||| cause is PushDataConnectionExceptionReplica
    ||| cause is PushDataTimeoutPrimary
    ||| cause is PushDataTimeoutReplica
}

/// The excluded workers after a failure at the worker of a location.
pub open spec fn excluded_after(
    m: Map<Seq<char>, u64>,
    cause: StatusCode,
    location: PartitionLocation,
    now: u64,
) -> Map<Seq<char>, u64> {
    if excludes(cause) {
        m.insert(text::address_text(location.host@, location.push_port as int), now)
    } else {
        m
    }
}

/// The requests of one shuffle.
pub struct ShuffleRequests {
    pub shuffle_id: i32,
    pub requests: Vec<ReviveRequest>,
}

/// The requests for a shuffle, in their order.
pub open spec fn of_shuffle(s: Seq<ReviveRequest>, shuffle_id: i32) -> Seq<ReviveRequest>
    decreases s.len(),
{
    if s.len() == 0 {
        Seq::<ReviveRequest>::empty()
    } else if s.last().shuffle_id == shuffle_id {
        of_shuffle(s.drop_last(), shuffle_id).push(s.last())
    } else {
        of_shuffle(s.drop_last(), shuffle_id)
    }
}

/// Whether the groups hold the requests of each shuffle once.
pub open spec fn grouped(groups: Seq<ShuffleRequests>, s: Seq<ReviveRequest>) -> bool {
    &&& forall|i: int|
        0 <= i < groups.len() ==> (#[trigger] groups[i]).requests@ == of_shuffle(
            s,
            groups[i].shuffle_id,
        )
    &&& forall|i: int, j: int|
        #![trigger groups[i], groups[j]]
        0 <= i < j < groups.len() ==> groups[i].shuffle_id != groups[j].shuffle_id
    &&& forall|k: int| 0 <= k < s.len() ==> has_group(groups, (#[trigger] s[k]).shuffle_id)
}

/// Whether a shuffle has a group.
pub open spec fn has_group(groups: Seq<ShuffleRequests>, shuffle_id: i32) -> bool {
    exists|i: int| 0 <= i < groups.len() && (#[trigger] groups[i]).shuffle_id == shuffle_id
}

/// The status that a request ends with. It succeeds where it is settled already or an old
/// location can be used on.
pub open spec fn batch_status(r: ReviveRequest, settled: bool) -> StatusCode {
    if settled || r.old_location is Some {
        StatusCode::Success
    } else {
        StatusCode::ReviveFailed
    }
}

/// Whether each request of a batch has ended with its status.
pub open spec fn batch_settled(
    before: Seq<ReviveRequest>,
    after: Seq<ReviveRequest>,
    settled: Seq<bool>,
) -> bool {
    &&& after.len() == before.len()
    &&& settled.len() == before.len()
    &&& forall|i: int|
        0 <= i < before.len() ==> #[trigger] after[i] == with_status(
            before[i],
            batch_status(before[i], settled[i]),
        )
}

/// Manager for batching and processing revive requests.
pub struct ReviveManager {
    /// Batch size for revive requests
    pub batch_size: usize,
    /// Interval for processing batched requests
    pub batch_interval: Duration,
    /// Running flag
    pub running: bool,
    /// Excluded workers (worker_id -> timestamp)
    pub excluded_workers: WorkerTimes,
}

impl ReviveManager {
    /// Whether nothing but the excluded workers differs from `other`.
    pub open spec fn same_rest(&self, other: &ReviveManager) -> bool {
        self.batch_size == other.batch_size && self.batch_interval == other.batch_interval
            && self.running == other.running
    }

    /// Create a new ReviveManager.
    pub fn new(batch_size: usize, batch_interval: Duration) -> (r: Self)
        ensures
            r.batch_size == batch_size,
            r.batch_interval == batch_interval,
            r.running,
            r.excluded_workers@ == Map::<Seq<char>, u64>::empty(),
    {
        ReviveManager {
            batch_size,
            batch_interval,
            running: true,
            excluded_workers: WorkerTimes::new(),
        }
    }

    /// Which worker is excluded by a request.
    pub open spec fn notes_request(
        &self,
        after: &ReviveManager,
        request: &ReviveRequest,
        now: u64,
    ) -> bool {
        after.excluded_workers@ == match request.old_location {
            Some(loc) => excluded_after(
                self.excluded_workers@,
                request.cause,
                loc,
                now,
            ),
            None => self.excluded_workers@,
        }
    }

    /// Takes a request in that is to be queued: excludes the worker that caused the failure.
    pub fn add_request(&mut self, request: &ReviveRequest, now: u64)
        ensures
            final(self).same_rest(old(self)),
            old(self).notes_request(final(self), request, now),
    {
        match &request.old_location {
            Some(loc) => {
                self.exclude_worker_by_cause(request.cause, loc, now);
            },
            None => {},
        }
    }

    /// Exclude a worker based on the failure cause.
    pub fn exclude_worker_by_cause(&mut self, cause: StatusCode, location: &PartitionLocation, now: u64)
        ensures
            final(self).same_rest(old(self)),
            final(self).excluded_workers@ == excluded_after(
                old(self).excluded_workers@,
                cause,
                *location,
                now,
            ),
    {
        let critical: bool = matches!(
            cause,
            StatusCode::PushDataFailNonCriticalCause | StatusCode::PushDataWriteFailPrimary
                | StatusCode::PushDataWriteFailReplica
                | StatusCode::PushDataCreateConnectionFailPrimary
                | StatusCode::PushDataCreateConnectionFailReplica
                | StatusCode::PushDataConnectionExceptionPrimary
                | StatusCode::PushDataConnectionExceptionReplica
                | StatusCode::PushDataTimeoutPrimary | StatusCode::PushDataTimeoutReplica
        );
        if critical {
            self.excluded_workers.insert(
                text::address(location.host.as_str(), location.push_port),
                now,
            );
        }
    }

    /// Check if a worker is excluded.
    pub fn is_worker_excluded(&self, host: &str, port: i32) -> (r: bool)
        ensures
            r == self.excluded_workers@.dom().contains(text::address_text(host@, port as int)),
    {
        let worker_id: String = text::address(host, port);
        self.excluded_workers.contains_key(worker_id.as_str())
    }

    /// Remove a worker from the excluded list.
    pub fn remove_excluded_worker(&mut self, host: &str, port: i32)
        ensures
            final(self).same_rest(old(self)),
            final(self).excluded_workers@ == old(self).excluded_workers@.remove(
                text::address_text(host@, port as int),
            ),
    {
        let worker_id: String = text::address(host, port);
        self.excluded_workers.remove(worker_id.as_str());
    }

    /// Group requests by shuffle ID.
    pub fn group_by_shuffle(requests: Vec<ReviveRequest>) -> (r: Vec<ShuffleRequests>)
        ensures
            grouped(r@, requests@),
    {
        let ghost all = requests@;
        let mut rest: Vec<ReviveRequest> = requests;
        let n: usize = rest.len();
        let mut out: Vec<ShuffleRequests> = Vec::new();
        let mut k: usize = 0;
        while k < n
            invariant
                n == all.len(),
                k <= n,
                rest@ == all.skip(k as int),
                grouped(out@, all.take(k as int)),
            decreases n - k,
        {
            let ghost before = all.take(k as int);
            let ghost t = all.take(k + 1);
            let ghost out0 = out@;
            let request: ReviveRequest = rest.remove(0);
            proof {
                assert(request == all[k as int]);
                assert(rest@ =~= all.skip(k + 1));
                assert(t.drop_last() =~= before);
                assert(t.last() == request);
            }
            let id: i32 = request.shuffle_id;
            let m: usize = out.len();
            let mut i: usize = 0;
            while i < m && out[i].shuffle_id != id
                invariant
                    m == out@.len(),
                    i <= m,
                    out@ == out0,
                    forall|j: int| 0 <= j < i ==> (#[trigger] out@[j]).shuffle_id != id,
                decreases m - i,
            {
                i += 1;
            }
            if i == m {
                let mut list: Vec<ReviveRequest> = Vec::new();
                list.push(request);
                out.push(ShuffleRequests { shuffle_id: id, requests: list });
                proof {
                    lemma_none_of(before, id, out0);
                    assert(out@[m as int].requests@ =~= of_shuffle(t, id));
                }
            } else {
                out[i].requests.push(request);
            }
            proof {
                assert forall|a: int| 0 <= a < out@.len() implies (#[trigger] out@[a]).requests@
                    == of_shuffle(t, out@[a].shuffle_id) by {
                    if a < m {
                        assert(out0[a].requests@ == of_shuffle(before, out0[a].shuffle_id));
                        assert(out@[a].shuffle_id == out0[a].shuffle_id);
                        if a != i {
                            assert(out@[a] == out0[a]);
                            if i < m {
                                assert(out0[i as int].shuffle_id == id);
                            }
                            assert(out@[a].shuffle_id != id);
                        }
                    }
                }
                assert forall|a: int, b: int| #![trigger out@[a], out@[b]] 0 <= a < b < out@.len() implies
                    out@[a].shuffle_id != out@[b].shuffle_id by {
                    if b < m {
                        assert(out0[a].shuffle_id != out0[b].shuffle_id);
                        assert(out@[a].shuffle_id == out0[a].shuffle_id);
                        assert(out@[b].shuffle_id == out0[b].shuffle_id);
                    } else {
                        assert(out@[a].shuffle_id == out0[a].shuffle_id);
                    }
                }
                assert forall|c: int| 0 <= c < t.len() implies has_group(
                    out@,
                    (#[trigger] t[c]).shuffle_id,
                ) by {
                    if c < k {
                        assert(before[c] == t[c]);
                        assert(has_group(out0, before[c].shuffle_id));
                        let a = choose|a: int|
                            0 <= a < out0.len() && (#[trigger] out0[a]).shuffle_id == before[c].shuffle_id;
                        assert(out@[a].shuffle_id == out0[a].shuffle_id);
                    } else {
                        assert(out@[i as int].shuffle_id == id);
                    }
                }
            }
            k += 1;
        }
        assert(all.take(n as int) =~= all);
        out
    }

    /// Process a batch of revive requests for a single shuffle. `settled` says of each
    /// request whether a newer partition exists or its mapper has ended.
    pub fn process_batch(requests: &mut Vec<ReviveRequest>, settled: &Vec<bool>)
        requires
            old(requests)@.len() == settled@.len(),
        ensures
            batch_settled(old(requests)@, final(requests)@, settled@),
            forall|i: int|
                0 <= i < settled@.len() ==> (#[trigger] final(requests)@[i]).revive_status
                    == error::status_code(
                    if settled@[i] || old(requests)@[i].old_location is Some {
                        StatusCode::Success
                    } else {
                        StatusCode::ReviveFailed
                    },
                ),
    {
        let n: usize = settled.len();
        let mut i: usize = 0;
        while i < n
            invariant
                n == settled@.len(),
                requests@.len() == n,
                old(requests)@.len() == n,
                i <= n,
                forall|j: int|
                    0 <= j < i ==> #[trigger] requests@[j] == with_status(
                        old(requests)@[j],
                        batch_status(old(requests)@[j], settled@[j]),
                    ),
                forall|j: int| i <= j < n ==> #[trigger] requests@[j] == old(requests)@[j],
            decreases n - i,
        {
            assert(requests@[i as int] == old(requests)@[i as int]);
            let status: StatusCode = if settled[i] || requests[i].old_location.is_some() {
                StatusCode::Success
            } else {
                StatusCode::ReviveFailed
            };
            requests[i].set_status(status);
            i += 1;
        }
    }

    /// What a partition is revived to, and which worker is excluded.
    pub open spec fn revives_to(
        &self,
        after: &ReviveManager,
        shuffle_id: i32,
        partition_id: i32,
        old_location: Option<&PartitionLocation>,
        cause: StatusCode,
        now: u64,
        r: Result<PartitionLocation>,
    ) -> bool {
        match old_location {
            Some(loc) => {
                &&& r matches Ok(l)
                &&& l.model() == loc.model()
                &&& after.excluded_workers@ == excluded_after(
                    self.excluded_workers@,
                    cause,
                    *loc,
                    now,
                )
            },
            None => {
                &&& r == Err::<PartitionLocation, CelebornError>(
                    CelebornError::PartitionNotFound { shuffle_id, partition_id },
                )
                &&& after.excluded_workers@ == self.excluded_workers@
            },
        }
    }

    /// Perform a synchronous single-partition revive: the old location is used on, whatever
    /// the cause; without one there is none.
    pub fn revive_single(
        &mut self,
        shuffle_id: i32,
        partition_id: i32,
        old_location: Option<&PartitionLocation>,
        cause: StatusCode,
        now: u64,
    ) -> (r: Result<PartitionLocation>)
        ensures
            final(self).same_rest(old(self)),
            old(self).revives_to(
                final(self),
                shuffle_id,
                partition_id,
                old_location,
                cause,
                now,
                r,
            ),
    {
        match old_location {
            Some(loc) => {
                self.exclude_worker_by_cause(cause, loc, now);
                Ok(loc.clone())
            },
            None => Err(CelebornError::PartitionNotFound { shuffle_id, partition_id }),
        }
    }

    /// Stop the revive manager.
    pub fn stop(&mut self)
        ensures
            *final(self) == (ReviveManager { running: false, ..*old(self) }),
    {
        self.running = false;
    }
}

/// A shuffle without a group has no request.
proof fn lemma_none_of(s: Seq<ReviveRequest>, id: i32, groups: Seq<ShuffleRequests>)
    requires
        forall|k: int| 0 <= k < s.len() ==> has_group(groups, (#[trigger] s[k]).shuffle_id),
        forall|j: int| 0 <= j < groups.len() ==> (#[trigger] groups[j]).shuffle_id != id,
    ensures
        of_shuffle(s, id).len() == 0,
    decreases s.len(),
{
    if s.len() > 0 {
        let t = s.drop_last();
        assert forall|k: int| 0 <= k < t.len() implies has_group(
            groups,
            (#[trigger] t[k]).shuffle_id,
        ) by {
            assert(t[k] == s[k]);
        }
        lemma_none_of(t, id, groups);
        let last = s.len() - 1;
        assert(s[last].shuffle_id != id) by {
            assert(has_group(groups, s[last].shuffle_id));
            let i = choose|i: int|
                0 <= i < groups.len() && (#[trigger] groups[i]).shuffle_id == s[last].shuffle_id;
            assert(groups[i].shuffle_id != id);
        }
    }
}

} // verus!
